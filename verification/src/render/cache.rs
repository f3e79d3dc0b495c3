//! The tiered cache: three keyed stores, the moves of an entry between them,
//! and the rebalance pass that brings the tiers to their ceilings.

use vstd::prelude::*;
use dashmap::DashMap;
use crate::render::codec::spec_encode;
use crate::render::gpu::TextureHandle;
use crate::render::image::{
    packed, spec_decompress, CompressedImage, CompressedView, CompressionStrategy, Decompressed,
    ImageView, RawImage,
};
use crate::render::token::{
    coldest, hottest, instant_now, is_coldest, is_hottest, is_score, rank, AccessToken, Candidate,
};
use tokio::time::Instant;
use crate::util::error::LunarisError;

verus! {

/// `dashmap::DashMap`, the keyed store of each tier. What a store holds is
/// spoken of through `tier_entries`.
#[verifier::external_type_specification]
#[verifier::external_body]
#[verifier::reject_recursive_types(K)]
#[verifier::reject_recursive_types(V)]
#[verifier::reject_recursive_types(S)]
pub struct ExDashMap<K, V, S>(DashMap<K, V, S>);

/// The three storage levels of the cache, from the cheapest to hold to the
/// cheapest to present.
#[derive(Debug, Clone, Copy, PartialEq, Eq, Structural)]
pub enum Tier {
    /// Compressed bytes in memory.
    Low,
    /// Raw bytes in memory.
    Med,
    /// A texture on the device.
    High,
}

/// A cached frame, in the form that its tier keeps.
#[derive(Debug)]
pub enum Frame {
    Compressed(CompressedImage),
    Raw(RawImage),
    Resident(TextureHandle),
}

impl Frame {
    /// Both are frames of the same form that read the same.
    pub open spec fn same_as(self, other: Frame) -> bool {
        match (self, other) {
            (Frame::Compressed(a), Frame::Compressed(b)) => a@ == b@,
            (Frame::Raw(a), Frame::Raw(b)) => a@ == b@,
            (Frame::Resident(a), Frame::Resident(b)) => a == b,
            _ => false,
        }
    }
}

impl Clone for Frame {
    fn clone(&self) -> (r: Self)
        ensures
            r.same_as(*self),
    {
        match self {
            Frame::Compressed(image) => Frame::Compressed(image.clone()),
            Frame::Raw(image) => Frame::Raw(image.clone()),
            Frame::Resident(texture) => Frame::Resident(*texture),
        }
    }
}

/// One cache entry: the frame and the record of its accesses.
#[derive(Debug)]
pub struct Slot {
    pub token: AccessToken,
    pub frame: Frame,
}

impl Clone for Slot {
    fn clone(&self) -> (r: Self)
        ensures
            r.same_as(*self),
    {
        Slot { token: self.token, frame: self.frame.clone() }
    }
}

impl Slot {
    /// Both hold the same token and frames that read the same.
    pub open spec fn same_as(self, other: Slot) -> bool {
        self.token == other.token && self.frame.same_as(other.frame)
    }

    /// The slot holds a compressed image that reads as `view`.
    pub open spec fn holds_compressed(self, view: CompressedView) -> bool {
        self.frame matches Frame::Compressed(image) && image@ == view
    }

    /// The slot holds a raw image that reads as `view`.
    pub open spec fn holds_raw(self, view: ImageView) -> bool {
        self.frame matches Frame::Raw(image) && image@ == view
    }
}

/// The entries of one tier's store, by entity.
pub uninterp spec fn tier_entries(tier: DashMap<u64, Slot>) -> Map<u64, Slot>;

/// A store without entries.
pub open spec fn no_entries() -> Map<u64, Slot> {
    Map::empty()
}

/// A snapshot lists the tokens of a store: each listed entity is in the
/// store with that token, none is listed twice, and none is left out.
pub open spec fn lists_tokens(snapshot: Seq<(u64, AccessToken)>, entries: Map<u64, Slot>) -> bool {
    &&& forall|i: int|
        0 <= i < snapshot.len() ==> entries.contains_key((#[trigger] snapshot[i]).0)
            && entries[snapshot[i].0].token == snapshot[i].1
    &&& forall|i: int, j: int|
        0 <= i < j < snapshot.len() ==> (#[trigger] snapshot[i]).0 != (#[trigger] snapshot[j]).0
    &&& forall|entity: u64| #[trigger]
        entries.contains_key(entity) ==> exists|i: int|
            0 <= i < snapshot.len() && (#[trigger] snapshot[i]).0 == entity
}

/// `DashMap::new`: a store without entries.
#[verifier::external_body]
fn tier_new() -> (tier: DashMap<u64, Slot>)
    ensures
        tier_entries(tier) == no_entries(),
{
    DashMap::new()
}

/// `DashMap::contains_key`: whether the store has an entry for `entity`.
#[verifier::external_body]
fn tier_contains(tier: &DashMap<u64, Slot>, entity: u64) -> (found: bool)
    ensures
        found == tier_entries(*tier).contains_key(entity),
{
    tier.contains_key(&entity)
}

/// `DashMap::get`, with a clone of the entry that it finds: one with the same
/// token and a frame that reads the same.
#[verifier::external_body]
fn tier_get(tier: &DashMap<u64, Slot>, entity: u64) -> (slot: Option<Slot>)
    ensures
        slot is Some <==> tier_entries(*tier).contains_key(entity),
        slot matches Some(found) ==> found.same_as(tier_entries(*tier)[entity]),
{
    tier.get(&entity).map(|entry| entry.value().clone())
}

/// `DashMap::insert`: sets the entry of `entity` and returns the one it had.
#[verifier::external_body]
fn tier_insert(tier: &mut DashMap<u64, Slot>, entity: u64, slot: Slot) -> (previous: Option<Slot>)
    ensures
        tier_entries(*final(tier)) == tier_entries(*old(tier)).insert(entity, slot),
        previous == (if tier_entries(*old(tier)).contains_key(entity) {
            Some(tier_entries(*old(tier))[entity])
        } else {
            None
        }),
{
    tier.insert(entity, slot)
}

/// `DashMap::remove`: takes the entry of `entity` out, if there is one.
#[verifier::external_body]
fn tier_remove(tier: &mut DashMap<u64, Slot>, entity: u64) -> (removed: Option<Slot>)
    ensures
        tier_entries(*final(tier)) == tier_entries(*old(tier)).remove(entity),
        removed == (if tier_entries(*old(tier)).contains_key(entity) {
            Some(tier_entries(*old(tier))[entity])
        } else {
            None
        }),
{
    tier.remove(&entity).map(|(_, slot)| slot)
}

/// `DashMap::len`: the number of entries in the store.
#[verifier::external_body]
fn tier_len(tier: &DashMap<u64, Slot>) -> (n: usize)
    ensures
        n == tier_entries(*tier).dom().len(),
{
    tier.len()
}

/// `DashMap::iter`, with each entry's entity and token copied out: every
/// entry of the store once. The order is the store's own and not said here.
#[verifier::external_body]
fn tier_tokens(tier: &DashMap<u64, Slot>) -> (snapshot: Vec<(u64, AccessToken)>)
    ensures
        lists_tokens(snapshot@, tier_entries(*tier)),
{
    tier.iter().map(|entry| (*entry.key(), entry.value().token)).collect()
}

/// What a tiered cache holds: the entries of each tier, a soft ceiling for
/// each, `(low, med, high)`, and the codec for frames that enter the low tier.
pub struct CacheView {
    pub low: Map<u64, Slot>,
    pub med: Map<u64, Slot>,
    pub high: Map<u64, Slot>,
    pub capacity: (usize, usize, usize),
    pub codec: CompressionStrategy,
}

impl CacheView {
    /// The tier that holds `entity`, if one does.
    pub open spec fn tier_of(self, entity: u64) -> Option<Tier> {
        if self.low.contains_key(entity) {
            Some(Tier::Low)
        } else if self.med.contains_key(entity) {
            Some(Tier::Med)
        } else if self.high.contains_key(entity) {
            Some(Tier::High)
        } else {
            None
        }
    }

    /// The entries of one tier.
    pub open spec fn tier(self, tier: Tier) -> Map<u64, Slot> {
        match tier {
            Tier::Low => self.low,
            Tier::Med => self.med,
            Tier::High => self.high,
        }
    }

    /// The slot of `entity` in whichever tier holds it.
    pub open spec fn slot(self, entity: u64) -> Slot {
        if self.low.contains_key(entity) {
            self.low[entity]
        } else if self.med.contains_key(entity) {
            self.med[entity]
        } else {
            self.high[entity]
        }
    }

    /// The number of entries in the low, the medium and the high tier.
    pub open spec fn lens(self) -> (nat, nat, nat) {
        (self.low.dom().len(), self.med.dom().len(), self.high.dom().len())
    }

    /// A tier holds more entries than its ceiling allows.
    pub open spec fn over_capacity(self) -> bool {
        self.high.dom().len() > self.capacity.2 || self.med.dom().len() > self.capacity.1
            || self.low.dom().len() > self.capacity.0
    }

    /// No rule of a rebalance pass applies: no tier is over its ceiling, the
    /// medium tier is empty if the high one has room, and the low tier is
    /// empty if the high one is full and the medium one has room.
    pub open spec fn balanced(self) -> bool {
        &&& !self.over_capacity()
        &&& self.high.dom().len() < self.capacity.2 ==> self.med.dom().len() == 0
        &&& self.high.dom().len() == self.capacity.2 && self.med.dom().len() < self.capacity.1
            ==> self.low.dom().len() == 0
    }

    /// A bound on the moves that a rebalance pass has yet to make. While a
    /// tier is over its ceiling, entries only move down, an entry of the high
    /// tier at most three times; after that they only move up, an entry of
    /// the low tier at most twice.
    pub open spec fn moves_left(self) -> nat {
        if self.over_capacity() {
            5 * self.high.dom().len() + 4 * self.med.dom().len() + 3 * self.low.dom().len()
        } else {
            2 * self.low.dom().len() + self.med.dom().len()
        }
    }

    /// The number of entries in each tier, `(low, med, high)`, once a
    /// rebalance pass has brought the tiers to their ceilings: what is over
    /// the high tier's ceiling goes to the medium tier, what is then over the
    /// medium tier's goes to the low tier, and what is then over the low
    /// tier's leaves; after that the high tier is filled from the medium
    /// tier, and if that fills it, the medium tier from the low tier.
    pub open spec fn settled(self) -> (nat, nat, nat) {
        let high_kept = spec_min(self.high.dom().len(), self.capacity.2 as nat);
        let med_held = (self.med.dom().len() + self.high.dom().len() - high_kept) as nat;
        let med_kept = spec_min(med_held, self.capacity.1 as nat);
        let low_held = (self.low.dom().len() + med_held - med_kept) as nat;
        let low_kept = spec_min(low_held, self.capacity.0 as nat);
        let raised = spec_min((self.capacity.2 - high_kept) as nat, med_kept);
        let high = (high_kept + raised) as nat;
        let med = (med_kept - raised) as nat;
        if high < self.capacity.2 {
            (low_kept, med, high)
        } else {
            let drawn = spec_min((self.capacity.1 - med) as nat, low_kept);
            ((low_kept - drawn) as nat, (med + drawn) as nat, high)
        }
    }

    /// Every entity of `self` was an entity of `before`, with the token it
    /// has now.
    pub open spec fn descends_from(self, before: CacheView) -> bool {
        forall|e: u64| #[trigger]
            self.tier_of(e) is Some ==> before.tier_of(e) is Some && self.slot(e).token
                == before.slot(e).token
    }

    /// Each tier holds finitely many entries, each in the form of its tier,
    /// and no entity is in two tiers.
    pub open spec fn wf(self) -> bool {
        &&& self.low.dom().finite()
        &&& self.med.dom().finite()
        &&& self.high.dom().finite()
        &&& forall|e: u64| #[trigger] self.low.contains_key(e) ==> self.low[e].frame is Compressed
        &&& forall|e: u64| #[trigger] self.med.contains_key(e) ==> self.med[e].frame is Raw
        &&& forall|e: u64| #[trigger] self.high.contains_key(e) ==> self.high[e].frame is Resident
        &&& forall|e: u64| !(#[trigger] self.low.contains_key(e) && self.med.contains_key(e))
        &&& forall|e: u64| !(#[trigger] self.low.contains_key(e) && self.high.contains_key(e))
        &&& forall|e: u64| !(#[trigger] self.med.contains_key(e) && self.high.contains_key(e))
    }
}

/// The lesser of two numbers.
pub open spec fn spec_min(a: nat, b: nat) -> nat {
    if a <= b {
        a
    } else {
        b
    }
}

/// `token` is one with which `entity` may enter a tier of `cache`: the one
/// it has there already, or one without touches if it is new to the cache.
pub open spec fn enters_with(cache: CacheView, entity: u64, token: AccessToken) -> bool {
    if cache.tier_of(entity) is Some {
        token == cache.slot(entity).token
    } else {
        token.spec_touch_frequency() == 0
    }
}

/// `after` is `before` with one more touch on the token of `entity`: the
/// entity is in the tier it was in, with the frame it had, and its touch
/// frequency is one higher, unless it was at `u32::MAX`; nothing else differs.
pub open spec fn touched(before: CacheView, after: CacheView, entity: u64) -> bool {
    &&& after.tier_of(entity) == before.tier_of(entity)
    &&& after.slot(entity).frame == before.slot(entity).frame
    &&& after.slot(entity).token.spec_touch_frequency() == (if before.slot(
        entity,
    ).token.spec_touch_frequency() == u32::MAX {
        u32::MAX
    } else {
        (before.slot(entity).token.spec_touch_frequency() + 1) as u32
    })
    &&& after.low == (if before.low.contains_key(entity) {
        before.low.insert(entity, after.low[entity])
    } else {
        before.low
    })
    &&& after.med == (if before.med.contains_key(entity) {
        before.med.insert(entity, after.med[entity])
    } else {
        before.med
    })
    &&& after.high == (if before.high.contains_key(entity) {
        before.high.insert(entity, after.high[entity])
    } else {
        before.high
    })
}

/// The result is the error `NotFound`.
pub open spec fn is_not_found(r: Result<(), LunarisError>) -> bool {
    r matches Err(e) && e is NotFound
}

/// `after` is `before` without `entity`: whichever tier held it holds it no
/// longer, and nothing else differs.
pub open spec fn evicted(before: CacheView, after: CacheView, entity: u64) -> bool {
    &&& after.low == before.low.remove(entity)
    &&& after.med == before.med.remove(entity)
    &&& after.high == before.high.remove(entity)
    &&& after.capacity == before.capacity
    &&& after.codec == before.codec
}

/// `entity` has left the medium tier of `before` for the low tier, with its
/// token, compressed by the cache's codec; or, where the codec has no
/// encoding for its image, nothing has changed and `r` is `FailedCompress`.
pub open spec fn compressed_down(
    before: CacheView,
    after: CacheView,
    entity: u64,
    r: Result<(), LunarisError>,
) -> bool {
    let image = before.med[entity].frame->Raw_0@;
    match spec_encode(before.codec, image.bytes, image.width, image.height) {
        Some(payload) => {
            &&& r is Ok
            &&& after.med == before.med.remove(entity)
            &&& after.high == before.high
            &&& after.low == before.low.insert(entity, after.low[entity])
            &&& after.low[entity].token == before.med[entity].token
            &&& after.low[entity].holds_compressed(packed(image, before.codec, payload))
        },
        None => {
            &&& r matches Err(e) && e is FailedCompress
            &&& after == before
        },
    }
}

/// `entity` has left the high tier of `before` for the medium tier, with its
/// token and as a raw image.
pub open spec fn read_back(before: CacheView, after: CacheView, entity: u64) -> bool {
    &&& after.high == before.high.remove(entity)
    &&& after.low == before.low
    &&& after.med == before.med.insert(entity, after.med[entity])
    &&& after.med[entity].token == before.high[entity].token
    &&& after.med[entity].frame is Raw
}

/// `entity` has left the low tier of `before` for the medium tier, with its
/// token and decompressed; or, where its payload does not decompress,
/// nothing has changed and `r` is the error of the decompression.
pub open spec fn decompressed_up(
    before: CacheView,
    after: CacheView,
    entity: u64,
    r: Result<(), LunarisError>,
) -> bool {
    match spec_decompress(before.low[entity].frame->Compressed_0@) {
        Decompressed::Image(view) => {
            &&& r is Ok
            &&& after.low == before.low.remove(entity)
            &&& after.high == before.high
            &&& after.med == before.med.insert(entity, after.med[entity])
            &&& after.med[entity].token == before.low[entity].token
            &&& after.med[entity].holds_raw(view)
        },
        Decompressed::Corrupt => {
            &&& r matches Err(e) && e is FailedDecompress
            &&& after == before
        },
        Decompressed::HeaderMismatch => {
            &&& r matches Err(e) && e is InvalidArgument
            &&& after == before
        },
        Decompressed::LengthMismatch => {
            &&& r matches Err(e) && e is InvalidArgument
            &&& after == before
        },
    }
}

/// `entity` has left the medium tier of `before` for the high tier, with its
/// token and as a texture.
pub open spec fn uploaded(before: CacheView, after: CacheView, entity: u64) -> bool {
    &&& after.med == before.med.remove(entity)
    &&& after.low == before.low
    &&& after.high == before.high.insert(entity, after.high[entity])
    &&& after.high[entity].token == before.med[entity].token
    &&& after.high[entity].frame is Resident
}

/// One step of a rebalance pass.
#[derive(Debug, Clone, Copy, PartialEq, Eq, Structural)]
pub enum Move {
    /// Move the entity one tier down.
    Demote(u64),
    /// Move the entity one tier up.
    Promote(u64),
    /// Take the entity out of the cache.
    Evict(u64),
}

/// `step` demotes the coldest entry of `snapshot`, and is none for an empty
/// snapshot.
pub open spec fn demotes_coldest(snapshot: Seq<Candidate>, step: Option<Move>) -> bool {
    if snapshot.len() == 0 {
        step is None
    } else {
        exists|i: int| is_coldest(snapshot, i) && step == Some(Move::Demote(snapshot[i].entity))
    }
}

/// `step` evicts the coldest entry of `snapshot`, and is none for an empty
/// snapshot.
pub open spec fn evicts_coldest(snapshot: Seq<Candidate>, step: Option<Move>) -> bool {
    if snapshot.len() == 0 {
        step is None
    } else {
        exists|i: int| is_coldest(snapshot, i) && step == Some(Move::Evict(snapshot[i].entity))
    }
}

/// `step` promotes the hottest entry of `snapshot`, and is none for an empty
/// snapshot.
pub open spec fn promotes_hottest(snapshot: Seq<Candidate>, step: Option<Move>) -> bool {
    if snapshot.len() == 0 {
        step is None
    } else {
        exists|i: int| is_hottest(snapshot, i) && step == Some(Move::Promote(snapshot[i].entity))
    }
}

/// `step` is what a rebalance pass does next, given the number of entries
/// and the ceiling of each tier, `(low, med, high)`, and a snapshot of each.
/// The first rule that applies decides: a high tier over its ceiling has its
/// coldest entry demoted, else a medium tier over its ceiling has; else a low
/// tier over its ceiling has its coldest entry evicted, since there is no
/// tier below it; else a high tier with room takes the hottest entry of the
/// medium tier, else a medium tier with room takes the hottest of the low
/// tier. A rule whose snapshot is empty applies and does nothing.
pub open spec fn is_next_move(
    lens: (nat, nat, nat),
    capacity: (usize, usize, usize),
    low: Seq<Candidate>,
    med: Seq<Candidate>,
    high: Seq<Candidate>,
    step: Option<Move>,
) -> bool {
    if lens.2 > capacity.2 {
        demotes_coldest(high, step)
    } else if lens.1 > capacity.1 {
        demotes_coldest(med, step)
    } else if lens.0 > capacity.0 {
        evicts_coldest(low, step)
    } else if lens.2 < capacity.2 {
        promotes_hottest(med, step)
    } else if lens.1 < capacity.1 {
        promotes_hottest(low, step)
    } else {
        step is None
    }
}

fn demote_coldest(snapshot: &Vec<Candidate>) -> (step: Option<Move>)
    ensures
        demotes_coldest(snapshot@, step),
{
    match coldest(snapshot) {
        Some(i) => Some(Move::Demote(snapshot[i].entity)),
        None => None,
    }
}

fn evict_coldest(snapshot: &Vec<Candidate>) -> (step: Option<Move>)
    ensures
        evicts_coldest(snapshot@, step),
{
    match coldest(snapshot) {
        Some(i) => Some(Move::Evict(snapshot[i].entity)),
        None => None,
    }
}

fn promote_hottest(snapshot: &Vec<Candidate>) -> (step: Option<Move>)
    ensures
        promotes_hottest(snapshot@, step),
{
    match hottest(snapshot) {
        Some(i) => Some(Move::Promote(snapshot[i].entity)),
        None => None,
    }
}

/// Decides the next step of a rebalance pass: see `is_next_move`.
pub fn next_move(
    lens: (usize, usize, usize),
    capacity: (usize, usize, usize),
    low: &Vec<Candidate>,
    med: &Vec<Candidate>,
    high: &Vec<Candidate>,
) -> (step: Option<Move>)
    ensures
        is_next_move(
            (lens.0 as nat, lens.1 as nat, lens.2 as nat),
            capacity,
            low@,
            med@,
            high@,
            step,
        ),
{
    if lens.2 > capacity.2 {
        demote_coldest(high)
    } else if lens.1 > capacity.1 {
        demote_coldest(med)
    } else if lens.0 > capacity.0 {
        evict_coldest(low)
    } else if lens.2 < capacity.2 {
        promote_hottest(med)
    } else if lens.1 < capacity.1 {
        promote_hottest(low)
    } else {
        None
    }
}

/// A snapshot as a rebalance pass takes it of a tier: one entry for each
/// entity of the tier and for no other, with the touch frequency of the
/// entity's token and a score of that token at some moment.
pub open spec fn snapshot_of(snapshot: Seq<Candidate>, entries: Map<u64, Slot>) -> bool {
    &&& forall|i: int|
        0 <= i < snapshot.len() ==> entries.contains_key((#[trigger] snapshot[i]).entity)
            && snapshot[i].frequency == entries[snapshot[i].entity].token.spec_touch_frequency()
            && is_score(snapshot[i].score, snapshot[i].frequency)
    &&& forall|i: int, j: int|
        0 <= i < j < snapshot.len() ==> (#[trigger] snapshot[i]).entity != (
        #[trigger] snapshot[j]).entity
    &&& forall|entity: u64| #[trigger]
        entries.contains_key(entity) ==> exists|i: int|
            0 <= i < snapshot.len() && (#[trigger] snapshot[i]).entity == entity
}

/// What `demote` does to a cache, by the tier that holds `entity`. There is
/// no tier below the low one: an entity of the low tier stays where it is.
pub open spec fn demotion(
    before: CacheView,
    after: CacheView,
    entity: u64,
    r: Result<(), LunarisError>,
) -> bool {
    match before.tier_of(entity) {
        None => is_not_found(r) && after == before,
        Some(Tier::Low) => r is Ok && after == before,
        Some(Tier::Med) => compressed_down(before, after, entity, r),
        Some(Tier::High) => r is Ok && read_back(before, after, entity),
    }
}

/// What `promote` does to a cache, by the tier that holds `entity`. There is
/// no tier above the high one: an entity of the high tier stays where it is.
pub open spec fn promotion(
    before: CacheView,
    after: CacheView,
    entity: u64,
    r: Result<(), LunarisError>,
) -> bool {
    match before.tier_of(entity) {
        None => is_not_found(r) && after == before,
        Some(Tier::Low) => decompressed_up(before, after, entity, r),
        Some(Tier::Med) => r is Ok && uploaded(before, after, entity),
        Some(Tier::High) => r is Ok && after == before,
    }
}

/// What one step of a rebalance pass does to a cache: nothing where no move
/// is due, else what the move does.
pub open spec fn stepped(
    before: CacheView,
    after: CacheView,
    step: Option<Move>,
    r: Result<(), LunarisError>,
) -> bool {
    match step {
        None => r is Ok && after == before,
        Some(Move::Demote(entity)) => demotion(before, after, entity, r),
        Some(Move::Promote(entity)) => promotion(before, after, entity, r),
        Some(Move::Evict(entity)) => r is Ok && evicted(before, after, entity),
    }
}

/// The state of a cache after `i` steps of a pass that began in `before`,
/// where `steps` holds each move with the state that it led to.
pub open spec fn state_after(before: CacheView, steps: Seq<(Move, CacheView)>, i: int) -> CacheView {
    if i <= 0 {
        before
    } else {
        steps[i - 1].1
    }
}

/// `steps` is the course of a rebalance pass that began in `before`, ended
/// in `after` and returned `r`: each move was due in the state that the one
/// before it had led to, and led to the state it is listed with, a well
/// formed one of the same ceilings and codec; each but the last succeeded,
/// and the last ended as `r` says; the pass went on until no move was due,
/// or until a move failed.
pub open spec fn is_pass(
    before: CacheView,
    steps: Seq<(Move, CacheView)>,
    after: CacheView,
    r: Result<(), LunarisError>,
) -> bool {
    &&& after == state_after(before, steps, steps.len() as int)
    &&& forall|i: int|
        0 <= i < steps.len() ==> is_due(
            state_after(before, steps, i),
            Some((#[trigger] steps[i]).0),
        ) && stepped(
            state_after(before, steps, i),
            steps[i].1,
            Some(steps[i].0),
            if i == steps.len() - 1 {
                r
            } else {
                Ok(())
            },
        ) && steps[i].1.wf() && steps[i].1.capacity == before.capacity && steps[i].1.codec
            == before.codec
    &&& r is Ok ==> is_due(after, None)
    &&& r is Err ==> steps.len() > 0
}

/// `step` is the move that is due in `cache`, as some snapshot of each of
/// its tiers decides it.
pub open spec fn is_due(cache: CacheView, step: Option<Move>) -> bool {
    exists|low: Seq<Candidate>, med: Seq<Candidate>, high: Seq<Candidate>|
        snapshot_of(low, cache.low) && snapshot_of(med, cache.med) && snapshot_of(high, cache.high)
            && #[trigger] is_next_move(cache.lens(), cache.capacity, low, med, high, step)
}

/// An entity of a well-formed cache is in at most one tier.
pub proof fn lemma_at_most_one_tier(cache: CacheView, entity: u64)
    requires
        cache.wf(),
    ensures
        !(cache.low.contains_key(entity) && cache.med.contains_key(entity)),
        !(cache.low.contains_key(entity) && cache.high.contains_key(entity)),
        !(cache.med.contains_key(entity) && cache.high.contains_key(entity)),
        cache.tier_of(entity) matches Some(tier) ==> forall|other: Tier|
            cache.tier(other).contains_key(entity) ==> other == tier,
{
}

/// Tiered cache for fully rendered frames.
pub struct TieredCache {
    capacity: (usize, usize, usize),
    codec: CompressionStrategy,
    low: DashMap<u64, Slot>,
    med: DashMap<u64, Slot>,
    high: DashMap<u64, Slot>,
}

impl View for TieredCache {
    type V = CacheView;

    closed spec fn view(&self) -> CacheView {
        CacheView {
            low: tier_entries(self.low),
            med: tier_entries(self.med),
            high: tier_entries(self.high),
            capacity: self.capacity,
            codec: self.codec,
        }
    }
}

impl TieredCache {
    /// The cache is well formed: see `CacheView::wf`.
    pub open spec fn wf(&self) -> bool {
        self@.wf()
    }

    /// An empty cache with the given ceilings, which compresses with QOI.
    pub fn with_capacity(low: usize, med: usize, high: usize) -> (cache: TieredCache)
        ensures
            cache.wf(),
            cache@.low == no_entries(),
            cache@.med == no_entries(),
            cache@.high == no_entries(),
            cache@.capacity == (low, med, high),
            cache@.codec == CompressionStrategy::Qoi,
    {
        TieredCache {
            capacity: (low, med, high),
            codec: CompressionStrategy::Qoi,
            low: tier_new(),
            med: tier_new(),
            high: tier_new(),
        }
    }

    /// The same cache with another codec for frames that enter the low tier.
    pub fn with_codec(self, codec: CompressionStrategy) -> (cache: TieredCache)
        ensures
            cache@.low == self@.low,
            cache@.med == self@.med,
            cache@.high == self@.high,
            cache@.capacity == self@.capacity,
            cache@.codec == codec,
    {
        TieredCache {
            capacity: self.capacity,
            codec,
            low: self.low,
            med: self.med,
            high: self.high,
        }
    }

    /// The ceilings of the low, the medium and the high tier.
    pub fn capacity(&self) -> (c: (usize, usize, usize))
        ensures
            c == self@.capacity,
    {
        self.capacity
    }

    /// The codec for frames that enter the low tier.
    pub fn codec(&self) -> (c: CompressionStrategy)
        ensures
            c == self@.codec,
    {
        self.codec
    }

    /// Higher tiers cost more per entry, so their ceilings are expected to
    /// be no higher than those below them. This tells whether they are.
    pub fn has_inverted_capacities(&self) -> (inverted: bool)
        ensures
            inverted <==> self@.capacity.0 < self@.capacity.1 || self@.capacity.1
                < self@.capacity.2,
    {
        self.capacity.0 < self.capacity.1 || self.capacity.1 < self.capacity.2
    }

    /// Number of entries in a tier.
    pub fn len(&self, tier: Tier) -> (n: usize)
        ensures
            n == self@.tier(tier).dom().len(),
    {
        match tier {
            Tier::Low => tier_len(&self.low),
            Tier::Med => tier_len(&self.med),
            Tier::High => tier_len(&self.high),
        }
    }

    /// The tier that holds `entity`, if one does.
    pub fn tier_of(&self, entity: u64) -> (tier: Option<Tier>)
        ensures
            tier == self@.tier_of(entity),
    {
        if tier_contains(&self.low, entity) {
            Some(Tier::Low)
        } else if tier_contains(&self.med, entity) {
            Some(Tier::Med)
        } else if tier_contains(&self.high, entity) {
            Some(Tier::High)
        } else {
            None
        }
    }

    /// A clone of the frame of `entity`, from whichever tier holds it.
    pub fn get(&self, entity: u64) -> (frame: Option<Frame>)
        ensures
            frame is Some <==> self@.tier_of(entity) is Some,
            frame matches Some(found) ==> found.same_as(self@.slot(entity).frame),
    {
        match tier_get(&self.low, entity) {
            Some(slot) => {
                return Some(slot.frame);
            },
            None => {},
        }
        match tier_get(&self.med, entity) {
            Some(slot) => {
                return Some(slot.frame);
            },
            None => {},
        }
        match tier_get(&self.high, entity) {
            Some(slot) => Some(slot.frame),
            None => None,
        }
    }

    /// Takes a freshly rendered frame into the medium tier. A frame that the
    /// cache held for the entity leaves its tier and is returned; its token
    /// stays with the entity. An entity that is new to the cache gets a token
    /// without touches.
    pub fn insert(&mut self, entity: u64, image: RawImage) -> (displaced: Option<Frame>)
        requires
            old(self).wf(),
        ensures
            final(self).wf(),
            final(self)@.capacity == old(self)@.capacity,
            final(self)@.codec == old(self)@.codec,
            final(self)@.low == old(self)@.low.remove(entity),
            final(self)@.high == old(self)@.high.remove(entity),
            final(self)@.med == old(self)@.med.insert(entity, final(self)@.med[entity]),
            final(self)@.med[entity].frame == Frame::Raw(image),
            displaced == (if old(self)@.tier_of(entity) is Some {
                Some(old(self)@.slot(entity).frame)
            } else {
                None
            }),
            enters_with(old(self)@, entity, final(self)@.med[entity].token),
    {
        let from_low = tier_remove(&mut self.low, entity);
        let from_med = tier_remove(&mut self.med, entity);
        let from_high = tier_remove(&mut self.high, entity);
        let previous: Option<Slot> = match from_low {
            Some(slot) => Some(slot),
            None => match from_med {
                Some(slot) => Some(slot),
                None => from_high,
            },
        };
        let (token, displaced) = match previous {
            Some(slot) => (slot.token, Some(slot.frame)),
            None => (AccessToken::new(), None),
        };
        let _ = tier_insert(&mut self.med, entity, Slot { token, frame: Frame::Raw(image) });
        proof {
            assert(self@.med =~= old(self)@.med.insert(entity, self@.med[entity]));
        }
        displaced
    }

    /// Records a touch of `entity` on its token, at the reading that the
    /// clock gives. Fails with `NotFound`, and changes nothing, if no tier
    /// holds the entity.
    pub fn touch(&mut self, entity: u64) -> (r: Result<(), LunarisError>)
        requires
            old(self).wf(),
        ensures
            final(self).wf(),
            final(self)@.capacity == old(self)@.capacity,
            final(self)@.codec == old(self)@.codec,
            r is Ok <==> old(self)@.tier_of(entity) is Some,
            r matches Err(e) ==> e is NotFound && final(self)@ == old(self)@,
            r is Ok ==> touched(old(self)@, final(self)@, entity),
    {
        let now = instant_now();
        self.touch_at(entity, now)
    }

    /// Records a touch of `entity` on its token at the clock reading `now`:
    /// the token was last touched then, and once more often. Fails with
    /// `NotFound`, and changes nothing, if no tier holds the entity.
    pub fn touch_at(&mut self, entity: u64, now: Instant) -> (r: Result<(), LunarisError>)
        requires
            old(self).wf(),
        ensures
            final(self).wf(),
            final(self)@.capacity == old(self)@.capacity,
            final(self)@.codec == old(self)@.codec,
            r is Ok <==> old(self)@.tier_of(entity) is Some,
            r matches Err(e) ==> e is NotFound && final(self)@ == old(self)@,
            r is Ok ==> touched(old(self)@, final(self)@, entity) && final(self)@.slot(
                entity,
            ).token.spec_last_touched() == now,
    {
        match tier_remove(&mut self.low, entity) {
            Some(slot) => {
                let mut token = slot.token;
                token.touch_at(now);
                let _ = tier_insert(&mut self.low, entity, Slot { token, frame: slot.frame });
                proof {
                    assert(self@.low =~= old(self)@.low.insert(
                        entity,
                        self@.low[entity],
                    ));
                }
                return Ok(());
            },
            None => {
                proof {
                    assert(self@.low =~= old(self)@.low);
                }
            },
        }
        match tier_remove(&mut self.med, entity) {
            Some(slot) => {
                let mut token = slot.token;
                token.touch_at(now);
                let _ = tier_insert(&mut self.med, entity, Slot { token, frame: slot.frame });
                proof {
                    assert(self@.med =~= old(self)@.med.insert(
                        entity,
                        self@.med[entity],
                    ));
                }
                return Ok(());
            },
            None => {
                proof {
                    assert(self@.med =~= old(self)@.med);
                }
            },
        }
        match tier_remove(&mut self.high, entity) {
            Some(slot) => {
                let mut token = slot.token;
                token.touch_at(now);
                let _ = tier_insert(&mut self.high, entity, Slot { token, frame: slot.frame });
                proof {
                    assert(self@.high =~= old(self)@.high.insert(
                        entity,
                        self@.high[entity],
                    ));
                }
                Ok(())
            },
            None => {
                proof {
                    assert(self@.high =~= old(self)@.high);
                }
                Err(LunarisError::NotFound { item: "rendered result for entity".to_string() })
            },
        }
    }
    /// Takes `entity` out of the cache, from whichever tier holds it, and
    /// returns the frame it had there.
    pub fn evict(&mut self, entity: u64) -> (frame: Option<Frame>)
        requires
            old(self).wf(),
        ensures
            final(self).wf(),
            evicted(old(self)@, final(self)@, entity),
            frame == (if old(self)@.tier_of(entity) is Some {
                Some(old(self)@.slot(entity).frame)
            } else {
                None
            }),
    {
        let from_low = tier_remove(&mut self.low, entity);
        let from_med = tier_remove(&mut self.med, entity);
        let from_high = tier_remove(&mut self.high, entity);
        match from_low {
            Some(slot) => Some(slot.frame),
            None => match from_med {
                Some(slot) => Some(slot.frame),
                None => match from_high {
                    Some(slot) => Some(slot.frame),
                    None => None,
                },
            },
        }
    }

    /// Moves `entity` one tier down: from the high tier to the medium one by
    /// reading its texture back with `readback`, from the medium tier to the
    /// low one by compressing it with the cache's codec. An entity of the low
    /// tier stays where it is: there is no tier below. Where the codec
    /// fails, the error is returned and the cache is as it was. Fails with
    /// `NotFound`, and changes nothing, if no tier holds the entity.
    pub fn demote<R: Fn(TextureHandle) -> RawImage>(&mut self, entity: u64, readback: &R) -> (r:
        Result<(), LunarisError>)
        requires
            old(self).wf(),
            forall|texture: TextureHandle| readback.requires((texture,)),
        ensures
            final(self).wf(),
            final(self)@.capacity == old(self)@.capacity,
            final(self)@.codec == old(self)@.codec,
            demotion(old(self)@, final(self)@, entity, r),
            old(self)@.tier_of(entity) == Some(Tier::High) ==> readback.ensures(
                (old(self)@.high[entity].frame->Resident_0,),
                final(self)@.med[entity].frame->Raw_0,
            ),
    {
        if tier_contains(&self.low, entity) {
            return Ok(());
        }
        match tier_remove(&mut self.med, entity) {
            Some(slot) => {
                let token = slot.token;
                match slot.frame {
                    Frame::Raw(image) => {
                        match image.clone().compress(self.codec) {
                            Ok(compressed) => {
                                let _ = tier_insert(
                                    &mut self.low,
                                    entity,
                                    Slot { token, frame: Frame::Compressed(compressed) },
                                );
                                proof {
                                    assert(self@.low =~= old(self)@.low.insert(
                                        entity,
                                        self@.low[entity],
                                    ));
                                }
                                return Ok(());
                            },
                            Err(e) => {
                                let _ = tier_insert(
                                    &mut self.med,
                                    entity,
                                    Slot { token, frame: Frame::Raw(image) },
                                );
                                proof {
                                    assert(self@.med =~= old(self)@.med);
                                }
                                return Err(e);
                            },
                        }
                    },
                    _ => {
                        proof {
                            assert(false);
                        }
                        return Ok(());
                    },
                }
            },
            None => {
                proof {
                    assert(self@.med =~= old(self)@.med);
                }
            },
        }
        match tier_remove(&mut self.high, entity) {
            Some(slot) => {
                let token = slot.token;
                match slot.frame {
                    Frame::Resident(texture) => {
                        let image = readback(texture);
                        let _ = tier_insert(
                            &mut self.med,
                            entity,
                            Slot { token, frame: Frame::Raw(image) },
                        );
                        proof {
                            assert(self@.med =~= old(self)@.med.insert(entity, self@.med[entity]));
                        }
                        Ok(())
                    },
                    _ => {
                        proof {
                            assert(false);
                        }
                        Ok(())
                    },
                }
            },
            None => {
                proof {
                    assert(self@.high =~= old(self)@.high);
                }
                Err(LunarisError::NotFound { item: "rendered result for entity".to_string() })
            },
        }
    }

    /// Moves `entity` one tier up: from the low tier to the medium one by
    /// decompressing it, from the medium tier to the high one by uploading it
    /// with `upload`. An entity of the high tier stays where it is: there is
    /// no tier above. Where decompression fails, the error is returned and
    /// the cache is as it was. Fails with `NotFound`, and changes nothing, if
    /// no tier holds the entity.
    pub fn promote<U: Fn(&RawImage) -> TextureHandle>(&mut self, entity: u64, upload: &U) -> (r:
        Result<(), LunarisError>)
        requires
            old(self).wf(),
            forall|image: &RawImage| upload.requires((image,)),
        ensures
            final(self).wf(),
            final(self)@.capacity == old(self)@.capacity,
            final(self)@.codec == old(self)@.codec,
            promotion(old(self)@, final(self)@, entity, r),
            old(self)@.tier_of(entity) == Some(Tier::Med) ==> upload.ensures(
                (&old(self)@.med[entity].frame->Raw_0,),
                final(self)@.high[entity].frame->Resident_0,
            ),
    {
        match tier_remove(&mut self.low, entity) {
            Some(slot) => {
                let token = slot.token;
                match slot.frame {
                    Frame::Compressed(compressed) => {
                        match compressed.decompress() {
                            Ok(image) => {
                                let _ = tier_insert(
                                    &mut self.med,
                                    entity,
                                    Slot { token, frame: Frame::Raw(image) },
                                );
                                proof {
                                    assert(self@.med =~= old(self)@.med.insert(
                                        entity,
                                        self@.med[entity],
                                    ));
                                }
                                return Ok(());
                            },
                            Err(e) => {
                                let _ = tier_insert(
                                    &mut self.low,
                                    entity,
                                    Slot { token, frame: Frame::Compressed(compressed) },
                                );
                                proof {
                                    assert(self@.low =~= old(self)@.low);
                                }
                                return Err(e);
                            },
                        }
                    },
                    _ => {
                        proof {
                            assert(false);
                        }
                        return Ok(());
                    },
                }
            },
            None => {
                proof {
                    assert(self@.low =~= old(self)@.low);
                }
            },
        }
        match tier_remove(&mut self.med, entity) {
            Some(slot) => {
                let token = slot.token;
                match slot.frame {
                    Frame::Raw(image) => {
                        let texture = upload(&image);
                        let _ = tier_insert(
                            &mut self.high,
                            entity,
                            Slot { token, frame: Frame::Resident(texture) },
                        );
                        proof {
                            assert(self@.high =~= old(self)@.high.insert(
                                entity,
                                self@.high[entity],
                            ));
                        }
                        return Ok(());
                    },
                    _ => {
                        proof {
                            assert(false);
                        }
                        return Ok(());
                    },
                }
            },
            None => {
                proof {
                    assert(self@.med =~= old(self)@.med);
                }
            },
        }
        if tier_contains(&self.high, entity) {
            Ok(())
        } else {
            Err(LunarisError::NotFound { item: "rendered result for entity".to_string() })
        }
    }

    /// Takes a snapshot of one store: each entry's entity, with the score of
    /// its token at this moment and its touch frequency.
    fn snapshot(tier: &DashMap<u64, Slot>) -> (snapshot: Vec<Candidate>)
        ensures
            snapshot_of(snapshot@, tier_entries(*tier)),
    {
        let tokens = tier_tokens(tier);
        let snapshot = rank(&tokens);
        proof {
            let entries = tier_entries(*tier);
            assert forall|entity: u64| #[trigger] entries.contains_key(entity) implies exists|
                i: int,
            |
                0 <= i < snapshot@.len() && (#[trigger] snapshot@[i]).entity == entity by {
                let i = choose|i: int| 0 <= i < tokens@.len() && (#[trigger] tokens@[i]).0 == entity;
                assert(snapshot@[i].entity == entity);
            }
            assert forall|i: int| 0 <= i < snapshot@.len() implies entries.contains_key(
                (#[trigger] snapshot@[i]).entity,
            ) && snapshot@[i].frequency == entries[snapshot@[i].entity].token.spec_touch_frequency()
                && is_score(snapshot@[i].score, snapshot@[i].frequency) by {
                assert(entries.contains_key(tokens@[i].0));
            }
            assert forall|i: int, j: int| 0 <= i < j < snapshot@.len() implies (
            #[trigger] snapshot@[i]).entity != (#[trigger] snapshot@[j]).entity by {
                assert(tokens@[i].0 != tokens@[j].0);
            }
        }
        snapshot
    }

    /// One step of the rebalance pass: takes a snapshot of each tier, decides
    /// the move that is due as `is_next_move` says, and makes it. Returns the
    /// move, if one was due, and how it ended. A move that fails leaves the
    /// cache as it was.
    pub fn rebalance_step<U: Fn(&RawImage) -> TextureHandle, R: Fn(TextureHandle) -> RawImage>(
        &mut self,
        upload: &U,
        readback: &R,
    ) -> (step: (Option<Move>, Result<(), LunarisError>))
        requires
            old(self).wf(),
            forall|image: &RawImage| upload.requires((image,)),
            forall|texture: TextureHandle| readback.requires((texture,)),
        ensures
            final(self).wf(),
            final(self)@.capacity == old(self)@.capacity,
            final(self)@.codec == old(self)@.codec,
            is_due(old(self)@, step.0),
            stepped(old(self)@, final(self)@, step.0, step.1),
    {
        let low = Self::snapshot(&self.low);
        let med = Self::snapshot(&self.med);
        let high = Self::snapshot(&self.high);
        let lens = (tier_len(&self.low), tier_len(&self.med), tier_len(&self.high));
        let step = next_move(lens, self.capacity, &low, &med, &high);
        proof {
            assert(is_next_move(self@.lens(), self@.capacity, low@, med@, high@, step));
        }
        match step {
            None => (None, Ok(())),
            Some(Move::Demote(entity)) => {
                let r = self.demote(entity, readback);
                (step, r)
            },
            Some(Move::Promote(entity)) => {
                let r = self.promote(entity, upload);
                (step, r)
            },
            Some(Move::Evict(entity)) => {
                let _ = self.evict(entity);
                (step, Ok(()))
            },
        }
    }

    /// The rebalance pass: makes one step after the other until no move is
    /// due. Entries over a ceiling go down, and out of the low tier, before
    /// any goes up. The first error of a step ends the pass; the steps made
    /// before it stay made, and the entry of the failed step is where it
    /// was. A pass on a balanced cache changes nothing. A pass that succeeds
    /// leaves as many entries in each tier as `settled` says.
    pub fn update<U: Fn(&RawImage) -> TextureHandle, R: Fn(TextureHandle) -> RawImage>(
        &mut self,
        upload: &U,
        readback: &R,
    ) -> (r: Result<(), LunarisError>)
        requires
            old(self).wf(),
            forall|image: &RawImage| upload.requires((image,)),
            forall|texture: TextureHandle| readback.requires((texture,)),
        ensures
            final(self).wf(),
            final(self)@.capacity == old(self)@.capacity,
            final(self)@.codec == old(self)@.codec,
            exists|steps: Seq<(Move, CacheView)>| is_pass(old(self)@, steps, final(self)@, r),
            final(self)@.descends_from(old(self)@),
            r is Ok ==> final(self)@.balanced(),
            r is Ok ==> final(self)@.lens() == old(self)@.settled(),
            r matches Err(e) ==> e is FailedCompress || e is FailedDecompress || e is InvalidArgument,
            old(self)@.balanced() ==> r is Ok && final(self)@ == old(self)@,
    {
        let ghost mut steps: Seq<(Move, CacheView)> = Seq::empty();
        loop
            invariant
                self.wf(),
                self@.capacity == old(self)@.capacity,
                self@.codec == old(self)@.codec,
                self@.descends_from(old(self)@),
                old(self)@.balanced() ==> self@ == old(self)@,
                self@.settled() == old(self)@.settled(),
                self@ == state_after(old(self)@, steps, steps.len() as int),
                forall|i: int|
                    0 <= i < steps.len() ==> is_due(
                        state_after(old(self)@, steps, i),
                        Some((#[trigger] steps[i]).0),
                    ) && stepped(
                        state_after(old(self)@, steps, i),
                        steps[i].1,
                        Some(steps[i].0),
                        Ok(()),
                    ) && steps[i].1.wf() && steps[i].1.capacity == old(self)@.capacity
                        && steps[i].1.codec == old(self)@.codec,
                forall|image: &RawImage| upload.requires((image,)),
                forall|texture: TextureHandle| readback.requires((texture,)),
            decreases self@.moves_left(),
        {
            let ghost before = self@;
            let ghost made = steps;
            let (step, outcome) = self.rebalance_step(upload, readback);
            proof {
                lemma_step(before, self@, step, outcome);
                if step is Some {
                    steps = made.push((step->Some_0, self@));
                    assert forall|i: int| 0 <= i < steps.len() implies state_after(
                        old(self)@,
                        steps,
                        i,
                    ) == state_after(old(self)@, made, i) && (i < made.len() ==> #[trigger] steps[i]
                        == made[i]) by {}
                }
            }
            match outcome {
                Ok(()) => {
                    if step.is_none() {
                        proof {
                            assert(is_pass(old(self)@, steps, self@, Ok(())));
                        }
                        return Ok(());
                    }
                },
                Err(e) => {
                    proof {
                        assert(is_pass(old(self)@, steps, self@, Err(e)));
                    }
                    return Err(e);
                },
            }
        }
    }
}

/// A snapshot of a tier is empty exactly if the tier is.
pub proof fn lemma_snapshot_len(snapshot: Seq<Candidate>, entries: Map<u64, Slot>)
    requires
        snapshot_of(snapshot, entries),
        entries.dom().finite(),
    ensures
        snapshot.len() == 0 <==> entries.dom().len() == 0,
{
    if snapshot.len() == 0 {
        assert(entries.dom() =~= Set::empty());
    } else {
        assert(entries.contains_key(snapshot[0].entity));
    }
}

/// A step of a rebalance pass keeps to the entities that are there and to
/// their tokens. No move is due exactly where the cache is balanced. A move
/// is made on an entity that is there, so it fails only as a codec does, and
/// then changes nothing. A move that succeeds brings the pass nearer its
/// end: it puts no tier over its ceiling, it lowers the bound on the moves
/// yet to make, and it leaves the numbers that the tiers settle at as they
/// were.
pub proof fn lemma_step(
    before: CacheView,
    after: CacheView,
    step: Option<Move>,
    r: Result<(), LunarisError>,
)
    requires
        before.wf(),
        after.wf(),
        after.capacity == before.capacity,
        is_due(before, step),
        stepped(before, after, step, r),
    ensures
        after.descends_from(before),
        step is None <==> before.balanced(),
        step is Some ==> !is_not_found(r),
        r matches Err(e) ==> e is FailedCompress || e is FailedDecompress || e is InvalidArgument,
        step is Some && r is Ok ==> (after.over_capacity() ==> before.over_capacity())
            && after.moves_left() < before.moves_left() && after.settled() == before.settled(),
        r is Err ==> after == before,
        before.balanced() ==> before.settled() == before.lens(),
{
    let (low, med, high) = choose|low: Seq<Candidate>, med: Seq<Candidate>, high: Seq<Candidate>|
        snapshot_of(low, before.low) && snapshot_of(med, before.med) && snapshot_of(
            high,
            before.high,
        ) && #[trigger] is_next_move(before.lens(), before.capacity, low, med, high, step);
    lemma_snapshot_len(low, before.low);
    lemma_snapshot_len(med, before.med);
    lemma_snapshot_len(high, before.high);
}

} // verus!
