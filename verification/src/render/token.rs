//! Recency and frequency of accesses, the score that a rebalance pass ranks
//! cache entries by, and the choice of the entry to move.

use vstd::prelude::*;
use tokio::time::Instant;

verus! {

/// `tokio::time::Instant`, a reading of the monotonic clock.
#[verifier::external_type_specification]
#[verifier::external_body]
pub struct ExInstant(Instant);

/// `tokio::time::Instant::now`: the current reading of the clock.
#[verifier::external_body]
pub(crate) fn instant_now() -> (now: Instant) {
    Instant::now()
}

/// `tokio::time::Instant::elapsed`, in whole milliseconds: the time since
/// `since` on the clock, which is another at each call.
#[verifier::external_body]
fn elapsed_millis(since: &Instant) -> (millis: u128) {
    since.elapsed().as_millis()
}

/// The cost of keeping an entry cold: the milliseconds since its last touch,
/// held at `u32::MAX`, over the number of its touches, which counts as one
/// while there was none. Lower is hotter.
pub open spec fn spec_score(elapsed_millis: u128, touch_frequency: u32) -> u32 {
    ((if elapsed_millis > u32::MAX {
        u32::MAX as int
    } else {
        elapsed_millis as int
    }) / (if touch_frequency == 0 {
        1int
    } else {
        touch_frequency as int
    })) as u32
}

/// `score` is the score of a token of the given touch frequency at some
/// moment.
pub open spec fn is_score(score: u32, touch_frequency: u32) -> bool {
    exists|elapsed: u128| score == spec_score(elapsed, touch_frequency)
}

/// Computes `spec_score`.
pub fn score_for(elapsed_millis: u128, touch_frequency: u32) -> (score: u32)
    ensures
        score == spec_score(elapsed_millis, touch_frequency),
{
    let since: u32 = if elapsed_millis > u32::MAX as u128 {
        u32::MAX
    } else {
        elapsed_millis as u32
    };
    let frequency: u32 = if touch_frequency == 0 {
        1
    } else {
        touch_frequency
    };
    since / frequency
}

/// Recency and frequency of the accesses to one cache entry.
#[derive(Debug, Clone, Copy)]
pub struct AccessToken {
    last_touched: Instant,
    touch_frequency: u32,
}

impl AccessToken {
    pub closed spec fn spec_touch_frequency(&self) -> u32 {
        self.touch_frequency
    }

    /// A token for an entry that enters the cache now and was never touched.
    pub fn new() -> (token: Self)
        ensures
            token.spec_touch_frequency() == 0,
    {
        AccessToken { last_touched: instant_now(), touch_frequency: 0 }
    }

    /// Number of touches so far; it stays at `u32::MAX` once it is there.
    #[verifier::when_used_as_spec(spec_touch_frequency)]
    pub fn touch_frequency(&self) -> (n: u32)
        ensures
            n == self.spec_touch_frequency(),
    {
        self.touch_frequency
    }

    /// The clock reading of the last touch, or of the token's making while
    /// there was none.
    pub closed spec fn spec_last_touched(&self) -> Instant {
        self.last_touched
    }

    /// Records a touch at the clock reading `now`: the entry was last touched
    /// then, and once more often; the count stays at `u32::MAX` once it is
    /// there.
    pub fn touch_at(&mut self, now: Instant)
        ensures
            final(self).spec_last_touched() == now,
            final(self).spec_touch_frequency() == (if old(self).spec_touch_frequency() == u32::MAX {
                u32::MAX
            } else {
                (old(self).spec_touch_frequency() + 1) as u32
            }),
    {
        self.last_touched = now;
        self.touch_frequency = self.touch_frequency.saturating_add(1);
    }

    /// Records a touch: the entry was last touched now, and once more often.
    /// It is `touch_at` with the reading that the clock gives.
    pub fn increment(&mut self)
        ensures
            final(self).spec_touch_frequency() == (if old(self).spec_touch_frequency() == u32::MAX {
                u32::MAX
            } else {
                (old(self).spec_touch_frequency() + 1) as u32
            }),
    {
        let now = instant_now();
        self.touch_at(now);
    }

    /// The score of the entry at this moment: `spec_score` of the time since
    /// its last touch and of its touch frequency.
    pub fn score(&self) -> (score: u32)
        ensures
            is_score(score, self.spec_touch_frequency()),
    {
        let elapsed: u128 = elapsed_millis(&self.last_touched);
        let score = score_for(elapsed, self.touch_frequency);
        assert(score == spec_score(elapsed, self.spec_touch_frequency()));
        score
    }
}

/// An entry as a rebalance pass sees it: its entity, and its token's score
/// and touch frequency when the snapshot was taken.
#[derive(Debug, Clone, Copy, PartialEq, Eq, Structural)]
pub struct Candidate {
    pub entity: u64,
    pub score: u32,
    pub frequency: u32,
}

/// `a` is colder than `b`: its score is higher, or the scores are equal and
/// it was touched less often.
pub open spec fn colder(a: Candidate, b: Candidate) -> bool {
    a.score > b.score || (a.score == b.score && a.frequency < b.frequency)
}

/// Entry `i` is the one to demote: none is colder, and of those as cold as it
/// is, it comes last.
pub open spec fn is_coldest(snapshot: Seq<Candidate>, i: int) -> bool {
    &&& 0 <= i < snapshot.len()
    &&& forall|j: int| 0 <= j < snapshot.len() ==> !colder(#[trigger] snapshot[j], snapshot[i])
    &&& forall|j: int| i < j < snapshot.len() ==> colder(snapshot[i], #[trigger] snapshot[j])
}

/// Entry `i` is the one to promote: it is colder than none, and of those as
/// hot as it is, it comes first.
pub open spec fn is_hottest(snapshot: Seq<Candidate>, i: int) -> bool {
    &&& 0 <= i < snapshot.len()
    &&& forall|j: int| 0 <= j < snapshot.len() ==> !colder(snapshot[i], #[trigger] snapshot[j])
    &&& forall|j: int| 0 <= j < i ==> colder(#[trigger] snapshot[j], snapshot[i])
}

fn is_colder(a: &Candidate, b: &Candidate) -> (r: bool)
    ensures
        r == colder(*a, *b),
{
    a.score > b.score || (a.score == b.score && a.frequency < b.frequency)
}

/// Index of the coldest entry of a snapshot; `None` for an empty one.
pub fn coldest(snapshot: &Vec<Candidate>) -> (r: Option<usize>)
    ensures
        r is None <==> snapshot@.len() == 0,
        r matches Some(i) ==> is_coldest(snapshot@, i as int),
{
    if snapshot.len() == 0 {
        return None;
    }
    let mut best: usize = 0;
    let mut k: usize = 1;
    while k < snapshot.len()
        invariant
            0 <= best < k <= snapshot@.len(),
            forall|j: int| 0 <= j < k ==> !colder(#[trigger] snapshot@[j], snapshot@[best as int]),
            forall|j: int| best < j < k ==> colder(snapshot@[best as int], #[trigger] snapshot@[j]),
        decreases snapshot@.len() - k,
    {
        if !is_colder(&snapshot[best], &snapshot[k]) {
            best = k;
        }
        k += 1;
    }
    Some(best)
}

/// Index of the hottest entry of a snapshot; `None` for an empty one.
pub fn hottest(snapshot: &Vec<Candidate>) -> (r: Option<usize>)
    ensures
        r is None <==> snapshot@.len() == 0,
        r matches Some(i) ==> is_hottest(snapshot@, i as int),
{
    if snapshot.len() == 0 {
        return None;
    }
    let mut best: usize = 0;
    let mut k: usize = 1;
    while k < snapshot.len()
        invariant
            0 <= best < k <= snapshot@.len(),
            forall|j: int| 0 <= j < k ==> !colder(snapshot@[best as int], #[trigger] snapshot@[j]),
            forall|j: int| 0 <= j < best ==> colder(#[trigger] snapshot@[j], snapshot@[best as int]),
        decreases snapshot@.len() - k,
    {
        if is_colder(&snapshot[best], &snapshot[k]) {
            best = k;
        }
        k += 1;
    }
    Some(best)
}

/// At most one entry of a snapshot is its coldest, and at most one its
/// hottest: the choice of a rebalance pass is determined by the snapshot.
pub proof fn lemma_choice_unique(snapshot: Seq<Candidate>, i: int, j: int)
    ensures
        is_coldest(snapshot, i) && is_coldest(snapshot, j) ==> i == j,
        is_hottest(snapshot, i) && is_hottest(snapshot, j) ==> i == j,
{
    if is_coldest(snapshot, i) && is_coldest(snapshot, j) && i != j {
        if i < j {
            assert(colder(snapshot[i], snapshot[j]));
            assert(!colder(snapshot[i], snapshot[j]));
        } else {
            assert(colder(snapshot[j], snapshot[i]));
            assert(!colder(snapshot[j], snapshot[i]));
        }
    }
    if is_hottest(snapshot, i) && is_hottest(snapshot, j) && i != j {
        if i < j {
            assert(colder(snapshot[i], snapshot[j]));
            assert(!colder(snapshot[i], snapshot[j]));
        } else {
            assert(colder(snapshot[j], snapshot[i]));
            assert(!colder(snapshot[j], snapshot[i]));
        }
    }
}

/// Scores a snapshot of tokens at this moment, entry by entry.
pub fn rank(tokens: &Vec<(u64, AccessToken)>) -> (snapshot: Vec<Candidate>)
    ensures
        snapshot@.len() == tokens@.len(),
        forall|i: int|
            0 <= i < tokens@.len() ==> (#[trigger] snapshot@[i]).entity == tokens@[i].0
                && snapshot@[i].frequency == tokens@[i].1.spec_touch_frequency() && is_score(
                snapshot@[i].score,
                snapshot@[i].frequency,
            ),
{
    let mut snapshot: Vec<Candidate> = Vec::with_capacity(tokens.len());
    let mut k: usize = 0;
    while k < tokens.len()
        invariant
            k <= tokens@.len(),
            snapshot@.len() == k,
            forall|i: int|
                0 <= i < k ==> (#[trigger] snapshot@[i]).entity == tokens@[i].0
                    && snapshot@[i].frequency == tokens@[i].1.spec_touch_frequency() && is_score(
                    snapshot@[i].score,
                    snapshot@[i].frequency,
                ),
        decreases tokens@.len() - k,
    {
        let entity: u64 = tokens[k].0;
        let token: AccessToken = tokens[k].1;
        let score: u32 = token.score();
        snapshot.push(Candidate { entity, score, frequency: token.touch_frequency() });
        k += 1;
    }
    snapshot
}

} // verus!
