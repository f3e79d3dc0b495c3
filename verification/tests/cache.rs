use lunaris_api::render::cache::{next_move, Frame, Move, Tier, TieredCache};
use lunaris_api::render::gpu::{TextureHandle, TextureUsages};
use lunaris_api::render::image::{CompressionStrategy, PixelFormat, RawImage};
use lunaris_api::render::token::{coldest, hottest, rank, score_for, AccessToken, Candidate};
use lunaris_api::util::error::LunarisError;
use std::cell::RefCell;
use std::collections::HashMap;
use std::time::Duration;
use tokio::time::Instant;

/// Stands for the device: keeps what was uploaded under the handle's key.
struct FakeDevice {
    textures: RefCell<HashMap<u64, RawImage>>,
    next: RefCell<u64>,
}

impl FakeDevice {
    fn new() -> Self {
        FakeDevice { textures: RefCell::new(HashMap::new()), next: RefCell::new(0) }
    }

    fn upload(&self, image: &RawImage) -> TextureHandle {
        let id = *self.next.borrow();
        *self.next.borrow_mut() = id + 1;
        self.textures.borrow_mut().insert(id, image.clone());
        TextureHandle { id, descriptor: image.texture_descriptor(TextureUsages::copy_src()) }
    }

    fn readback(&self, texture: TextureHandle) -> RawImage {
        self.textures.borrow_mut().remove(&texture.id).unwrap()
    }

    fn resident(&self) -> usize {
        self.textures.borrow().len()
    }
}

fn rgba(seed: u8) -> RawImage {
    let bytes = (0..16u8).map(|i| i.wrapping_mul(seed)).collect();
    RawImage::from_bytes(PixelFormat::Rgba8Unorm, 2, 2, bytes).unwrap()
}

fn lens(cache: &TieredCache) -> (usize, usize, usize) {
    (cache.len(Tier::Low), cache.len(Tier::Med), cache.len(Tier::High))
}

fn candidate(entity: u64, score: u32, frequency: u32) -> Candidate {
    Candidate { entity, score, frequency }
}

#[test]
fn score_is_elapsed_over_frequency() {
    assert_eq!(score_for(1000, 4), 250);
    assert_eq!(score_for(1001, 4), 250);
    assert_eq!(score_for(7, 8), 0);
    assert_eq!(score_for(0, 3), 0);
}

#[test]
fn score_counts_no_touch_as_one() {
    assert_eq!(score_for(1000, 0), 1000);
    assert_eq!(score_for(1000, 1), 1000);
}

#[test]
fn score_holds_the_time_at_the_32_bit_maximum() {
    assert_eq!(score_for(u32::MAX as u128, 1), u32::MAX);
    assert_eq!(score_for((1u128 << 32) + 10, 2), u32::MAX / 2);
    assert_eq!(score_for(1u128 << 32, 1), u32::MAX);
    assert_eq!(score_for(u128::MAX, 0), u32::MAX);
    assert_eq!(score_for(u32::MAX as u128 - 1, 1), u32::MAX - 1);
}

#[test]
fn an_entry_does_not_look_hot_again_with_age() {
    // Fifty days against forty: the older one is colder.
    let day: u128 = 24 * 60 * 60 * 1000;
    assert!(score_for(50 * day, 1) >= score_for(40 * day, 1));
    assert!(score_for(50 * day, 3) >= score_for(40 * day, 3));
}

#[test]
fn touch_at_stores_the_reading_and_counts() {
    let mut token = AccessToken::new();
    let five_seconds_ago = Instant::now().checked_sub(Duration::from_secs(5)).unwrap();
    token.touch_at(five_seconds_ago);
    assert_eq!(token.touch_frequency(), 1);
    let score = token.score();
    assert!(score >= 5000);
    assert!(score < 65_000);
    token.touch_at(five_seconds_ago);
    assert_eq!(token.touch_frequency(), 2);
    let score = token.score();
    assert!(score >= 2500);
    assert!(score < 32_500);
    // A touch now makes the entry hot again.
    token.increment();
    assert_eq!(token.touch_frequency(), 3);
    assert!(token.score() < 2000);
}

#[test]
fn token_starts_without_touches() {
    let token = AccessToken::new();
    assert_eq!(token.touch_frequency(), 0);
    // Just made: well under a minute old.
    assert!(token.score() < 60_000);
}

#[test]
fn increment_counts_touches() {
    let mut token = AccessToken::new();
    token.increment();
    token.increment();
    token.increment();
    assert_eq!(token.touch_frequency(), 3);
    assert!(token.score() < 20_000);
}

#[test]
fn rank_keeps_entities_and_frequencies() {
    let mut touched = AccessToken::new();
    touched.increment();
    let tokens = vec![(7u64, AccessToken::new()), (9u64, touched)];
    let snapshot = rank(&tokens);
    assert_eq!(snapshot.len(), 2);
    assert_eq!((snapshot[0].entity, snapshot[0].frequency), (7, 0));
    assert_eq!((snapshot[1].entity, snapshot[1].frequency), (9, 1));
    assert!(snapshot[0].score < 60_000);
}

#[test]
fn coldest_has_the_highest_score() {
    let s = vec![candidate(1, 10, 0), candidate(2, 30, 0), candidate(3, 20, 0)];
    assert_eq!(coldest(&s), Some(1));
    assert_eq!(hottest(&s), Some(0));
}

#[test]
fn equal_scores_are_decided_by_frequency() {
    // The entry that was touched more often stays hot.
    let s = vec![candidate(1, 10, 2), candidate(2, 10, 5), candidate(3, 10, 1)];
    assert_eq!(coldest(&s), Some(2));
    assert_eq!(hottest(&s), Some(1));
}

#[test]
fn full_ties_go_by_position() {
    let s = vec![candidate(1, 10, 2), candidate(2, 10, 2), candidate(3, 10, 2)];
    assert_eq!(coldest(&s), Some(2));
    assert_eq!(hottest(&s), Some(0));
}

#[test]
fn empty_snapshot_has_no_choice() {
    let s: Vec<Candidate> = Vec::new();
    assert_eq!(coldest(&s), None);
    assert_eq!(hottest(&s), None);
    assert_eq!(coldest(&vec![candidate(4, 0, 0)]), Some(0));
    assert_eq!(hottest(&vec![candidate(4, 0, 0)]), Some(0));
}

#[test]
fn next_move_drains_the_high_tier_first() {
    let low = vec![candidate(1, 50, 0), candidate(2, 60, 0)];
    let med = vec![candidate(3, 70, 0), candidate(4, 80, 0)];
    let high = vec![candidate(5, 5, 0), candidate(6, 9, 0)];
    assert_eq!(next_move((2, 2, 2), (1, 1, 1), &low, &med, &high), Some(Move::Demote(6)));
}

#[test]
fn next_move_drains_the_medium_tier_next() {
    let low = vec![candidate(1, 50, 0), candidate(2, 60, 0)];
    let med = vec![candidate(3, 70, 0), candidate(4, 80, 0)];
    let high = vec![candidate(5, 5, 0)];
    assert_eq!(next_move((2, 2, 1), (1, 1, 1), &low, &med, &high), Some(Move::Demote(4)));
}

#[test]
fn next_move_drains_the_low_tier_last() {
    let low = vec![candidate(1, 50, 0), candidate(2, 60, 0)];
    let med = vec![candidate(3, 70, 0)];
    let high: Vec<Candidate> = Vec::new();
    // The high tier has room, but the low tier is over its ceiling: its
    // coldest entry leaves the cache.
    assert_eq!(next_move((2, 1, 0), (1, 1, 1), &low, &med, &high), Some(Move::Evict(2)));
}

#[test]
fn next_move_fills_the_high_tier_from_the_medium() {
    let low = vec![candidate(1, 1, 0)];
    let med = vec![candidate(3, 70, 0), candidate(4, 8, 0)];
    let high: Vec<Candidate> = Vec::new();
    assert_eq!(next_move((1, 2, 0), (2, 2, 2), &low, &med, &high), Some(Move::Promote(4)));
}

#[test]
fn next_move_fills_the_medium_tier_from_the_low() {
    let low = vec![candidate(1, 9, 0), candidate(2, 3, 0)];
    let med: Vec<Candidate> = Vec::new();
    let high = vec![candidate(5, 5, 0)];
    assert_eq!(next_move((2, 0, 1), (2, 1, 1), &low, &med, &high), Some(Move::Promote(2)));
}

#[test]
fn next_move_leaves_the_low_tier_while_the_high_tier_has_room() {
    let low = vec![candidate(1, 9, 0)];
    let med: Vec<Candidate> = Vec::new();
    let high: Vec<Candidate> = Vec::new();
    assert_eq!(next_move((1, 0, 0), (2, 2, 2), &low, &med, &high), None);
}

#[test]
fn next_move_is_none_when_balanced() {
    let low = vec![candidate(1, 9, 0)];
    let med = vec![candidate(2, 9, 0)];
    let high = vec![candidate(3, 9, 0)];
    assert_eq!(next_move((1, 1, 1), (1, 1, 1), &low, &med, &high), None);
    let none: Vec<Candidate> = Vec::new();
    assert_eq!(next_move((0, 0, 0), (1, 1, 1), &none, &none, &none), None);
}

#[test]
fn new_cache_is_empty() {
    let cache = TieredCache::with_capacity(4, 3, 2);
    assert_eq!(cache.capacity(), (4, 3, 2));
    assert_eq!(cache.codec(), CompressionStrategy::Qoi);
    assert_eq!(lens(&cache), (0, 0, 0));
    assert_eq!(cache.tier_of(1), None);
    assert!(cache.get(1).is_none());
    assert!(!cache.has_inverted_capacities());
}

#[test]
fn inverted_capacities_are_told() {
    assert!(TieredCache::with_capacity(1, 2, 2).has_inverted_capacities());
    assert!(TieredCache::with_capacity(3, 2, 3).has_inverted_capacities());
    assert!(!TieredCache::with_capacity(2, 2, 2).has_inverted_capacities());
}

#[test]
fn with_codec_sets_the_codec() {
    let cache = TieredCache::with_capacity(1, 1, 1).with_codec(CompressionStrategy::Lz4);
    assert_eq!(cache.codec(), CompressionStrategy::Lz4);
    assert_eq!(cache.capacity(), (1, 1, 1));
}

#[test]
fn insert_places_a_frame_in_the_medium_tier() {
    let mut cache = TieredCache::with_capacity(2, 2, 2);
    assert!(cache.insert(5, rgba(1)).is_none());
    assert_eq!(cache.tier_of(5), Some(Tier::Med));
    assert_eq!(lens(&cache), (0, 1, 0));
    match cache.get(5) {
        Some(Frame::Raw(image)) => assert_eq!(image.as_bytes(), rgba(1).as_bytes()),
        other => panic!("unexpected frame: {:?}", other),
    }
    assert!(cache.get(6).is_none());
}

#[test]
fn insert_replaces_a_frame_wherever_it_is() {
    let device = FakeDevice::new();
    let mut cache = TieredCache::with_capacity(2, 2, 2);
    cache.insert(5, rgba(1));
    cache.demote(5, &|t| device.readback(t)).unwrap();
    assert_eq!(cache.tier_of(5), Some(Tier::Low));
    let displaced = cache.insert(5, rgba(3));
    assert!(matches!(displaced, Some(Frame::Compressed(_))));
    assert_eq!(cache.tier_of(5), Some(Tier::Med));
    assert_eq!(lens(&cache), (0, 1, 0));
    match cache.get(5) {
        Some(Frame::Raw(image)) => assert_eq!(image.as_bytes(), rgba(3).as_bytes()),
        other => panic!("unexpected frame: {:?}", other),
    }
}

#[test]
fn touch_needs_an_entry() {
    let mut cache = TieredCache::with_capacity(2, 2, 2);
    assert!(matches!(cache.touch(1), Err(LunarisError::NotFound { .. })));
    cache.insert(1, rgba(1));
    assert!(cache.touch(1).is_ok());
    assert_eq!(cache.tier_of(1), Some(Tier::Med));
    assert_eq!(lens(&cache), (0, 1, 0));
}

#[test]
fn promote_and_demote_need_an_entry() {
    let device = FakeDevice::new();
    let mut cache = TieredCache::with_capacity(2, 2, 2);
    cache.insert(1, rgba(1));
    assert!(matches!(
        cache.promote(2, &|i| device.upload(i)),
        Err(LunarisError::NotFound { .. })
    ));
    assert!(matches!(
        cache.demote(2, &|t| device.readback(t)),
        Err(LunarisError::NotFound { .. })
    ));
    assert_eq!(lens(&cache), (0, 1, 0));
    assert_eq!(cache.tier_of(1), Some(Tier::Med));
}

#[test]
fn promote_has_nowhere_to_go_from_the_high_tier() {
    let device = FakeDevice::new();
    let mut cache = TieredCache::with_capacity(2, 2, 2);
    cache.insert(1, rgba(1));
    cache.promote(1, &|i| device.upload(i)).unwrap();
    assert_eq!(cache.tier_of(1), Some(Tier::High));
    assert!(cache.promote(1, &|i| device.upload(i)).is_ok());
    assert_eq!(cache.tier_of(1), Some(Tier::High));
    assert_eq!(lens(&cache), (0, 0, 1));
    assert_eq!(device.resident(), 1);
}

#[test]
fn an_entry_moves_through_all_tiers_and_back() {
    let device = FakeDevice::new();
    let mut cache = TieredCache::with_capacity(2, 2, 2);
    let image = rgba(7);
    cache.insert(1, image.clone());

    cache.promote(1, &|i| device.upload(i)).unwrap();
    assert_eq!(cache.tier_of(1), Some(Tier::High));
    assert_eq!(lens(&cache), (0, 0, 1));
    assert_eq!(device.resident(), 1);
    match cache.get(1) {
        Some(Frame::Resident(texture)) => {
            assert_eq!(texture.descriptor, image.texture_descriptor(TextureUsages::copy_src()))
        }
        other => panic!("unexpected frame: {:?}", other),
    }

    cache.demote(1, &|t| device.readback(t)).unwrap();
    assert_eq!(cache.tier_of(1), Some(Tier::Med));
    assert_eq!(device.resident(), 0);

    cache.demote(1, &|t| device.readback(t)).unwrap();
    assert_eq!(cache.tier_of(1), Some(Tier::Low));
    assert_eq!(lens(&cache), (1, 0, 0));
    match cache.get(1) {
        Some(Frame::Compressed(compressed)) => {
            assert_eq!(compressed.codec(), CompressionStrategy::Qoi);
            assert_eq!(&compressed.payload()[..4], b"qoif");
        }
        other => panic!("unexpected frame: {:?}", other),
    }

    cache.promote(1, &|i| device.upload(i)).unwrap();
    assert_eq!(cache.tier_of(1), Some(Tier::Med));
    match cache.get(1) {
        Some(Frame::Raw(back)) => {
            assert_eq!(back.as_bytes(), image.as_bytes());
            assert_eq!(back.size(), image.size());
        }
        other => panic!("unexpected frame: {:?}", other),
    }
}

#[test]
fn demote_has_nowhere_to_go_from_the_low_tier() {
    let device = FakeDevice::new();
    let mut cache = TieredCache::with_capacity(2, 2, 2);
    cache.insert(1, rgba(1));
    cache.demote(1, &|t| device.readback(t)).unwrap();
    assert_eq!(cache.tier_of(1), Some(Tier::Low));
    assert!(cache.demote(1, &|t| device.readback(t)).is_ok());
    assert_eq!(cache.tier_of(1), Some(Tier::Low));
    assert_eq!(lens(&cache), (1, 0, 0));
    // The frame is still the one that went down.
    cache.promote(1, &|i| device.upload(i)).unwrap();
    match cache.get(1) {
        Some(Frame::Raw(image)) => assert_eq!(image.as_bytes(), rgba(1).as_bytes()),
        other => panic!("unexpected frame: {:?}", other),
    }
}

#[test]
fn evict_takes_an_entry_out_of_any_tier() {
    let device = FakeDevice::new();
    let mut cache = TieredCache::with_capacity(2, 2, 2);
    for entity in [1u64, 2, 3] {
        cache.insert(entity, rgba(entity as u8));
    }
    cache.demote(1, &|t| device.readback(t)).unwrap();
    cache.promote(3, &|i| device.upload(i)).unwrap();
    assert_eq!(lens(&cache), (1, 1, 1));
    assert!(matches!(cache.evict(1), Some(Frame::Compressed(_))));
    assert_eq!(lens(&cache), (0, 1, 1));
    match cache.evict(2) {
        Some(Frame::Raw(image)) => assert_eq!(image.as_bytes(), rgba(2).as_bytes()),
        other => panic!("unexpected frame: {:?}", other),
    }
    assert!(matches!(cache.evict(3), Some(Frame::Resident(_))));
    assert_eq!(lens(&cache), (0, 0, 0));
    assert!(cache.evict(3).is_none());
    assert!(cache.evict(9).is_none());
    assert_eq!(cache.tier_of(1), None);
}

#[test]
fn demote_uses_the_configured_codec() {
    let device = FakeDevice::new();
    let mut cache = TieredCache::with_capacity(2, 2, 2).with_codec(CompressionStrategy::Zstd(3));
    cache.insert(1, rgba(1));
    cache.demote(1, &|t| device.readback(t)).unwrap();
    match cache.get(1) {
        Some(Frame::Compressed(compressed)) => {
            assert_eq!(compressed.codec(), CompressionStrategy::Zstd(3))
        }
        other => panic!("unexpected frame: {:?}", other),
    }
}

#[test]
fn a_failed_compression_leaves_the_entry_where_it_was() {
    let device = FakeDevice::new();
    let mut cache = TieredCache::with_capacity(2, 2, 2);
    // QOI has no encoding for one byte per pixel.
    let image = RawImage::from_bytes(PixelFormat::Gray8, 2, 2, vec![1, 2, 3, 4]).unwrap();
    cache.insert(1, image);
    cache.touch(1).unwrap();
    let r = cache.demote(1, &|t| device.readback(t));
    assert!(matches!(r, Err(LunarisError::FailedCompress { .. })));
    assert_eq!(cache.tier_of(1), Some(Tier::Med));
    assert_eq!(lens(&cache), (0, 1, 0));
    match cache.get(1) {
        Some(Frame::Raw(image)) => assert_eq!(image.as_bytes(), &[1, 2, 3, 4]),
        other => panic!("unexpected frame: {:?}", other),
    }
    // The caller may try again by other means: with another codec it goes down.
    let other = cache.evict(1);
    let mut cache = cache.with_codec(CompressionStrategy::Lz4);
    match other {
        Some(Frame::Raw(image)) => {
            cache.insert(1, image);
        }
        other => panic!("unexpected frame: {:?}", other),
    }
    cache.demote(1, &|t| device.readback(t)).unwrap();
    assert_eq!(cache.tier_of(1), Some(Tier::Low));
}

fn assert_in_at_most_one_tier(cache: &TieredCache, entities: &[u64]) {
    let mut counted = 0;
    for entity in entities {
        if cache.tier_of(*entity).is_some() {
            counted += 1;
        }
    }
    let (low, med, high) = lens(cache);
    // Each tier counts its own entries: an entity in two tiers would be
    // counted twice.
    assert_eq!(low + med + high, counted);
}

#[test]
fn an_entity_is_in_at_most_one_tier() {
    let device = FakeDevice::new();
    let mut cache = TieredCache::with_capacity(2, 2, 2);
    let entities = [1u64, 2, 3, 4];
    for entity in entities {
        cache.insert(entity, rgba(entity as u8));
        assert_in_at_most_one_tier(&cache, &entities);
    }
    let moves: [(bool, u64); 14] = [
        (true, 1),
        (true, 1),
        (false, 2),
        (true, 3),
        (false, 2),
        (false, 1),
        (true, 2),
        (false, 4),
        (true, 4),
        (true, 4),
        (false, 3),
        (false, 3),
        (false, 3),
        (true, 9),
    ];
    for (up, entity) in moves {
        let _ = if up {
            cache.promote(entity, &|i| device.upload(i))
        } else {
            cache.demote(entity, &|t| device.readback(t))
        };
        assert_in_at_most_one_tier(&cache, &entities);
    }
}

#[test]
fn update_converges_within_capacity() {
    let device = FakeDevice::new();
    let mut cache = TieredCache::with_capacity(1, 1, 1);
    for entity in [1u64, 2, 3] {
        cache.insert(entity, rgba(entity as u8));
    }
    assert_eq!(lens(&cache), (0, 3, 0));
    cache.update(&|i| device.upload(i), &|t| device.readback(t)).unwrap();
    // Two go down, one of them out; then one goes up from each tier.
    assert_eq!(lens(&cache), (0, 1, 1));
    assert_in_at_most_one_tier(&cache, &[1, 2, 3]);
    // A second pass finds nothing to do.
    let before = lens(&cache);
    let (step, outcome) = cache.rebalance_step(&|i| device.upload(i), &|t| device.readback(t));
    assert_eq!(step, None);
    assert!(outcome.is_ok());
    cache.update(&|i| device.upload(i), &|t| device.readback(t)).unwrap();
    assert_eq!(lens(&cache), before);
}

#[test]
fn update_fills_the_high_tier_first() {
    let device = FakeDevice::new();
    let mut cache = TieredCache::with_capacity(4, 4, 2);
    for entity in [1u64, 2, 3] {
        cache.insert(entity, rgba(entity as u8));
    }
    cache.update(&|i| device.upload(i), &|t| device.readback(t)).unwrap();
    assert_eq!(lens(&cache), (0, 1, 2));
    assert_eq!(device.resident(), 2);
}

#[test]
fn update_evicts_what_no_tier_has_room_for() {
    let device = FakeDevice::new();
    let mut cache = TieredCache::with_capacity(1, 1, 1);
    for entity in 1..=6u64 {
        cache.insert(entity, rgba(entity as u8));
    }
    cache.update(&|i| device.upload(i), &|t| device.readback(t)).unwrap();
    assert_eq!(lens(&cache), (0, 1, 1));
    let kept = (1..=6u64).filter(|e| cache.tier_of(*e).is_some()).count();
    assert_eq!(kept, 2);
}

#[test]
fn update_keeps_the_entry_that_was_touched() {
    let device = FakeDevice::new();
    let mut cache = TieredCache::with_capacity(0, 1, 0);
    cache.insert(1, rgba(1));
    cache.insert(2, rgba(2));
    cache.insert(3, rgba(3));
    for _ in 0..2000 {
        cache.touch(2).unwrap();
    }
    // The entry that was touched last and often has the lowest score, or
    // shares it and wins by its touches.
    cache.update(&|i| device.upload(i), &|t| device.readback(t)).unwrap();
    assert_eq!(lens(&cache), (0, 1, 0));
    assert_eq!(cache.tier_of(2), Some(Tier::Med));
}

#[test]
fn update_stops_at_the_first_error() {
    let device = FakeDevice::new();
    let mut cache = TieredCache::with_capacity(2, 0, 0);
    cache.insert(1, RawImage::zeroed(PixelFormat::Gray8, 1, 1));
    cache.insert(2, RawImage::zeroed(PixelFormat::Gray8, 1, 1));
    let r = cache.update(&|i| device.upload(i), &|t| device.readback(t));
    assert!(matches!(r, Err(LunarisError::FailedCompress { .. })));
    // The entry of the failed step is where it was, and so is the other.
    assert_eq!(lens(&cache), (0, 2, 0));
    assert_eq!(cache.tier_of(1), Some(Tier::Med));
    assert_eq!(cache.tier_of(2), Some(Tier::Med));
}

#[test]
fn rebalance_step_makes_one_move() {
    let device = FakeDevice::new();
    let mut cache = TieredCache::with_capacity(1, 1, 1);
    cache.insert(1, rgba(1));
    let (step, outcome) = cache.rebalance_step(&|i| device.upload(i), &|t| device.readback(t));
    assert_eq!(step, Some(Move::Promote(1)));
    assert!(outcome.is_ok());
    assert_eq!(lens(&cache), (0, 0, 1));
}

#[test]
fn update_settles_at_the_ceilings() {
    let device = FakeDevice::new();
    // Five entries in the medium tier: three go down and two of them out,
    // before one goes up from each tier.
    let mut cache = TieredCache::with_capacity(1, 2, 1);
    for entity in 1..=5u64 {
        cache.insert(entity, rgba(entity as u8));
    }
    cache.update(&|i| device.upload(i), &|t| device.readback(t)).unwrap();
    assert_eq!(lens(&cache), (0, 2, 1));
    // Room everywhere: all that the medium tier holds goes up, and nothing
    // is drawn from the low tier while the high tier has room.
    let mut cache = TieredCache::with_capacity(3, 3, 3);
    cache.insert(1, rgba(1));
    cache.insert(2, rgba(2));
    cache.demote(1, &|t| device.readback(t)).unwrap();
    cache.update(&|i| device.upload(i), &|t| device.readback(t)).unwrap();
    assert_eq!(lens(&cache), (1, 0, 1));
    assert_eq!(cache.tier_of(1), Some(Tier::Low));
    assert_eq!(cache.tier_of(2), Some(Tier::High));
}

#[test]
fn rebalance_step_evicts_from_an_overfull_low_tier() {
    let device = FakeDevice::new();
    let mut cache = TieredCache::with_capacity(0, 0, 0);
    cache.insert(1, rgba(1));
    let (step, outcome) = cache.rebalance_step(&|i| device.upload(i), &|t| device.readback(t));
    assert_eq!(step, Some(Move::Demote(1)));
    assert!(outcome.is_ok());
    let (step, outcome) = cache.rebalance_step(&|i| device.upload(i), &|t| device.readback(t));
    assert_eq!(step, Some(Move::Evict(1)));
    assert!(outcome.is_ok());
    assert_eq!(lens(&cache), (0, 0, 0));
}

#[test]
fn touch_at_records_the_reading_on_the_entry() {
    let device = FakeDevice::new();
    let mut cache = TieredCache::with_capacity(0, 1, 0);
    cache.insert(1, rgba(1));
    cache.insert(2, rgba(2));
    let long_ago = Instant::now().checked_sub(Duration::from_secs(3600)).unwrap();
    assert!(matches!(cache.touch_at(9, long_ago), Err(LunarisError::NotFound { .. })));
    // Entity 1 was last touched an hour ago, entity 2 just now.
    cache.touch_at(1, long_ago).unwrap();
    cache.touch(2).unwrap();
    cache.update(&|i| device.upload(i), &|t| device.readback(t)).unwrap();
    assert_eq!(lens(&cache), (0, 1, 0));
    assert_eq!(cache.tier_of(1), None);
    assert_eq!(cache.tier_of(2), Some(Tier::Med));
}
