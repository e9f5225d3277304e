use sampler::audio::Audio;
use sampler::zones::HzVelRange;
use sampler::zones::Range;
use sampler::zones::Sample;
use sampler::zones::ZoneMap;
use sampler::MAX_HZ;
use sampler::MAX_VELOCITY;

fn sample(base_hz: u64, frames: Vec<i64>) -> Sample {
    Sample::new(base_hz, MAX_VELOCITY, Audio::new(frames))
}

fn zone(hz_min: u64, hz_max: u64, vel_min: u32, vel_max: u32) -> HzVelRange {
    HzVelRange {
        hz: Range { min: hz_min, max: hz_max },
        vel: Range { min: vel_min, max: vel_max },
    }
}

#[test]
fn lookup_inside_unique_zone_returns_its_sample() {
    let mut map = ZoneMap::empty();
    map.insert(zone(100_000, 200_000, 0, 500), sample(150_000, vec![1]));
    map.insert(zone(200_000, 300_000, 0, 500), sample(250_000, vec![2]));

    let hit = map.sample(150_000, 250).expect("inside the first zone");
    assert_eq!(hit.base_hz, 150_000);
    let hit = map.sample(250_000, 250).expect("inside the second zone");
    assert_eq!(hit.base_hz, 250_000);
}

#[test]
fn lookup_outside_all_zones_returns_none() {
    let mut map = ZoneMap::empty();
    map.insert(zone(100_000, 200_000, 0, 500), sample(150_000, vec![1]));

    assert!(map.sample(99_999, 250).is_none());
    assert!(map.sample(150_000, 501).is_none());
    assert!(map.sample(300_000, 250).is_none());
}

#[test]
fn lookup_on_empty_map_returns_none() {
    let map = ZoneMap::empty();
    assert!(map.sample(150_000, 250).is_none());
}

#[test]
fn frequency_range_is_half_open_and_velocity_range_is_closed() {
    let mut map = ZoneMap::empty();
    map.insert(zone(100_000, 200_000, 100, 500), sample(150_000, vec![1]));

    // Lower frequency bound included, upper excluded.
    assert!(map.sample(100_000, 300).is_some());
    assert!(map.sample(199_999, 300).is_some());
    assert!(map.sample(200_000, 300).is_none());
    // Both velocity bounds included.
    assert!(map.sample(150_000, 100).is_some());
    assert!(map.sample(150_000, 500).is_some());
    assert!(map.sample(150_000, 99).is_none());
    assert!(map.sample(150_000, 501).is_none());
}

#[test]
fn overlapping_zones_first_in_stored_order_wins() {
    let mut map = ZoneMap::empty();
    // Same frequency span; the zone with the smaller velocity lower
    // bound sorts first and wins where they overlap.
    map.insert(zone(100_000, 200_000, 200, 800), sample(111_000, vec![1]));
    map.insert(zone(100_000, 200_000, 0, 1000), sample(222_000, vec![2]));

    assert_eq!(map.pairs[0].sample.base_hz, 222_000);
    let hit = map.sample(150_000, 500).expect("both zones match");
    assert_eq!(hit.base_hz, 222_000);
}

#[test]
fn insert_keeps_zones_ordered_by_range() {
    let mut map = ZoneMap::empty();
    map.insert(zone(300_000, 400_000, 0, 1000), sample(1_000, vec![1]));
    map.insert(zone(100_000, 200_000, 0, 1000), sample(2_000, vec![2]));
    map.insert(zone(200_000, 300_000, 0, 1000), sample(3_000, vec![3]));

    assert_eq!(map.pairs.len(), 3);
    assert_eq!(map.pairs[0].range.hz.min, 100_000);
    assert_eq!(map.pairs[1].range.hz.min, 200_000);
    assert_eq!(map.pairs[2].range.hz.min, 300_000);
}

#[test]
fn range_is_over() {
    let hz_range: Range<u64> = Range { min: 100, max: 200 };
    assert!(hz_range.is_over(100));
    assert!(hz_range.is_over(199));
    assert!(!hz_range.is_over(200));
    assert!(!hz_range.is_over(99));

    let vel_range: Range<u32> = Range { min: 100, max: 200 };
    assert!(vel_range.is_over(100));
    assert!(vel_range.is_over(200));
    assert!(!vel_range.is_over(99));
    assert!(!vel_range.is_over(201));
}

#[test]
fn range_order_is_lexicographic() {
    let a = zone(100, 200, 0, 10);
    let b = zone(100, 200, 5, 10);
    let c = zone(100, 300, 0, 10);
    let d = zone(150, 160, 0, 10);
    assert!(a.lt(&b));
    assert!(a.lt(&c));
    assert!(c.lt(&d));
    assert!(!b.lt(&a));
    assert!(!a.lt(&a));
}

#[test]
fn from_single_sample_spans_everything() {
    let map = ZoneMap::from_single_sample(sample(440_000, vec![7]));
    assert_eq!(map.pairs.len(), 1);
    assert!(map.sample(0, 0).is_some());
    assert!(map.sample(MAX_HZ - 1, MAX_VELOCITY).is_some());
    assert!(map.sample(440_000, 500).is_some());
}

#[test]
fn from_sequential_steps_builds_contiguous_zones() {
    let map = ZoneMap::from_sequential_steps(vec![
        (100_000, MAX_VELOCITY, sample(50_000, vec![1])),
        (200_000, MAX_VELOCITY, sample(150_000, vec![2])),
    ]);
    assert_eq!(map.pairs.len(), 2);
    assert_eq!(map.pairs[0].range.hz.min, 0);
    assert_eq!(map.pairs[0].range.hz.max, 100_000);
    assert_eq!(map.pairs[1].range.hz.min, 100_000);
    assert_eq!(map.pairs[1].range.hz.max, 200_000);

    let hit = map.sample(50_000, MAX_VELOCITY).expect("first zone");
    assert_eq!(hit.base_hz, 50_000);
    let hit = map.sample(150_000, MAX_VELOCITY).expect("second zone");
    assert_eq!(hit.base_hz, 150_000);
    assert!(map.sample(250_000, MAX_VELOCITY).is_none());
    assert!(map.sample(50_000, 500).is_none());
}

#[test]
fn cloned_map_is_equal_and_shares_recordings() {
    let mut map = ZoneMap::empty();
    map.insert(zone(100_000, 200_000, 0, 1000), sample(150_000, vec![4, 5]));
    let copy = map.clone();
    assert_eq!(copy, map);
    let hit = copy.sample(150_000, 0).unwrap();
    assert_eq!(hit.audio.len(), 2);
    assert_eq!(hit.audio.frame_at(1), 5);
}
