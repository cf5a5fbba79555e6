use dino_media::frame::Frame;
use dino_media::frame_cache::{quantize_time, FrameCache};

fn frame_with(byte: u8, timestamp: i64) -> Frame {
    let mut frame = Frame::new(2, 1);
    for p in frame.pixels.iter_mut() {
        *p = byte;
    }
    frame.timestamp = timestamp;
    frame
}

fn same_frame(a: &Frame, b: &Frame) -> bool {
    a.width == b.width && a.height == b.height && a.pixels == b.pixels && a.timestamp == b.timestamp
}

#[test]
fn new_frame_is_black_and_sized() {
    let frame = Frame::new(3, 2);
    assert_eq!(frame.width, 3);
    assert_eq!(frame.height, 2);
    assert_eq!(frame.timestamp, 0);
    assert_eq!(frame.pixels, vec![0u8; 24]);
    let empty = Frame::new(0, 7);
    assert_eq!(empty.pixels.len(), 0);
}

#[test]
fn frame_clone_is_identical() {
    let frame = frame_with(9, 1234);
    let copy = frame.clone();
    assert!(same_frame(&frame, &copy));
}

#[test]
fn exact_lookup_returns_the_stored_frame() {
    let mut cache = FrameCache::new();
    let stored = frame_with(7, 2000);
    cache.add_frame_at("v", 2000, stored.clone(), 1);
    let found = cache.get_frame_at("v", 2000, 2).expect("frame at 2.0 s");
    assert!(same_frame(&found, &stored));
}

#[test]
fn lookup_within_the_same_slot_returns_the_frame() {
    let mut cache = FrameCache::new();
    let stored = frame_with(5, 2030);
    cache.add_frame_at("v", 2030, stored.clone(), 1);
    let found = cache.get_frame_at("v", 2000, 2).expect("frame in the slot of 2.0 s");
    assert!(same_frame(&found, &stored));
    assert!(cache.get_frame_at("v", 3000, 3).is_none());
}

#[test]
fn nearby_fallback_stops_at_half_a_second() {
    let mut cache = FrameCache::new();
    let stored = frame_with(3, 2000);
    cache.add_frame_at("v", 2000, stored.clone(), 1);
    let near = cache.get_frame_at("v", 2400, 2).expect("0.4 s away");
    assert!(same_frame(&near, &stored));
    assert!(cache.get_frame_at("v", 2600, 3).is_none());
    assert!(cache.get_frame_at("v", 2499, 4).is_some());
    assert!(cache.get_frame_at("v", 2500, 5).is_none());
    assert!(cache.get_frame_at("v", 1501, 6).is_some());
    assert!(cache.get_frame_at("v", 1500, 7).is_none());
}

#[test]
fn nearby_fallback_picks_the_nearest() {
    let mut cache = FrameCache::new();
    cache.add_frame_at("v", 1000, frame_with(1, 1000), 1);
    cache.add_frame_at("v", 1400, frame_with(2, 1400), 2);
    let found = cache.find_nearby_frame("v", 1250).expect("two candidates");
    assert_eq!(found.pixels[0], 2);
    let found = cache.find_nearby_frame("v", 1150).expect("two candidates");
    assert_eq!(found.pixels[0], 1);
}

#[test]
fn nearby_fallback_prefers_the_first_of_two_equally_near() {
    let mut cache = FrameCache::new();
    cache.add_frame_at("v", 1000, frame_with(1, 1000), 1);
    cache.add_frame_at("v", 1400, frame_with(2, 1400), 2);
    let found = cache.find_nearby_frame("v", 1200).expect("two candidates");
    assert_eq!(found.pixels[0], 1);
}

#[test]
fn lookups_never_cross_sources() {
    let mut cache = FrameCache::new();
    cache.add_frame_at("v", 2000, frame_with(1, 2000), 1);
    assert!(cache.get_frame_at("w", 2000, 2).is_none());
    assert!(cache.get_frame_at("v2", 2000, 3).is_none());
    assert!(cache.get_frame_at("", 2000, 4).is_none());
    cache.add_frame_at("v2", 2000, frame_with(2, 2000), 5);
    let found = cache.get_frame_at("v", 2100, 6).expect("nearby frame of v");
    assert_eq!(found.pixels[0], 1);
}

#[test]
fn storing_twice_in_one_slot_overwrites() {
    let mut cache = FrameCache::new();
    cache.add_frame_at("v", 2000, frame_with(1, 2000), 1);
    cache.add_frame_at("v", 2040, frame_with(2, 2040), 2);
    assert_eq!(cache.get_cache_stats(), (1, 0));
    let found = cache.get_frame_at("v", 1960, 3).expect("same slot");
    assert_eq!(found.pixels[0], 2);
    assert_eq!(found.timestamp, 2040);
}

#[test]
fn quantize_rounds_to_the_nearest_tenth() {
    assert_eq!(quantize_time(0), 0);
    assert_eq!(quantize_time(49), 0);
    assert_eq!(quantize_time(50), 1);
    assert_eq!(quantize_time(2030), 20);
    assert_eq!(quantize_time(2050), 21);
    assert_eq!(quantize_time(-49), 0);
    assert_eq!(quantize_time(-50), -1);
    assert_eq!(quantize_time(-149), -1);
    assert_eq!(quantize_time(-150), -2);
    assert_eq!(quantize_time(i64::MAX), 92233720368547758);
    assert_eq!(quantize_time(i64::MIN), -92233720368547758);
}

#[test]
fn one_insertion_too_many_evicts_a_fifth_of_the_capacity() {
    let mut cache = FrameCache::new();
    for i in 0..100i64 {
        cache.add_frame_at("v", i * 100, frame_with(i as u8, i * 100), (i + 1) as u64);
        assert_eq!(cache.get_cache_stats().0, (i + 1) as usize);
    }
    cache.add_frame_at("v", 100 * 100, frame_with(100, 10_000), 101);
    assert_eq!(cache.get_cache_stats(), (81, 0));
    // The twenty entries used longest ago are gone: no frame is left within
    // half a second of the first fifteen slots.
    for i in 0..15i64 {
        assert!(cache.get_frame_at("v", i * 100, 200).is_none(), "slot {} was evicted", i);
    }
    for i in 20..=100i64 {
        let found = cache.get_frame_at("v", i * 100, 300).expect("slot survives");
        assert_eq!(found.timestamp, i * 100);
    }
}

#[test]
fn cache_never_exceeds_its_capacity() {
    let mut cache = FrameCache::new();
    for i in 0..1000i64 {
        cache.add_frame_at("v", i * 100, frame_with(0, i * 100), i as u64);
        assert!(cache.get_cache_stats().0 <= 100);
    }
}

#[test]
fn exact_hits_count_as_use_and_fallback_hits_do_not() {
    let mut cache = FrameCache::new();
    // Slots far apart, so that no lookup falls back to a neighbour.
    for i in 0..100i64 {
        cache.add_frame_at("v", i * 1000, frame_with(i as u8, i * 1000), (i + 1) as u64);
    }
    // An exact hit on the oldest entry makes it the newest.
    assert!(cache.get_frame_at("v", 0, 500).is_some());
    // A fallback hit on the second oldest leaves its stamp alone.
    assert!(cache.get_frame_at("v", 1300, 600).is_some());
    cache.add_frame_at("other", 0, frame_with(0, 0), 700);
    assert_eq!(cache.get_cache_stats().0, 81);
    assert!(cache.get_frame_at("v", 0, 800).is_some());
    assert!(cache.get_frame_at("v", 1000, 900).is_none());
    // Slots 1 to 20 were the twenty used longest ago.
    assert!(cache.get_frame_at("v", 20_000, 901).is_none());
    assert!(cache.get_frame_at("v", 21_000, 902).is_some());
}

#[test]
fn entries_with_equal_stamps_leave_in_the_order_in_which_they_stand() {
    let mut cache = FrameCache::new();
    for i in 0..101i64 {
        cache.add_frame_at("v", i * 1000, frame_with(0, i * 1000), 5);
    }
    assert_eq!(cache.get_cache_stats().0, 81);
    assert!(cache.get_frame_at("v", 19_000, 5).is_none());
    assert!(cache.get_frame_at("v", 20_000, 5).is_some());
    assert!(cache.get_frame_at("v", 100_000, 5).is_some());
}

#[test]
fn a_clock_that_runs_backwards_does_not_age_new_entries() {
    let mut cache = FrameCache::new();
    for i in 0..100i64 {
        cache.add_frame_at("v", i * 1000, frame_with(0, i * 1000), 1000 + i as u64);
    }
    // The reading 3 lies before every stamp in the cache.
    cache.add_frame_at("v", 100_000, frame_with(9, 100_000), 3);
    let found = cache.get_frame_at("v", 100_000, 4).expect("the frame just stored");
    assert_eq!(found.pixels[0], 9);
}

#[test]
fn clear_empties_the_cache() {
    let mut cache = FrameCache::new();
    cache.add_frame_at("v", 2000, frame_with(1, 2000), 1);
    cache.add_frame_at("w", 2000, frame_with(1, 2000), 2);
    assert_eq!(cache.get_cache_stats(), (2, 0));
    cache.clear_cache();
    assert_eq!(cache.get_cache_stats(), (0, 0));
    assert!(cache.get_frame_at("v", 2000, 3).is_none());
}

#[test]
fn preload_stores_nothing() {
    let mut cache = FrameCache::new();
    cache.preload_frames("v", 0, 5000, 30_000);
    assert_eq!(cache.get_cache_stats(), (0, 0));
    assert!(cache.get_frame_at("v", 0, 1).is_none());
}

#[test]
fn empty_cache_finds_nothing() {
    let mut cache = FrameCache::new();
    assert!(cache.get_frame_at("v", 0, 1).is_none());
    assert!(cache.find_nearby_frame("v", 0).is_none());
    assert_eq!(cache.get_cache_stats(), (0, 0));
}

#[test]
fn a_small_cache_drops_a_fifth_of_its_capacity() {
    let mut cache = FrameCache::with_capacity(5);
    for i in 0..5i64 {
        cache.add_frame_at("v", i * 1000, frame_with(i as u8, i * 1000), (i + 1) as u64);
    }
    assert_eq!(cache.get_cache_stats(), (5, 0));
    cache.add_frame_at("v", 5000, frame_with(5, 5000), 6);
    assert_eq!(cache.get_cache_stats(), (5, 0));
    assert!(cache.get_frame_at("v", 0, 7).is_none());
    assert!(cache.get_frame_at("v", 1000, 8).is_some());
    assert!(cache.get_frame_at("v", 5000, 9).is_some());

    let mut wide = FrameCache::with_capacity(10);
    for i in 0..11i64 {
        wide.add_frame_at("v", i * 1000, frame_with(0, 0), i as u64);
    }
    assert_eq!(wide.get_cache_stats().0, 9);
    assert!(wide.get_frame_at("v", 1000, 20).is_none());
    assert!(wide.get_frame_at("v", 2000, 21).is_some());
}

#[test]
fn what_is_stored_is_found_whatever_the_cache_holds() {
    let mut cache = FrameCache::with_capacity(5);
    for round in 0..40i64 {
        let time = (round * 7919) % 3000 - 1500;
        let stamp = ((round * 31) % 17) as u64;
        cache.add_frame_at("v", time, frame_with(round as u8, time), stamp);
        let slot = quantize_time(time);
        let found = cache.get_frame_at("v", slot * 100, stamp).expect("the frame just stored");
        assert_eq!(found.pixels[0], round as u8);
        assert!(cache.get_cache_stats().0 <= 5);
    }
}

#[test]
fn the_cache_stamps_with_its_own_clock() {
    let mut cache = FrameCache::new();
    let stored = frame_with(7, 2030);
    cache.add_frame("v", 2030, stored.clone());
    let found = cache.get_frame("v", 2000).expect("frame in the slot of 2.0 s");
    assert!(same_frame(&found, &stored));
    assert!(cache.get_frame("v", 2400).is_some());
    assert!(cache.get_frame("v", 2600).is_none());
    assert!(cache.get_frame("w", 2000).is_none());
    for i in 0..200i64 {
        cache.add_frame("w", i * 1000, frame_with(0, 0));
        assert!(cache.get_frame("w", i * 1000).is_some());
        assert!(cache.get_cache_stats().0 <= 100);
    }
}

#[test]
fn uses_within_one_millisecond_are_told_apart() {
    let mut cache = FrameCache::new();
    for i in 0..100i64 {
        cache.add_frame("v", i * 1000, frame_with(i as u8, i * 1000));
    }
    // An exact hit on the first entry makes it the one used last, though
    // the clock may not have moved on since the cache was made.
    assert!(cache.get_frame("v", 0).is_some());
    cache.add_frame("v", 100_000, frame_with(100, 100_000));
    assert_eq!(cache.get_cache_stats().0, 81);
    assert!(cache.get_frame("v", 0).is_some());
    assert!(cache.get_frame("v", 1000).is_none());
    assert!(cache.get_frame("v", 20_000).is_none());
    assert!(cache.get_frame("v", 21_000).is_some());
    assert!(cache.get_frame("v", 100_000).is_some());
}
