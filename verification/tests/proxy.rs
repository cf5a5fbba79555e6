use dino_media::fingerprint::{
    generate_proxy_file_name, generate_proxy_id, generate_proxy_path, join_path,
};
use dino_media::proxy_generator::{
    admit_request, begin_job, next_action, usable_proxy_path, ProxyGenerator, WorkerAction,
    IDLE_MILLIS,
};
use dino_media::proxy_queue::{ProxyQueue, ProxyRequest};
use dino_media::proxy_registry::{ProxyInfo, ProxyRegistry, PROGRESS_DONE, PROGRESS_STARTED};
use dino_media::proxy_settings::{ProxyQuality, ProxySettings};
use dino_media::transcode::{
    build_probe_args, build_scale_filter, build_transcode_args, tool_program,
};
use std::collections::hash_map::DefaultHasher;
use std::hash::{Hash, Hasher};

const HOUR: u64 = 3_600_000;

fn settings(quality: ProxyQuality) -> ProxySettings {
    ProxySettings { resolution: (480, 270), frame_rate: 30_000, quality }
}

fn request(path: &str, priority: i32) -> ProxyRequest {
    ProxyRequest {
        video_path: path.to_string(),
        proxy_settings: settings(ProxyQuality::Preview),
        priority,
    }
}

fn pending(path: &str, now: u64) -> ProxyInfo {
    ProxyInfo {
        proxy_path: format!("/cache/{}.mp4", path),
        original_path: path.to_string(),
        settings: settings(ProxyQuality::Preview),
        generation_progress: 0,
        is_ready: false,
        file_size: 0,
        created_at: now,
    }
}

#[test]
fn default_settings_are_quarter_hd_preview() {
    let s = ProxySettings::default();
    assert_eq!(s.resolution, (480, 270));
    assert_eq!(s.frame_rate, 30_000);
    assert_eq!(s.quality, ProxyQuality::Preview);
    assert_eq!(s.frames_per_second(), 30);
}

#[test]
fn rate_factor_falls_as_quality_rises() {
    assert_eq!(ProxyQuality::Draft.crf(), 28);
    assert_eq!(ProxyQuality::Preview.crf(), 23);
    assert_eq!(ProxyQuality::High.crf(), 18);
    assert!(ProxyQuality::Draft.crf() > ProxyQuality::Preview.crf());
    assert!(ProxyQuality::Preview.crf() > ProxyQuality::High.crf());
}

#[test]
fn whole_frame_rate_is_the_nearest_whole_number() {
    let mut s = settings(ProxyQuality::Draft);
    s.frame_rate = 29_970;
    assert_eq!(s.frames_per_second(), 30);
    s.frame_rate = 29_600;
    assert_eq!(s.frames_per_second(), 30);
    s.frame_rate = 29_500;
    assert_eq!(s.frames_per_second(), 30);
    s.frame_rate = 29_499;
    assert_eq!(s.frames_per_second(), 29);
    s.frame_rate = 999;
    assert_eq!(s.frames_per_second(), 1);
    s.frame_rate = 499;
    assert_eq!(s.frames_per_second(), 0);
    s.frame_rate = 60_000;
    assert_eq!(s.frames_per_second(), 60);
    s.frame_rate = u32::MAX;
    assert_eq!(s.frames_per_second(), 4_294_967);
}

#[test]
fn proxy_id_is_the_default_hash_in_hex() {
    let mut hasher = DefaultHasher::new();
    "clips/a.mp4".hash(&mut hasher);
    (480u32, 270u32).hash(&mut hasher);
    30u32.hash(&mut hasher);
    let expected = format!("{:x}", hasher.finish());
    assert_eq!(generate_proxy_id("clips/a.mp4", &settings(ProxyQuality::Preview)), expected);
    assert_ne!(expected, "clips/a.mp4");
}

#[test]
fn proxy_id_depends_on_path_resolution_and_rounded_rate_only() {
    let base = settings(ProxyQuality::Preview);
    let id = generate_proxy_id("a.mp4", &base);
    assert_eq!(id, generate_proxy_id("a.mp4", &base));
    assert_eq!(id, generate_proxy_id("a.mp4", &settings(ProxyQuality::Draft)));
    assert_eq!(id, generate_proxy_id("a.mp4", &settings(ProxyQuality::High)));
    let mut fraction = base;
    fraction.frame_rate = 30_499;
    assert_eq!(id, generate_proxy_id("a.mp4", &fraction));
    let mut slower = base;
    slower.frame_rate = 29_600;
    assert_eq!(id, generate_proxy_id("a.mp4", &slower));
    assert_eq!(
        generate_proxy_path("/c", "a.mp4", &slower),
        generate_proxy_path("/c", "a.mp4", &base)
    );
    let mut faster = base;
    faster.frame_rate = 30_500;
    assert_ne!(id, generate_proxy_id("a.mp4", &faster));
    let mut larger = base;
    larger.resolution = (960, 540);
    assert_ne!(id, generate_proxy_id("a.mp4", &larger));
    assert_ne!(id, generate_proxy_id("b.mp4", &base));
}

#[test]
fn proxy_file_names_hold_id_and_rate() {
    assert_eq!(generate_proxy_file_name("1f", 30), "proxy_1f_30.mp4");
    assert_eq!(generate_proxy_file_name("", 0), "proxy__0.mp4");
}

#[test]
fn paths_are_joined_with_one_slash() {
    assert_eq!(join_path("/tmp/cache", "f.mp4"), "/tmp/cache/f.mp4");
    assert_eq!(join_path("/tmp/cache/", "f.mp4"), "/tmp/cache/f.mp4");
    assert_eq!(join_path("", "f.mp4"), "f.mp4");
    assert_eq!(join_path("/", "f.mp4"), "/f.mp4");
    assert_eq!(join_path("caf\u{e9}", "f.mp4"), "caf\u{e9}/f.mp4");
}

#[test]
fn proxy_path_lies_under_the_cache_directory() {
    let s = settings(ProxyQuality::Preview);
    let id = generate_proxy_id("a.mp4", &s);
    assert_eq!(
        generate_proxy_path("/tmp/dino_proxy_cache", "a.mp4", &s),
        format!("/tmp/dino_proxy_cache/proxy_{}_30.mp4", id)
    );
}

#[test]
fn transcode_arguments() {
    let mut s = settings(ProxyQuality::Draft);
    s.frame_rate = 29_970;
    let args = build_transcode_args("in.mov", "/cache/out.mp4", &s);
    assert_eq!(
        args,
        vec![
            "-y", "-i", "in.mov", "-vf", "scale=480:270", "-r", "29.97", "-c:v", "libx264", "-crf",
            "28", "-preset", "veryfast", "-an", "-movflags", "faststart", "/cache/out.mp4",
        ]
    );
    let args = build_transcode_args("a", "b", &settings(ProxyQuality::High));
    assert_eq!(args[6], "30");
    assert_eq!(args[10], "18");
    let args = build_transcode_args("a", "b", &settings(ProxyQuality::Preview));
    assert_eq!(args[10], "23");
}

#[test]
fn tool_and_probe() {
    assert_eq!(tool_program(), "ffmpeg");
    assert_eq!(build_probe_args(), vec!["-version"]);
    assert_eq!(build_scale_filter(1920, 1080), "scale=1920:1080");
    assert_eq!(build_scale_filter(0, 0), "scale=0:0");
}

#[test]
fn queue_serves_the_highest_priority_first() {
    let mut queue = ProxyQueue::new();
    queue.enqueue(request("low", 1));
    queue.enqueue(request("high", 9));
    queue.enqueue(request("mid", 5));
    queue.enqueue(request("negative", -3));
    assert_eq!(queue.len(), 4);
    assert_eq!(queue.pop_next().expect("four pending").video_path, "high");
    assert_eq!(queue.pop_next().expect("three pending").video_path, "mid");
    assert_eq!(queue.pop_next().expect("two pending").video_path, "low");
    assert_eq!(queue.pop_next().expect("one pending").video_path, "negative");
    assert!(queue.pop_next().is_none());
    assert_eq!(queue.len(), 0);
}

#[test]
fn queue_serves_equal_priorities_in_the_order_of_arrival() {
    let mut queue = ProxyQueue::new();
    queue.enqueue(request("first", 5));
    queue.enqueue(request("second", 5));
    queue.enqueue(request("urgent", 7));
    queue.enqueue(request("third", 5));
    let order: Vec<String> =
        std::iter::from_fn(|| queue.pop_next()).map(|r| r.video_path).collect();
    assert_eq!(order, vec!["urgent", "first", "second", "third"]);
}

#[test]
fn registry_keeps_one_record_per_id() {
    let mut registry = ProxyRegistry::new();
    assert!(!registry.contains("a"));
    assert!(registry.get("a").is_none());
    assert!(registry.register("a", pending("a", 10)));
    assert!(registry.contains("a"));
    assert!(!registry.register("a", pending("other", 99)));
    assert_eq!(registry.stats().0, 1);
    let info = registry.get("a").expect("registered");
    assert_eq!(info.original_path, "a");
    assert_eq!(info.created_at, 10);
    assert!(registry.register("b", pending("b", 11)));
    assert_eq!(registry.stats().0, 2);
}

#[test]
fn registry_progress_and_finish() {
    let mut registry = ProxyRegistry::new();
    registry.register("a", pending("a", 10));
    registry.register("b", pending("b", 11));
    registry.set_progress("a", 420);
    registry.set_progress("missing", 500);
    assert_eq!(registry.get("a").expect("a").generation_progress, 420);
    assert_eq!(registry.get("b").expect("b").generation_progress, 0);
    assert!(!registry.get("a").expect("a").is_ready);

    registry.finish("a", true, Some(2048));
    let a = registry.get("a").expect("a");
    assert!(a.is_ready);
    assert_eq!(a.generation_progress, PROGRESS_DONE);
    assert_eq!(a.file_size, 2048);
    assert_eq!(a.created_at, 10);
    assert_eq!(a.proxy_path, "/cache/a.mp4");

    registry.set_progress("b", 700);
    registry.finish("b", false, Some(2048));
    let b = registry.get("b").expect("b");
    assert!(!b.is_ready);
    assert_eq!(b.generation_progress, 0);
    assert_eq!(b.file_size, 0);

    registry.finish("missing", true, Some(1));
    assert_eq!(registry.stats(), (2, 1, 2048));
}

#[test]
fn a_job_without_output_fails() {
    for (exited_ok, size) in [(true, None), (true, Some(0)), (false, None), (false, Some(7))] {
        let mut registry = ProxyRegistry::new();
        registry.register("a", pending("a", 10));
        registry.set_progress("a", 990);
        registry.finish("a", exited_ok, size);
        let a = registry.get("a").expect("a");
        assert!(!a.is_ready);
        assert_eq!(a.generation_progress, 0);
        assert_eq!(a.file_size, 0);
    }
}

#[test]
fn registry_stats_hold_the_total_at_the_largest_value() {
    let mut registry = ProxyRegistry::new();
    assert_eq!(registry.stats(), (0, 0, 0));
    registry.register("a", pending("a", 1));
    registry.register("b", pending("b", 2));
    registry.register("c", pending("c", 3));
    registry.finish("a", true, Some(u64::MAX - 5));
    registry.finish("b", true, Some(10));
    assert_eq!(registry.stats(), (3, 2, u64::MAX));
}

#[test]
fn sweep_removes_records_older_than_the_age() {
    let t: u64 = 10 * HOUR;
    let now = t + 2 * HOUR;
    let mut registry = ProxyRegistry::new();
    registry.register("old", pending("old", t));
    // Half an hour old when the sweep comes.
    registry.register("young", pending("young", now - HOUR / 2));
    registry.register("edge", pending("edge", now - HOUR));
    assert_eq!(registry.expired_files(1, now), vec!["/cache/old.mp4"]);
    assert_eq!(registry.stats().0, 3);
    let files = registry.sweep(1, now);
    assert_eq!(files, vec!["/cache/old.mp4"]);
    assert!(!registry.contains("old"));
    assert!(registry.contains("young"));
    // Made exactly one hour ago: not older than one hour.
    assert!(registry.contains("edge"));
    assert!(registry.sweep(1, now).is_empty());
    let files = registry.sweep(0, now);
    assert_eq!(files, vec!["/cache/young.mp4", "/cache/edge.mp4"]);
    assert_eq!(registry.stats().0, 0);
}

#[test]
fn sweep_goes_by_age_at_the_time_of_the_sweep() {
    let t: u64 = 10 * HOUR;
    let mut registry = ProxyRegistry::new();
    registry.register("a", pending("a", t + HOUR / 2));
    // Half an hour after the record was made it is kept, an hour and a half
    // after it was made it is removed.
    assert!(registry.sweep(1, t + HOUR).is_empty());
    assert!(registry.sweep(1, t + HOUR + HOUR / 2).is_empty());
    assert_eq!(registry.sweep(1, t + 2 * HOUR), vec!["/cache/a.mp4"]);
}

#[test]
fn sweep_with_an_age_beyond_the_clock_removes_nothing() {
    let mut registry = ProxyRegistry::new();
    registry.register("a", pending("a", 0));
    assert!(registry.sweep(u64::MAX, u64::MAX).is_empty());
    assert!(registry.contains("a"));
    assert!(registry.sweep(5_124_095_576_031, u64::MAX).is_empty());
    assert_eq!(registry.sweep(5_124_095_576_030, u64::MAX), vec!["/cache/a.mp4"]);
}

#[test]
fn requesting_twice_yields_one_record_and_one_job() {
    let mut generator = ProxyGenerator::new("/cache".to_string());
    let s = settings(ProxyQuality::Preview);
    generator.request_proxy_at("a.mp4", s, 5, 100);
    generator.request_proxy_at("a.mp4", s, 5, 101);
    assert_eq!(generator.get_cache_stats(), (1, 0, 0));
    assert_eq!(generator.pending_jobs(), 1);
    let info = generator.get_proxy_info("a.mp4", &s).expect("requested");
    assert_eq!(info.created_at, 100);
}

#[test]
fn requests_that_differ_only_in_quality_collide() {
    let mut generator = ProxyGenerator::new("/cache".to_string());
    generator.request_proxy_at("a.mp4", settings(ProxyQuality::Draft), 1, 100);
    generator.request_proxy_at("a.mp4", settings(ProxyQuality::High), 9, 200);
    assert_eq!(generator.get_cache_stats().0, 1);
    assert_eq!(generator.pending_jobs(), 1);
    let info = generator.get_proxy_info("a.mp4", &settings(ProxyQuality::High)).expect("one record");
    assert_eq!(info.settings.quality, ProxyQuality::Draft);
    match generator.next_action(true) {
        WorkerAction::Transcode(job) => {
            assert_eq!(job.proxy_settings.quality, ProxyQuality::Draft);
            assert_eq!(job.priority, 1);
        }
        _ => panic!("one job is pending"),
    }
}

#[test]
fn a_pending_record_has_no_progress() {
    let mut generator = ProxyGenerator::new("/cache".to_string());
    let s = settings(ProxyQuality::Preview);
    assert!(generator.get_proxy_info("a.mp4", &s).is_none());
    assert!(!generator.is_proxy_ready("a.mp4", &s));
    generator.request_proxy_at("a.mp4", s, 5, 100);
    let info = generator.get_proxy_info("a.mp4", &s).expect("requested");
    assert!(!info.is_ready);
    assert_eq!(info.generation_progress, 0);
    assert_eq!(info.file_size, 0);
    assert_eq!(info.original_path, "a.mp4");
    assert_eq!(info.settings, s);
    assert_eq!(info.proxy_path, generator.generate_proxy_path("a.mp4", &s));
    assert_eq!(
        info.proxy_path,
        format!("/cache/proxy_{}_30.mp4", generator.generate_proxy_id("a.mp4", &s))
    );
    assert!(!generator.is_proxy_ready("a.mp4", &s));
    assert!(generator.get_proxy_path("a.mp4", &s, true).is_none());
}

#[test]
fn proxy_lifecycle() {
    let mut generator = ProxyGenerator::new("/cache".to_string());
    let s = settings(ProxyQuality::Preview);
    generator.request_proxy_at("a.mp4", s, 5, 100);

    let job = match generator.next_action(true) {
        WorkerAction::Transcode(job) => job,
        _ => panic!("one job is pending"),
    };
    assert_eq!(job.video_path, "a.mp4");
    assert_eq!(generator.pending_jobs(), 0);

    let run = generator.begin_job(&job, true).expect("the tool is there");
    assert_eq!(run.id, generator.generate_proxy_id("a.mp4", &s));
    assert_eq!(run.input, "a.mp4");
    assert_eq!(run.output, generator.generate_proxy_path("a.mp4", &s));
    assert_eq!(run.args, build_transcode_args("a.mp4", &run.output, &s));
    let info = generator.get_proxy_info("a.mp4", &s).expect("requested");
    assert_eq!(info.generation_progress, PROGRESS_STARTED);
    assert!(!info.is_ready);

    generator.report_progress(&run.id, 990);
    let info = generator.get_proxy_info("a.mp4", &s).expect("requested");
    assert_eq!(info.generation_progress, 990);
    assert!(!info.is_ready);
    assert!(generator.get_proxy_path("a.mp4", &s, true).is_none());

    generator.finish_job(&run.id, true, Some(4096));
    let info = generator.get_proxy_info("a.mp4", &s).expect("requested");
    assert!(info.is_ready);
    assert_eq!(info.generation_progress, 1000);
    assert_eq!(info.file_size, 4096);
    assert!(generator.is_proxy_ready("a.mp4", &s));
    assert_eq!(generator.get_proxy_path("a.mp4", &s, true), Some(run.output.clone()));
    // The file has been deleted behind the generator's back.
    assert!(generator.get_proxy_path("a.mp4", &s, false).is_none());
    assert!(generator.is_proxy_ready("a.mp4", &s));
    assert_eq!(generator.get_cache_stats(), (1, 1, 4096));
}

#[test]
fn a_failed_proxy_is_not_asked_for_again() {
    let mut generator = ProxyGenerator::new("/cache".to_string());
    let s = settings(ProxyQuality::Preview);
    generator.request_proxy_at("a.mp4", s, 5, 100);
    let job = match generator.next_action(true) {
        WorkerAction::Transcode(job) => job,
        _ => panic!("one job is pending"),
    };
    let run = generator.begin_job(&job, true).expect("the tool is there");
    generator.finish_job(&run.id, false, None);
    let info = generator.get_proxy_info("a.mp4", &s).expect("requested");
    assert!(!info.is_ready);
    assert_eq!(info.generation_progress, 0);
    generator.request_proxy_at("a.mp4", s, 5, 200);
    assert_eq!(generator.pending_jobs(), 0);
    assert_eq!(generator.get_cache_stats(), (1, 0, 0));
}

#[test]
fn a_missing_tool_gives_the_job_up() {
    let mut generator = ProxyGenerator::new("/cache".to_string());
    let s = settings(ProxyQuality::Preview);
    generator.request_proxy_at("a.mp4", s, 5, 100);
    let job = match generator.next_action(true) {
        WorkerAction::Transcode(job) => job,
        _ => panic!("one job is pending"),
    };
    assert!(generator.begin_job(&job, false).is_none());
    let info = generator.get_proxy_info("a.mp4", &s).expect("requested");
    assert_eq!(info.generation_progress, 0);
    assert!(!info.is_ready);
    assert!(matches!(generator.next_action(true), WorkerAction::Idle(100)));
}

#[test]
fn a_job_whose_record_is_gone_writes_nowhere() {
    let mut registry = ProxyRegistry::new();
    let run = begin_job(&mut registry, &request("a.mp4", 1), true).expect("the tool is there");
    assert_eq!(run.output, "");
    assert_eq!(run.input, "a.mp4");
    assert_eq!(registry.stats().0, 0);
}

#[test]
fn worker_stops_idles_and_transcodes() {
    let mut queue = ProxyQueue::new();
    assert!(matches!(next_action(false, &mut queue), WorkerAction::Stop));
    match next_action(true, &mut queue) {
        WorkerAction::Idle(millis) => assert_eq!(millis, IDLE_MILLIS),
        _ => panic!("nothing is pending"),
    }
    queue.enqueue(request("slow", 1));
    queue.enqueue(request("fast", 2));
    assert!(matches!(next_action(false, &mut queue), WorkerAction::Stop));
    assert_eq!(queue.len(), 2);
    match next_action(true, &mut queue) {
        WorkerAction::Transcode(job) => assert_eq!(job.video_path, "fast"),
        _ => panic!("two jobs are pending"),
    }
    assert_eq!(queue.len(), 1);
}

#[test]
fn cleanup_removes_old_records_and_names_their_files() {
    let t: u64 = 100 * HOUR;
    let mut generator = ProxyGenerator::new("/cache".to_string());
    let s = settings(ProxyQuality::Preview);
    let now = t + 2 * HOUR;
    generator.request_proxy_at("old.mp4", s, 1, t);
    // Half an hour old when the sweep comes.
    generator.request_proxy_at("young.mp4", s, 1, now - HOUR / 2);
    let old_file = generator.generate_proxy_path("old.mp4", &s);
    assert_eq!(generator.expired_proxy_files(1, now), vec![old_file.clone()]);
    let files = generator.cleanup_old_proxies_at(1, now);
    assert_eq!(files, vec![old_file]);
    assert!(generator.get_proxy_info("old.mp4", &s).is_none());
    assert!(generator.get_proxy_info("young.mp4", &s).is_some());
    assert_eq!(generator.get_cache_stats().0, 1);
    // What waits in the queue is not touched.
    assert_eq!(generator.pending_jobs(), 2);
}

#[test]
fn generator_starts_empty() {
    let mut generator = ProxyGenerator::new(String::new());
    assert_eq!(generator.get_cache_stats(), (0, 0, 0));
    assert_eq!(generator.pending_jobs(), 0);
    assert!(matches!(generator.next_action(true), WorkerAction::Idle(_)));
    let s = ProxySettings::default();
    let id = generator.generate_proxy_id("a.mp4", &s);
    assert_eq!(generator.generate_proxy_path("a.mp4", &s), format!("proxy_{}_30.mp4", id));
}

#[test]
fn the_generator_stamps_with_its_own_clock() {
    let mut generator = ProxyGenerator::new("/cache".to_string());
    let s = settings(ProxyQuality::Preview);
    generator.request_proxy("a.mp4", s, 5);
    generator.request_proxy("a.mp4", s, 5);
    generator.request_proxy("b.mp4", s, 7);
    assert_eq!(generator.get_cache_stats(), (2, 0, 0));
    assert_eq!(generator.pending_jobs(), 2);
    let info = generator.get_proxy_info("a.mp4", &s).expect("requested");
    assert!(!info.is_ready);
    assert_eq!(info.generation_progress, 0);
    // Nothing is an hour old yet.
    assert!(generator.cleanup_old_proxies(1).is_empty());
    assert_eq!(generator.get_cache_stats().0, 2);
    // Let a few milliseconds go by.
    let waiting = dino_media::clock::Clock::start();
    while waiting.millis() < 5 {}
    let mut files = generator.cleanup_old_proxies(0);
    files.sort();
    let mut expected =
        vec![generator.generate_proxy_path("a.mp4", &s), generator.generate_proxy_path("b.mp4", &s)];
    expected.sort();
    assert_eq!(files, expected);
    assert_eq!(generator.get_cache_stats().0, 0);
}

#[test]
fn clocks_count_up() {
    let clock = dino_media::clock::Clock::start();
    let first = clock.millis();
    let mut second = clock.millis();
    assert!(second >= first);
    while second < first + 3 {
        let next = clock.millis();
        assert!(next >= second);
        second = next;
    }
    assert!(second < first + 10_000);
}

#[test]
fn readings_are_held_at_the_largest_value() {
    assert_eq!(dino_media::clock::reading_of(0), 0);
    assert_eq!(dino_media::clock::reading_of(1234), 1234);
    assert_eq!(dino_media::clock::reading_of(u64::MAX as u128), u64::MAX);
    assert_eq!(dino_media::clock::reading_of(u64::MAX as u128 + 1), u64::MAX);
    assert_eq!(dino_media::clock::reading_of(u128::MAX), u64::MAX);
}

#[test]
fn the_path_given_out_is_the_records() {
    let mut generator = ProxyGenerator::new("/cache".to_string());
    let s = settings(ProxyQuality::Preview);
    generator.request_proxy_at("a.mp4", s, 5, 100);
    let id = generator.generate_proxy_id("a.mp4", &s);
    generator.finish_job(&id, true, Some(7));
    let record = generator.get_proxy_info("a.mp4", &s).expect("requested");
    assert_eq!(generator.get_proxy_path("a.mp4", &s, true), Some(record.proxy_path.clone()));
    // Asked for with another quality and a rate that rounds to the same
    // whole number, it is the same proxy and the same file.
    let mut other = settings(ProxyQuality::High);
    other.frame_rate = 29_600;
    assert_eq!(generator.get_proxy_path("a.mp4", &other, true), Some(record.proxy_path));
}

#[test]
fn the_generator_never_lets_its_time_run_backwards() {
    let mut generator = ProxyGenerator::new("/cache".to_string());
    let s = settings(ProxyQuality::Preview);
    generator.request_proxy_at("a.mp4", s, 1, 10 * HOUR);
    // A reading that lies before the latest one counts as the latest one.
    generator.request_proxy_at("b.mp4", s, 1, 3 * HOUR);
    let b = generator.get_proxy_info("b.mp4", &s).expect("requested");
    assert_eq!(b.created_at, 10 * HOUR);
    assert!(generator.expired_proxy_files(1, 0).is_empty());
    assert!(generator.cleanup_old_proxies_at(1, 0).is_empty());
    assert_eq!(generator.get_cache_stats().0, 2);
    let mut expected =
        vec![generator.generate_proxy_path("a.mp4", &s), generator.generate_proxy_path("b.mp4", &s)];
    expected.sort();
    let mut listed = generator.expired_proxy_files(1, 12 * HOUR);
    listed.sort();
    assert_eq!(listed, expected);
    assert_eq!(generator.get_cache_stats().0, 2);
    let mut files = generator.cleanup_old_proxies_at(1, 12 * HOUR);
    files.sort();
    assert_eq!(files, expected);
    assert_eq!(generator.get_cache_stats().0, 0);
    // The sweep at twelve hours is the latest reading now.
    generator.request_proxy_at("c.mp4", s, 1, 0);
    let c = generator.get_proxy_info("c.mp4", &s).expect("requested");
    assert_eq!(c.created_at, 12 * HOUR);
}

#[test]
fn a_request_is_admitted_once() {
    let mut registry = ProxyRegistry::new();
    let s = settings(ProxyQuality::Preview);
    let job = admit_request(&mut registry, "/cache", "a.mp4", s, 4, 77).expect("a new proxy");
    assert_eq!(job.video_path, "a.mp4");
    assert_eq!(job.priority, 4);
    assert_eq!(job.proxy_settings, s);
    let id = generate_proxy_id("a.mp4", &s);
    let record = registry.get(&id).expect("registered");
    assert_eq!(record.proxy_path, generate_proxy_path("/cache", "a.mp4", &s));
    assert_eq!(record.original_path, "a.mp4");
    assert_eq!(record.settings, s);
    assert_eq!(record.generation_progress, 0);
    assert!(!record.is_ready);
    assert_eq!(record.file_size, 0);
    assert_eq!(record.created_at, 77);
    assert!(admit_request(&mut registry, "/cache", "a.mp4", s, 9, 99).is_none());
    assert!(admit_request(&mut registry, "/cache", "a.mp4", settings(ProxyQuality::High), 9, 99)
        .is_none());
    assert_eq!(registry.stats().0, 1);
    assert_eq!(registry.get(&id).expect("registered").created_at, 77);
    assert!(admit_request(&mut registry, "/cache", "b.mp4", s, 9, 99).is_some());
    assert_eq!(registry.stats().0, 2);
}

#[test]
fn a_path_is_usable_when_ready_and_on_disk() {
    let mut registry = ProxyRegistry::new();
    let s = settings(ProxyQuality::Preview);
    assert!(usable_proxy_path(&registry, "/cache", "a.mp4", &s, true).is_none());
    admit_request(&mut registry, "/cache", "a.mp4", s, 4, 77);
    assert!(usable_proxy_path(&registry, "/cache", "a.mp4", &s, true).is_none());
    let id = generate_proxy_id("a.mp4", &s);
    registry.finish(&id, true, Some(10));
    assert_eq!(
        usable_proxy_path(&registry, "/cache", "a.mp4", &s, true),
        Some(generate_proxy_path("/cache", "a.mp4", &s))
    );
    assert!(usable_proxy_path(&registry, "/cache", "a.mp4", &s, false).is_none());
    assert!(usable_proxy_path(&registry, "/cache", "b.mp4", &s, true).is_none());
    registry.finish(&id, false, Some(10));
    assert!(usable_proxy_path(&registry, "/cache", "a.mp4", &s, true).is_none());
}
