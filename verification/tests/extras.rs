use dino_media::editor::advance_playback;
use dino_media::extract::{picture_path, FrameSampler};
use dino_media::frame::Frame;
use dino_media::media::Media;
use dino_media::playback::PlaybackState;
use dino_media::proxy_registry::is_valid_proxy_file;
use dino_media::timeline::{Clip, TimeLine, Track, TrackKind};

fn clip(start: i64, duration: i64, media: Media) -> Clip {
    Clip { start_time: start, duration, media, is_being_dragged: false, drag_offset: 0 }
}

fn video(start: i64, duration: i64, path: &str) -> Clip {
    clip(start, duration, Media::Video(path.to_string()))
}

fn timeline_of(tracks: Vec<Vec<Clip>>) -> TimeLine {
    let mut timeline = TimeLine::new();
    for clips in tracks {
        timeline.tracks.push(Track { kind: TrackKind::Video, clips });
    }
    timeline
}

fn pixel(frame: &Frame, x: u32, y: u32) -> [u8; 4] {
    let at = ((y * frame.width + x) * 4) as usize;
    [frame.pixels[at], frame.pixels[at + 1], frame.pixels[at + 2], frame.pixels[at + 3]]
}

#[test]
fn placeholder_is_grey_with_a_bar_near_the_bottom() {
    let frame = Frame::placeholder(2500, 40, 40);
    assert_eq!((frame.width, frame.height, frame.timestamp), (40, 40, 2500));
    assert_eq!(frame.pixels.len(), 40 * 40 * 4);
    // The bar is two rows high, starts four rows above the bottom and is
    // half as wide as the picture halfway through its five seconds.
    for y in 0..40 {
        for x in 0..40 {
            let in_bar = (36..38).contains(&y) && x < 20;
            let expected = if in_bar { [100, 180, 240, 255] } else { [40, 40, 40, 255] };
            assert_eq!(pixel(&frame, x, y), expected, "pixel {} {}", x, y);
        }
    }
}

#[test]
fn placeholder_bar_grows_and_starts_anew() {
    let at = |time: i64| {
        let frame = Frame::placeholder(time, 100, 20);
        (0..100).filter(|x| pixel(&frame, *x, 18) == [100, 180, 240, 255]).count()
    };
    assert_eq!(at(0), 0);
    assert_eq!(at(49), 0);
    assert_eq!(at(50), 1);
    assert_eq!(at(1000), 20);
    assert_eq!(at(4999), 99);
    assert_eq!(at(5000), 0);
    assert_eq!(at(6000), 20);
    assert_eq!(at(-1000), 0);
    assert_eq!(at(i64::MAX), 16);
}

#[test]
fn placeholder_of_a_small_picture_has_no_bar() {
    let frame = Frame::placeholder(4000, 10, 19);
    assert!(frame.pixels.chunks(4).all(|p| p == [40, 40, 40, 255]));
    let empty = Frame::placeholder(4000, 0, 5);
    assert!(empty.pixels.is_empty());
    let flat = Frame::placeholder(4000, 5, 0);
    assert!(flat.pixels.is_empty());
}

#[test]
fn picture_paths_count_on_five_places() {
    assert_eq!(picture_path("out", 0), "out/frame_00000.png");
    assert_eq!(picture_path("out", 7), "out/frame_00007.png");
    assert_eq!(picture_path("out", 42), "out/frame_00042.png");
    assert_eq!(picture_path("out", 999), "out/frame_00999.png");
    assert_eq!(picture_path("out", 1000), "out/frame_01000.png");
    assert_eq!(picture_path("out", 99_999), "out/frame_99999.png");
    assert_eq!(picture_path("out", 100_000), "out/frame_100000.png");
    assert_eq!(picture_path("", 3), "/frame_00003.png");
    assert_eq!(picture_path("a/b/", 3), "a/b//frame_00003.png");
    for index in [0usize, 9, 10, 99, 100, 9999, 10_000, 123_456_789] {
        assert_eq!(picture_path("d", index), format!("{}/frame_{:05}.png", "d", index));
    }
}

#[test]
fn sampler_keeps_every_nth_frame_until_it_has_enough() {
    let mut sampler = FrameSampler::new(3, 2);
    let mut kept = Vec::new();
    let mut seen = 0;
    loop {
        let decision = sampler.next_frame();
        seen += 1;
        if let Some(index) = decision.keep {
            kept.push(index);
        }
        if decision.done {
            break;
        }
    }
    assert_eq!(kept, vec![0, 3]);
    assert_eq!(seen, 4);
    assert!(sampler.is_done());
    assert_eq!(sampler.saved, 2);
    assert_eq!(sampler.frame_index, 4);
}

#[test]
fn sampler_that_wants_nothing_is_done_after_one_frame() {
    let mut sampler = FrameSampler::new(1, 0);
    assert!(sampler.is_done());
    let decision = sampler.next_frame();
    assert_eq!(decision.keep, None);
    assert!(decision.done);
    assert_eq!(sampler.frame_index, 1);
}

#[test]
fn sampler_keeps_every_frame_at_step_one() {
    let mut sampler = FrameSampler::new(1, 3);
    assert!(!sampler.is_done());
    let first = sampler.next_frame();
    assert_eq!((first.keep, first.done), (Some(0), false));
    let second = sampler.next_frame();
    assert_eq!((second.keep, second.done), (Some(1), false));
    let third = sampler.next_frame();
    assert_eq!((third.keep, third.done), (Some(2), true));
    let fourth = sampler.next_frame();
    assert_eq!((fourth.keep, fourth.done), (None, true));
}

#[test]
fn proxy_files_must_hold_something() {
    assert!(is_valid_proxy_file(Some(1)));
    assert!(is_valid_proxy_file(Some(u64::MAX)));
    assert!(!is_valid_proxy_file(Some(0)));
    assert!(!is_valid_proxy_file(None));
}

#[test]
fn frames_are_wanted_one_step_ahead() {
    let mut timeline = timeline_of(vec![
        vec![video(0, 10_000, "a"), clip(0, 10_000, Media::Audio("s".to_string()))],
        vec![video(1000, 10_000, "b"), video(900, 100, "c")],
    ]);
    timeline.current_time = 500;
    let targets: Vec<(String, i64)> =
        timeline.preload_targets().into_iter().map(|t| (t.path, t.time)).collect();
    // `b` starts within the coming second, but not within the coming frame;
    // `c` likewise.
    assert_eq!(targets, vec![("a".to_string(), 533)]);
    timeline.current_time = 970;
    let targets: Vec<(String, i64)> =
        timeline.preload_targets().into_iter().map(|t| (t.path, t.time)).collect();
    assert_eq!(targets, vec![("a".to_string(), 1003), ("b".to_string(), 3)]);
    // Both clips are more than five seconds under way.
    timeline.current_time = 9980;
    assert!(timeline.preload_targets().is_empty());
}

#[test]
fn no_frame_is_wanted_beyond_the_first_five_seconds_of_a_clip() {
    let mut timeline = timeline_of(vec![vec![video(0, 10_000, "a")]]);
    timeline.current_time = 4999;
    assert_eq!(timeline.preload_targets().len(), 1);
    timeline.current_time = 5000;
    assert!(timeline.preload_targets().is_empty());
    timeline.current_time = -20;
    let targets = timeline.preload_targets();
    assert_eq!(targets.len(), 1);
    assert_eq!(targets[0].time, 13);
    timeline.current_time = -34;
    assert!(timeline.preload_targets().is_empty());
}

#[test]
fn at_most_three_frames_are_wanted_at_once() {
    let mut timeline = timeline_of(vec![
        vec![video(0, 1000, "a"), video(0, 1000, "b")],
        vec![],
        vec![video(0, 1000, "c"), video(0, 1000, "d"), video(0, 1000, "e")],
    ]);
    timeline.current_time = 100;
    let paths: Vec<String> = timeline.preload_targets().into_iter().map(|t| t.path).collect();
    assert_eq!(paths, vec!["a", "b", "c"]);
    assert!(TimeLine::new().preload_targets().is_empty());
}

#[test]
fn forgetting_a_video_removes_the_clips_that_end_with_its_number() {
    let mut timeline = timeline_of(vec![
        vec![video(0, 1, "take1"), video(1, 1, "take2"), video(2, 1, "take11")],
        vec![clip(0, 1, Media::Audio("sound1".to_string())), video(5, 1, "1"), video(6, 1, "")],
    ]);
    timeline.selected_clip = Some((0, 1));
    timeline.forget_video(1);
    let paths = |t: &TimeLine, track: usize| -> Vec<String> {
        t.tracks[track]
            .clips
            .iter()
            .map(|c| match &c.media {
                Media::Video(p) | Media::Audio(p) => p.clone(),
                _ => String::new(),
            })
            .collect()
    };
    assert_eq!(paths(&timeline, 0), vec!["take2"]);
    assert_eq!(paths(&timeline, 1), vec!["sound1", ""]);
    assert_eq!(timeline.selected_clip, None);
    timeline.forget_video(12);
    assert_eq!(paths(&timeline, 0), vec!["take2"]);
    timeline.forget_video(2);
    assert!(timeline.tracks[0].clips.is_empty());
    assert_eq!(timeline.tracks.len(), 2);
}

#[test]
fn frames_are_looked_for_on_whole_even_seconds() {
    let mut timeline = timeline_of(vec![vec![video(0, 100_000, "a")]]);
    let mut playback = PlaybackState::new();
    playback.play();
    timeline.current_time = 1984;
    assert!(advance_playback(&mut timeline, &mut playback, 16));
    assert_eq!(timeline.current_time, 2000);
    assert!(!advance_playback(&mut timeline, &mut playback, 16));
    timeline.current_time = 3984;
    assert!(advance_playback(&mut timeline, &mut playback, 16));
    // Nothing moves at the start: four quarters of nothing are eight eighths
    // of nothing.
    timeline.current_time = 0;
    assert!(!advance_playback(&mut timeline, &mut playback, 0));
    // From one second to two: eight quarter seconds reached, eight eighths
    // left behind.
    timeline.current_time = 1000;
    assert!(!advance_playback(&mut timeline, &mut playback, 1000));
    playback.pause();
    timeline.current_time = 1984;
    assert!(!advance_playback(&mut timeline, &mut playback, 16));
}
