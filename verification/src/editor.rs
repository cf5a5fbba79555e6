//! What the editor does with its timeline between two pictures on screen:
//! finding the clip under the playback position, placing media that was
//! dropped on a track, and moving the playback position on.

use crate::media::{AudioTrack, Media, VideoFile};
use crate::playback::PlaybackState;
use crate::timeline::{
    checked_difference,
    checked_sum,
    difference,
    sum,
    Clip,
    TimeLine,
    TimeLineView,
    Track,
    TrackKind,
    TrackView,
    CLIP_END_MARGIN,
    TIMELINE_END,
};
use vstd::prelude::*;

verus! {

/// `(track, clip)` comes before `(other_track, other_clip)` when the clips
/// are gone through track by track.
pub open spec fn comes_before(track: int, clip: int, other_track: int, other_clip: int) -> bool {
    track < other_track || (track == other_track && clip < other_clip)
}

/// The clip `(track, clip)` is a video that is shown at the playback
/// position.
pub open spec fn shows_video(timeline: TimeLineView, track: int, clip: int) -> bool {
    timeline.has_clip(track, clip) && timeline.tracks[track].clips[clip].shows_video_at(
        timeline.current_time,
    )
}

/// The clip `(track, clip)` is the first video that is shown at the
/// playback position.
pub open spec fn is_active_video(timeline: TimeLineView, track: int, clip: int) -> bool {
    &&& shows_video(timeline, track, clip)
    &&& forall|t: int, c: int|
        comes_before(t, c, track, clip) ==> !#[trigger] shows_video(timeline, t, c)
}

/// `duration` milliseconds as the length of a clip, held at the largest
/// `i64`.
pub open spec fn clip_length(duration: u64) -> i64 {
    if duration > i64::MAX {
        i64::MAX
    } else {
        duration as i64
    }
}

/// The clip that shows the picture of `file` from `start_time` on.
pub open spec fn video_clip(file: VideoFile, start_time: i64) -> Clip {
    Clip {
        start_time,
        duration: clip_length(file.duration),
        media: Media::Video(file.path),
        is_being_dragged: false,
        drag_offset: 0,
    }
}

/// The clip that plays the sound of `track` from `start_time` on.
pub open spec fn audio_clip(track: AudioTrack, start_time: i64) -> Clip {
    Clip {
        start_time,
        duration: clip_length(track.duration),
        media: Media::Audio(track.path),
        is_being_dragged: false,
        drag_offset: 0,
    }
}

/// `tracks` with empty tracks of kind `kind` added until there are `len`.
pub open spec fn padded(tracks: Seq<TrackView>, len: int, kind: TrackKind) -> Seq<TrackView> {
    if tracks.len() >= len {
        tracks
    } else {
        tracks + Seq::new(
            (len - tracks.len()) as nat,
            |i: int| TrackView { kind, clips: Seq::empty() },
        )
    }
}

/// `tracks` with `clip` added at the end of the track `at`, after empty
/// tracks of kind `kind` have been added until that track exists.
pub open spec fn placed(tracks: Seq<TrackView>, at: int, kind: TrackKind, clip: Clip) -> Seq<
    TrackView,
> {
    let room = padded(tracks, at + 1, kind);
    room.update(at, TrackView { clips: room[at].clips.push(clip), ..room[at] })
}

/// `tracks` with one clip for each of the sound tracks `audio`, the first
/// on the track after `track`, the next on the track after that, and so on.
pub open spec fn with_audio(
    tracks: Seq<TrackView>,
    track: int,
    start_time: i64,
    audio: Seq<AudioTrack>,
) -> Seq<TrackView>
    decreases audio.len(),
{
    if audio.len() == 0 {
        tracks
    } else {
        placed(
            with_audio(tracks, track, start_time, audio.drop_last()),
            track + audio.len(),
            TrackKind::Audio,
            audio_clip(audio.last(), start_time),
        )
    }
}

/// `tracks` after `file` has been dropped on the track `track` at
/// `start_time`: its picture goes on that track and its sound on the tracks
/// after it.
pub open spec fn with_media(
    tracks: Seq<TrackView>,
    file: VideoFile,
    track: int,
    start_time: i64,
) -> Seq<TrackView> {
    with_audio(
        placed(tracks, track, TrackKind::Video, video_clip(file, start_time)),
        track,
        start_time,
        file.audio_tracks@,
    )
}

/// The end of the last clip among the first `count` clips of the track
/// `clips`, and at least `floor`.
pub open spec fn latest_end(clips: Seq<Clip>, floor: i64) -> i64
    decreases clips.len(),
{
    if clips.len() == 0 {
        floor
    } else {
        let before = latest_end(clips.drop_last(), floor);
        if clips.last().end_time() > before {
            clips.last().end_time()
        } else {
            before
        }
    }
}

/// The end of the last clip on `tracks`; zero where there is no clip.
pub open spec fn timeline_end(tracks: Seq<TrackView>) -> i64
    decreases tracks.len(),
{
    if tracks.len() == 0 {
        0
    } else {
        latest_end(tracks.last().clips, timeline_end(tracks.drop_last()))
    }
}

/// The playback position `dt` milliseconds of real time after `time`, at
/// `speed` thousandths of the normal speed.
pub open spec fn moved_on(time: i64, dt: u32, speed: u32) -> i64 {
    sum(time, ((dt as int * speed as int) / 1000) as i64)
}

/// The number of whole `unit`s in `time`, the fraction cut off towards
/// zero; `unit` is positive.
pub open spec fn whole_units(time: int, unit: int) -> int {
    if time >= 0 {
        time / unit
    } else {
        -((-time) / unit)
    }
}

/// Whether frames are looked for ahead of time after playback has moved
/// from `before` to `after`: only on a whole even second, and only where the
/// number of quarter seconds reached differs from the number of eighths of a
/// second left behind.
pub open spec fn preload_due(before: i64, after: i64) -> bool {
    after as int % 2000 == 0 && whole_units(after as int * 4, 1000) != whole_units(
        before as int * 8,
        1000,
    )
}

/// Whether playback that has reached `time` halts there.
pub open spec fn halts_at(tracks: Seq<TrackView>, time: i64) -> bool {
    if timeline_end(tracks) > 0 && time >= timeline_end(tracks) {
        true
    } else {
        time >= TIMELINE_END
    }
}

/// The time at which playback that has reached `time` halts.
pub open spec fn halted_at(tracks: Seq<TrackView>, time: i64) -> i64 {
    if timeline_end(tracks) > 0 && time >= timeline_end(tracks) {
        timeline_end(tracks)
    } else {
        TIMELINE_END
    }
}

/// Milliseconds of the timeline ahead of the playback position for which
/// frames are wanted before they are shown.
pub const PRELOAD_WINDOW: i64 = 1000;

/// Milliseconds from one frame to the next, at thirty frames per second.
pub const FRAME_STEP: i64 = 33;

/// No frame is wanted ahead of time beyond this time within a clip.
pub const PRELOAD_LIMIT: i64 = 5000;

/// At most this many frames are wanted ahead of time at once.
pub const PRELOAD_COUNT: usize = 3;

/// A frame that is wanted before it is shown.
pub struct PreloadTarget {
    /// The path of the video.
    pub path: String,
    /// The time within the video.
    pub time: i64,
}

impl View for PreloadTarget {
    type V = (Seq<char>, i64);

    open spec fn view(&self) -> (Seq<char>, i64) {
        (self.path@, self.time)
    }
}

impl Clip {
    /// The next frame of the clip is wanted ahead of time at `time`: the
    /// clip is a video, it overlaps the second that follows `time`, the
    /// part of that second that lies within the clip and within its first
    /// five seconds is not empty, and the time one frame on lies within the
    /// clip.
    pub open spec fn wants_preload(self, time: i64) -> bool {
        let from = if difference(time, self.start_time) > 0 {
            difference(time, self.start_time)
        } else {
            0
        };
        let reach = difference(sum(time, PRELOAD_WINDOW), self.start_time);
        let within = if reach < self.duration {
            reach
        } else {
            self.duration
        };
        let until = if within < PRELOAD_LIMIT {
            within
        } else {
            PRELOAD_LIMIT
        };
        &&& self.media is Video
        &&& time < self.end_time()
        &&& sum(time, PRELOAD_WINDOW) > self.start_time
        &&& until > from
        &&& self.start_time <= sum(time, FRAME_STEP) < self.end_time()
    }

    /// The frame of the clip that is wanted ahead of time at `time`: the
    /// one that is shown one frame on.
    pub open spec fn preload_target(self, time: i64) -> (Seq<char>, i64) {
        (
            match self.media {
                Media::Video(path) => path@,
                _ => Seq::empty(),
            },
            difference(sum(time, FRAME_STEP), self.start_time),
        )
    }
}

/// The frames of the clips `clips` that are wanted ahead of time at `time`,
/// in the order of the clips.
pub open spec fn track_targets(clips: Seq<Clip>, time: i64) -> Seq<(Seq<char>, i64)>
    decreases clips.len(),
{
    if clips.len() == 0 {
        Seq::empty()
    } else if clips.last().wants_preload(time) {
        track_targets(clips.drop_last(), time).push(clips.last().preload_target(time))
    } else {
        track_targets(clips.drop_last(), time)
    }
}

/// The frames of all clips on `tracks` that are wanted ahead of time at
/// `time`, track by track.
pub open spec fn all_targets(tracks: Seq<TrackView>, time: i64) -> Seq<(Seq<char>, i64)>
    decreases tracks.len(),
{
    if tracks.len() == 0 {
        Seq::empty()
    } else {
        all_targets(tracks.drop_last(), time) + track_targets(tracks.last().clips, time)
    }
}

/// The first `count` of `targets`, or all of them where there are fewer.
pub open spec fn first_of(targets: Seq<(Seq<char>, i64)>, count: int) -> Seq<(Seq<char>, i64)> {
    if targets.len() <= count {
        targets
    } else {
        targets.take(count)
    }
}

fn clip_end(clip: &Clip) -> (end: i64)
    ensures
        end == clip.end_time(),
{
    checked_sum(clip.start_time, clip.duration)
}

fn length_of(duration: u64) -> (length: i64)
    ensures
        length == clip_length(duration),
{
    if duration > i64::MAX as u64 {
        i64::MAX
    } else {
        duration as i64
    }
}

impl TimeLine {
    /// Finds the first video that is shown at the playback position, going
    /// through the clips track by track.
    pub fn active_video_clip(&self) -> (found: Option<(usize, usize)>)
        ensures
            match found {
                Some((track, clip)) => is_active_video(self@, track as int, clip as int),
                None => forall|t: int, c: int| !#[trigger] shows_video(self@, t, c),
            },
    {
        let time: i64 = self.current_time;
        let n: usize = self.tracks.len();
        let mut t: usize = 0;
        while t < n
            invariant
                n == self.tracks@.len(),
                t <= n,
                time == self.current_time,
                forall|a: int, b: int| a < t ==> !#[trigger] shows_video(self@, a, b),
            decreases n - t,
        {
            let m: usize = self.tracks[t].clips.len();
            let mut c: usize = 0;
            while c < m
                invariant
                    n == self.tracks@.len(),
                    t < n,
                    m == self.tracks@[t as int].clips@.len(),
                    c <= m,
                    time == self.current_time,
                    forall|a: int, b: int|
                        comes_before(a, b, t as int, c as int) ==> !#[trigger] shows_video(
                            self@,
                            a,
                            b,
                        ),
                decreases m - c,
            {
                let clip = &self.tracks[t].clips[c];
                let shown: bool = clip.start_time <= time && time < clip_end(clip);
                let is_video: bool = match clip.media {
                    Media::Video(_) => true,
                    _ => false,
                };
                if shown && is_video {
                    return Some((t, c));
                }
                c += 1;
            }
            t += 1;
        }
        None
    }

    /// The path of the video under the playback position and the time
    /// within it that is shown, kept a tenth of a second before the end of
    /// its clip.
    pub fn preview_request(&self) -> (request: Option<(String, i64)>)
        ensures
            match request {
                Some((path, time)) => exists|t: int, c: int|
                    #[trigger] is_active_video(self@, t, c) && self@.tracks[t].clips[c].media
                        == Media::Video(path) && time == self@.tracks[t].clips[c].video_time(
                        self.current_time,
                    ),
                None => forall|t: int, c: int| !#[trigger] shows_video(self@, t, c),
            },
    {
        match self.active_video_clip() {
            Some((t, c)) => {
                let clip = &self.tracks[t].clips[c];
                let relative: i64 = checked_difference(self.current_time, clip.start_time);
                let latest: i64 = checked_difference(clip.duration, CLIP_END_MARGIN);
                let time: i64 = if relative < latest {
                    relative
                } else {
                    latest
                };
                match &clip.media {
                    Media::Video(path) => {
                        let owned: String = path.clone();
                        Some((owned, time))
                    },
                    _ => None,
                }
            },
            None => None,
        }
    }

    /// The path of the video under the playback position and the length of
    /// its clip.
    pub fn active_clip_info(&self) -> (info: Option<(String, i64)>)
        ensures
            match info {
                Some((path, duration)) => exists|t: int, c: int|
                    #[trigger] is_active_video(self@, t, c) && self@.tracks[t].clips[c].media
                        == Media::Video(path) && duration == self@.tracks[t].clips[c].duration,
                None => forall|t: int, c: int| !#[trigger] shows_video(self@, t, c),
            },
    {
        match self.active_video_clip() {
            Some((t, c)) => {
                let clip = &self.tracks[t].clips[c];
                match &clip.media {
                    Media::Video(path) => {
                        let owned: String = path.clone();
                        Some((owned, clip.duration))
                    },
                    _ => None,
                }
            },
            None => None,
        }
    }

    /// Adds `clip` at the end of the track `at`, after adding empty tracks
    /// of kind `kind` until that track exists.
    pub fn place_clip(&mut self, at: usize, kind: TrackKind, clip: Clip)
        requires
            at < usize::MAX,
        ensures
            final(self)@ == (TimeLineView {
                tracks: placed(old(self)@.tracks, at as int, kind, clip),
                ..old(self)@
            }),
    {
        let ghost before = self@.tracks;
        while self.tracks.len() <= at
            invariant
                self.current_time == old(self).current_time,
                self.selected_clip == old(self).selected_clip,
                self@.tracks.len() >= before.len(),
                self@.tracks.len() <= at + 1 || self@.tracks.len() == before.len(),
                self@.tracks == padded(before, self@.tracks.len() as int, kind),
            decreases at + 1 - self.tracks.len(),
        {
            let ghost sofar = self@.tracks;
            self.tracks.push(Track { kind, clips: Vec::new() });
            proof {
                assert(self@.tracks =~= sofar.push(TrackView { kind, clips: Seq::empty() }));
            }
        }
        let ghost room = self@.tracks;
        self.tracks[at].clips.push(clip);
        proof {
            assert(self@.tracks =~= room.update(
                at as int,
                TrackView { clips: room[at as int].clips.push(clip), ..room[at as int] },
            ));
        }
    }

    /// Places `video_file` on the timeline at `start_time`: its picture on
    /// the track `track_index`, and each of its sound tracks on a track of
    /// its own after that one. Tracks that are missing are added, picture
    /// tracks up to `track_index` and sound tracks after it.
    pub fn add_media(&mut self, video_file: &VideoFile, track_index: usize, start_time: i64)
        requires
            track_index + video_file.audio_tracks@.len() < usize::MAX,
        ensures
            final(self)@ == (TimeLineView {
                tracks: with_media(old(self)@.tracks, *video_file, track_index as int, start_time),
                ..old(self)@
            }),
    {
        let picture = Clip {
            start_time,
            duration: length_of(video_file.duration),
            media: Media::Video(video_file.path.clone()),
            is_being_dragged: false,
            drag_offset: 0,
        };
        self.place_clip(track_index, TrackKind::Video, picture);
        let ghost base = self@.tracks;
        let n: usize = video_file.audio_tracks.len();
        let mut i: usize = 0;
        while i < n
            invariant
                n == video_file.audio_tracks@.len(),
                i <= n,
                track_index + n < usize::MAX,
                self.current_time == old(self).current_time,
                self.selected_clip == old(self).selected_clip,
                self@.tracks == with_audio(
                    base,
                    track_index as int,
                    start_time,
                    video_file.audio_tracks@.take(i as int),
                ),
            decreases n - i,
        {
            let track = &video_file.audio_tracks[i];
            let sound = Clip {
                start_time,
                duration: length_of(track.duration),
                media: Media::Audio(track.path.clone()),
                is_being_dragged: false,
                drag_offset: 0,
            };
            proof {
                let next = video_file.audio_tracks@.take(i + 1);
                assert(next.drop_last() =~= video_file.audio_tracks@.take(i as int));
            }
            self.place_clip(track_index + 1 + i, TrackKind::Audio, sound);
            i += 1;
        }
        proof {
            assert(video_file.audio_tracks@.take(n as int) =~= video_file.audio_tracks@);
        }
    }

    /// Lists the frames that are wanted before they are shown: for each
    /// video that the playback position is about to run through, the frame
    /// one step on, and no more than three in all.
    pub fn preload_targets(&self) -> (targets: Vec<PreloadTarget>)
        ensures
            targets@.map_values(|t: PreloadTarget| t@) == first_of(
                all_targets(self@.tracks, self.current_time),
                PRELOAD_COUNT as int,
            ),
    {
        let time: i64 = self.current_time;
        let horizon: i64 = checked_sum(time, PRELOAD_WINDOW);
        let next: i64 = checked_sum(time, FRAME_STEP);
        let ghost view = |t: PreloadTarget| t@;
        let mut targets: Vec<PreloadTarget> = Vec::new();
        let n: usize = self.tracks.len();
        let mut t: usize = 0;
        while t < n
            invariant
                n == self.tracks@.len(),
                t <= n,
                time == self.current_time,
                horizon == sum(time, PRELOAD_WINDOW),
                next == sum(time, FRAME_STEP),
                view == |t: PreloadTarget| t@,
                targets@.map_values(view) == all_targets(self@.tracks.take(t as int), time),
            decreases n - t,
        {
            let ghost base = targets@.map_values(view);
            let m: usize = self.tracks[t].clips.len();
            let mut c: usize = 0;
            while c < m
                invariant
                    t < n,
                    n == self.tracks@.len(),
                    m == self.tracks@[t as int].clips@.len(),
                    c <= m,
                    time == self.current_time,
                    horizon == sum(time, PRELOAD_WINDOW),
                    next == sum(time, FRAME_STEP),
                    view == |t: PreloadTarget| t@,
                    targets@.map_values(view) == base + track_targets(
                        self.tracks@[t as int].clips@.take(c as int),
                        time,
                    ),
                decreases m - c,
            {
                let clip = &self.tracks[t].clips[c];
                let ghost sofar = targets@.map_values(view);
                proof {
                    let upto = self.tracks@[t as int].clips@.take(c + 1);
                    assert(upto.drop_last() =~= self.tracks@[t as int].clips@.take(c as int));
                }
                let end: i64 = clip_end(clip);
                let since: i64 = checked_difference(time, clip.start_time);
                let from: i64 = if since > 0 {
                    since
                } else {
                    0
                };
                let reach: i64 = checked_difference(horizon, clip.start_time);
                let within: i64 = if reach < clip.duration {
                    reach
                } else {
                    clip.duration
                };
                let until: i64 = if within < PRELOAD_LIMIT {
                    within
                } else {
                    PRELOAD_LIMIT
                };
                let wanted: bool = time < end && horizon > clip.start_time && until > from
                    && clip.start_time <= next && next < end;
                match &clip.media {
                    Media::Video(path) => {
                        if wanted {
                            let target = PreloadTarget {
                                path: path.clone(),
                                time: checked_difference(next, clip.start_time),
                            };
                            let ghost seen = target@;
                            targets.push(target);
                            proof {
                                assert(targets@.map_values(view) =~= sofar.push(seen));
                            }
                        }
                    },
                    _ => {
                    },
                }
                c += 1;
            }
            proof {
                assert(self.tracks@[t as int].clips@.take(m as int)
                    =~= self.tracks@[t as int].clips@);
                let upto = self@.tracks.take(t + 1);
                assert(upto.drop_last() =~= self@.tracks.take(t as int));
            }
            t += 1;
        }
        proof {
            assert(self@.tracks.take(n as int) =~= self@.tracks);
        }
        if targets.len() > PRELOAD_COUNT {
            targets.truncate(PRELOAD_COUNT);
        }
        targets
    }

    /// The end of the last clip on the timeline; zero where there is no
    /// clip.
    pub fn end_time(&self) -> (end: i64)
        ensures
            end == timeline_end(self@.tracks),
    {
        let mut end: i64 = 0;
        let n: usize = self.tracks.len();
        let mut t: usize = 0;
        while t < n
            invariant
                n == self.tracks@.len(),
                t <= n,
                end == timeline_end(self@.tracks.take(t as int)),
            decreases n - t,
        {
            let ghost floor = end;
            let m: usize = self.tracks[t].clips.len();
            let mut c: usize = 0;
            while c < m
                invariant
                    t < n,
                    n == self.tracks@.len(),
                    m == self.tracks@[t as int].clips@.len(),
                    c <= m,
                    end == latest_end(self.tracks@[t as int].clips@.take(c as int), floor),
                decreases m - c,
            {
                proof {
                    let next = self.tracks@[t as int].clips@.take(c + 1);
                    assert(next.drop_last() =~= self.tracks@[t as int].clips@.take(c as int));
                }
                let this_end: i64 = clip_end(&self.tracks[t].clips[c]);
                if this_end > end {
                    end = this_end;
                }
                c += 1;
            }
            proof {
                assert(self.tracks@[t as int].clips@.take(m as int)
                    =~= self.tracks@[t as int].clips@);
                let next = self@.tracks.take(t + 1);
                assert(next.drop_last() =~= self@.tracks.take(t as int));
            }
            t += 1;
        }
        proof {
            assert(self@.tracks.take(n as int) =~= self@.tracks);
        }
        end
    }
}

/// Moves the playback position on by `dt` milliseconds of real time.
/// Nothing happens while playback is halted. Otherwise the position moves
/// at the playback speed; where it reaches the end of the last clip, or the
/// end of the timeline, it stays there and playback halts.
pub fn advance_playback(timeline: &mut TimeLine, playback: &mut PlaybackState, dt: u32) -> (preload:
    bool)
    ensures
        preload == (old(playback).is_playing && preload_due(
            old(timeline).current_time,
            moved_on(old(timeline).current_time, dt, old(playback).playback_speed),
        )),
        final(timeline)@.tracks == old(timeline)@.tracks,
        final(timeline)@.selected_clip == old(timeline)@.selected_clip,
        final(playback).playback_speed == old(playback).playback_speed,
        !old(playback).is_playing ==> final(timeline)@ == old(timeline)@
            && !final(playback).is_playing,
        old(playback).is_playing ==> ({
            let reached = moved_on(old(timeline).current_time, dt, old(playback).playback_speed);
            if halts_at(old(timeline)@.tracks, reached) {
                !final(playback).is_playing && final(timeline).current_time == halted_at(
                    old(timeline)@.tracks,
                    reached,
                )
            } else {
                final(playback).is_playing && final(timeline).current_time == reached
            }
        }),
{
    if !playback.is_playing {
        return false;
    }
    let speed: u32 = playback.playback_speed;
    assert(dt as int * speed as int <= 0xffff_ffff * 0xffff_ffff) by (nonlinear_arith)
        requires
            0 <= dt <= 0xffff_ffff,
            0 <= speed <= 0xffff_ffff,
    ;
    let step: u64 = (dt as u64) * (speed as u64) / 1000;
    let before: i64 = timeline.current_time;
    let reached: i64 = checked_sum(before, step as i64);
    let quarters: i128 = (reached as i128) * 4 / 1000;
    let eighths: i128 = (before as i128) * 8 / 1000;
    let preload: bool = reached % 2000 == 0 && quarters != eighths;
    let max_time: i64 = timeline.end_time();
    if max_time > 0 && reached >= max_time {
        playback.is_playing = false;
        timeline.current_time = max_time;
    } else if reached >= TIMELINE_END {
        playback.is_playing = false;
        timeline.current_time = TIMELINE_END;
    } else {
        timeline.current_time = reached;
    }
    preload
}

} // verus!
