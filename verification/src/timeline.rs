//! The timeline: tracks of clips, the playback position and the selection.
//!
//! Times are in milliseconds from the start of the timeline.

use crate::media::{Media, VideoFile};
use crate::numeral::{decimal_digits, decimal_string};
use crate::scan::{occurs_at, starts_at};
use vstd::prelude::*;
use vstd::string::StringExecFns;
use vstd::utf8::encode_utf8;

verus! {

/// Playback never runs past this time, whatever the timeline holds.
pub const TIMELINE_END: i64 = 300_000;

/// A frame is never asked for closer than this to the end of its clip.
pub const CLIP_END_MARGIN: i64 = 100;

/// What a track holds.
#[derive(Clone, Copy, Debug, PartialEq, Eq, Structural)]
pub enum TrackKind {
    Video,
    Audio,
    Effect,
}

impl Default for TrackKind {
    /// A picture track.
    fn default() -> (kind: TrackKind)
        ensures
            kind == TrackKind::Video,
    {
        TrackKind::Video
    }
}

/// A piece of media placed on a track.
pub struct Clip {
    pub start_time: i64,
    pub duration: i64,
    pub media: Media,
    pub is_being_dragged: bool,
    pub drag_offset: i64,
}

/// A row of clips.
pub struct Track {
    pub kind: TrackKind,
    pub clips: Vec<Clip>,
}

impl Default for Track {
    /// An empty picture track.
    fn default() -> (track: Track)
        ensures
            track.kind == TrackKind::Video,
            track.clips@.len() == 0,
    {
        Track { kind: TrackKind::Video, clips: Vec::new() }
    }
}

/// A media file that is being dragged out of the library.
#[derive(Debug)]
pub struct DraggedMedia {
    pub video_index: usize,
    pub video_file: VideoFile,
}

impl Clone for DraggedMedia {
    fn clone(&self) -> (copy: DraggedMedia)
        ensures
            copy.video_index == self.video_index,
            copy.video_file.same_as(&self.video_file),
    {
        DraggedMedia { video_index: self.video_index, video_file: self.video_file.clone() }
    }
}

/// A media file has been dropped on a track.
#[derive(Debug)]
pub struct TimelineDropEvent {
    pub dragged_media: DraggedMedia,
    pub track_index: usize,
    pub drop_time: i64,
}

/// A clip that is being dragged along its track.
#[derive(Debug)]
pub struct DraggedClip {
    pub track_index: usize,
    pub clip_index: usize,
    pub original_start_time: i64,
}

/// One step of dragging a clip along its track.
#[derive(Clone, Copy, Debug)]
pub enum DragStep {
    /// The clip has been taken hold of, `offset` milliseconds into it.
    Start { offset: i64 },
    /// The pointer has moved to `position` on the timeline.
    Move { position: i64 },
    /// The clip has been let go.
    Stop,
}

/// The timeline.
pub struct TimeLine {
    pub tracks: Vec<Track>,
    pub current_time: i64,
    /// The selected clip, as the index of its track and its index on it.
    pub selected_clip: Option<(usize, usize)>,
}

/// The test clip: ten seconds of the video `test_video` at the start of the
/// timeline.
pub fn create_test_clip() -> (clip: Clip)
    ensures
        clip.start_time == 0,
        clip.duration == 10_000,
        clip.media matches Media::Video(path) && path@ == "test_video"@,
        !clip.is_being_dragged,
        clip.drag_offset == 0,
{
    Clip {
        start_time: 0,
        duration: 10_000,
        media: Media::Video(String::from_str("test_video")),
        is_being_dragged: false,
        drag_offset: 0,
    }
}

/// `a - b`, held within the range of `i64`.
pub open spec fn difference(a: i64, b: i64) -> i64 {
    if a - b > i64::MAX {
        i64::MAX
    } else if a - b < i64::MIN {
        i64::MIN
    } else {
        (a - b) as i64
    }
}

/// `a + b`, held within the range of `i64`.
pub open spec fn sum(a: i64, b: i64) -> i64 {
    if a + b > i64::MAX {
        i64::MAX
    } else if a + b < i64::MIN {
        i64::MIN
    } else {
        (a + b) as i64
    }
}

/// Computes `a - b`, held within the range of `i64`.
pub fn checked_difference(a: i64, b: i64) -> (r: i64)
    ensures
        r == difference(a, b),
{
    let wide: i128 = (a as i128) - (b as i128);
    if wide > i64::MAX as i128 {
        i64::MAX
    } else if wide < i64::MIN as i128 {
        i64::MIN
    } else {
        wide as i64
    }
}

/// Computes `a + b`, held within the range of `i64`.
pub fn checked_sum(a: i64, b: i64) -> (r: i64)
    ensures
        r == sum(a, b),
{
    let wide: i128 = (a as i128) + (b as i128);
    if wide > i64::MAX as i128 {
        i64::MAX
    } else if wide < i64::MIN as i128 {
        i64::MIN
    } else {
        wide as i64
    }
}

impl Clip {
    /// The clip after one step of dragging. Taking hold marks it as dragged
    /// and notes where it was taken hold of. A move puts its start where the
    /// pointer is, less that offset, but never before the start of the
    /// timeline. Letting go ends the dragging.
    pub open spec fn dragged(self, step: DragStep) -> Clip {
        match step {
            DragStep::Start { offset } => Clip {
                is_being_dragged: true,
                drag_offset: offset,
                ..self
            },
            DragStep::Move { position } => Clip {
                start_time: if difference(position, self.drag_offset) < 0 {
                    0
                } else {
                    difference(position, self.drag_offset)
                },
                ..self
            },
            DragStep::Stop => Clip { is_being_dragged: false, ..self },
        }
    }

    /// The time at which the clip ends.
    pub open spec fn end_time(self) -> i64 {
        sum(self.start_time, self.duration)
    }

    /// The clip is shown at `time`.
    pub open spec fn covers(self, time: i64) -> bool {
        self.start_time <= time < self.end_time()
    }

    /// The clip is a video that is shown at `time`.
    pub open spec fn shows_video_at(self, time: i64) -> bool {
        self.covers(time) && self.media is Video
    }

    /// The time within the clip's video that is shown at `time` on the
    /// timeline, kept a tenth of a second before the end of the clip.
    pub open spec fn video_time(self, time: i64) -> i64 {
        let relative = difference(time, self.start_time);
        let latest = difference(self.duration, CLIP_END_MARGIN);
        if relative < latest {
            relative
        } else {
            latest
        }
    }
}

/// What a [`Track`] holds, as plain values.
pub ghost struct TrackView {
    pub kind: TrackKind,
    pub clips: Seq<Clip>,
}

impl View for Track {
    type V = TrackView;

    open spec fn view(&self) -> TrackView {
        TrackView { kind: self.kind, clips: self.clips@ }
    }
}

/// What a [`TimeLine`] holds, as plain values.
pub ghost struct TimeLineView {
    pub tracks: Seq<TrackView>,
    pub current_time: i64,
    pub selected_clip: Option<(usize, usize)>,
}

impl View for TimeLine {
    type V = TimeLineView;

    open spec fn view(&self) -> TimeLineView {
        TimeLineView {
            tracks: self.tracks@.map_values(|t: Track| t@),
            current_time: self.current_time,
            selected_clip: self.selected_clip,
        }
    }
}

/// The selection after the clip `(track, clip)` has been taken off: it is
/// cleared where it named that clip, follows its clip one place down where
/// it named a later clip of the same track, and stays otherwise.
pub open spec fn selection_after_delete(
    selection: Option<(usize, usize)>,
    track: usize,
    clip: usize,
) -> Option<(usize, usize)> {
    match selection {
        Some((selected_track, selected_clip)) => if selected_track == track && selected_clip
            == clip {
            None
        } else if selected_track == track && selected_clip > clip {
            Some((selected_track, (selected_clip - 1) as usize))
        } else {
            selection
        },
        None => None,
    }
}

impl TimeLineView {
    /// `(track, clip)` names a clip of the timeline.
    pub open spec fn has_clip(self, track: int, clip: int) -> bool {
        0 <= track < self.tracks.len() && 0 <= clip < self.tracks[track].clips.len()
    }

    /// The clip that the selection names, if it names one.
    pub open spec fn selected(self) -> Option<Clip> {
        match self.selected_clip {
            Some((track, clip)) => if self.has_clip(track as int, clip as int) {
                Some(self.tracks[track as int].clips[clip as int])
            } else {
                None
            },
            None => None,
        }
    }

    /// The timeline with the clips of the track `track` replaced by
    /// `clips`.
    pub open spec fn with_clips(self, track: int, clips: Seq<Clip>) -> TimeLineView {
        TimeLineView {
            tracks: self.tracks.update(track, TrackView { clips, ..self.tracks[track] }),
            ..self
        }
    }

    /// The timeline after one step of dragging the clip `(track, clip)`;
    /// unchanged where that names no clip.
    pub open spec fn dragged(self, track: int, clip: int, step: DragStep) -> TimeLineView {
        if self.has_clip(track, clip) {
            self.with_clips(
                track,
                self.tracks[track].clips.update(clip, self.tracks[track].clips[clip].dragged(step)),
            )
        } else {
            self
        }
    }

    /// The timeline after the clip `(track, clip)` has been taken off its
    /// track, the selection following; unchanged where that names no clip.
    pub open spec fn without_clip(self, track: usize, clip: usize) -> TimeLineView {
        if self.has_clip(track as int, clip as int) {
            TimeLineView {
                selected_clip: selection_after_delete(self.selected_clip, track, clip),
                ..self.with_clips(track as int, self.tracks[track as int].clips.remove(clip as int))
            }
        } else {
            self
        }
    }

    /// The timeline after the selected clip has been taken off its track
    /// and the selection cleared; unchanged where nothing is selected or the
    /// selection names no clip.
    pub open spec fn without_selected(self) -> TimeLineView {
        match self.selected_clip {
            Some((track, clip)) => if self.has_clip(track as int, clip as int) {
                TimeLineView {
                    selected_clip: None,
                    ..self.with_clips(
                        track as int,
                        self.tracks[track as int].clips.remove(clip as int),
                    )
                }
            } else {
                self
            },
            None => self,
        }
    }

    /// The timeline after the steps of dragging `steps` have been applied
    /// one after the other.
    pub open spec fn dragged_all(self, steps: Seq<(usize, usize, DragStep)>) -> TimeLineView
        decreases steps.len(),
    {
        if steps.len() == 0 {
            self
        } else {
            let last = steps.last();
            self.dragged_all(steps.drop_last()).dragged(last.0 as int, last.1 as int, last.2)
        }
    }

    /// The timeline after the clips that `marks` names have been taken off
    /// one after the other.
    pub open spec fn without_clips(self, marks: Seq<(usize, usize)>) -> TimeLineView
        decreases marks.len(),
    {
        if marks.len() == 0 {
            self
        } else {
            let last = marks.last();
            self.without_clips(marks.drop_last()).without_clip(last.0, last.1)
        }
    }
}

/// The number of marks at the head of `marks` whose clip index is at least
/// `clip`.
pub open spec fn later_marks(marks: Seq<(usize, usize)>, clip: usize) -> nat
    decreases marks.len(),
{
    if marks.len() > 0 && marks[0].1 >= clip {
        1 + later_marks(marks.drop_first(), clip)
    } else {
        0
    }
}

/// `marks` in the order in which the clips are taken off: by falling clip
/// index, so that taking one clip off never moves a clip that is still to be
/// taken off; marks with the same clip index keep their order.
pub open spec fn deletion_order(marks: Seq<(usize, usize)>) -> Seq<(usize, usize)>
    decreases marks.len(),
{
    if marks.len() == 0 {
        marks
    } else {
        let ordered = deletion_order(marks.drop_last());
        ordered.insert(later_marks(ordered, marks.last().1) as int, marks.last())
    }
}

/// The clip indices of `marks` never rise.
pub open spec fn falling(marks: Seq<(usize, usize)>) -> bool {
    forall|i: int, j: int| 0 <= i <= j < marks.len() ==> marks[i].1 >= marks[j].1
}

/// The place of a new mark lies within the marks; everything before it has
/// a clip index at least as large, and in falling marks everything from it
/// on has a smaller one.
pub proof fn lemma_later_marks(marks: Seq<(usize, usize)>, clip: usize)
    ensures
        later_marks(marks, clip) <= marks.len(),
        forall|i: int| 0 <= i < later_marks(marks, clip) ==> (#[trigger] marks[i]).1 >= clip,
        falling(marks) ==> forall|i: int|
            later_marks(marks, clip) <= i < marks.len() ==> (#[trigger] marks[i]).1 < clip,
    decreases marks.len(),
{
    if marks.len() > 0 && marks[0].1 >= clip {
        let tail = marks.drop_first();
        lemma_later_marks(tail, clip);
        assert forall|i: int| 0 <= i < later_marks(marks, clip) implies (#[trigger] marks[i]).1
            >= clip by {
            if i > 0 {
                assert(tail[i - 1] == marks[i]);
            }
        }
        if falling(marks) {
            assert forall|i: int| later_marks(marks, clip) <= i < marks.len() implies (
            #[trigger] marks[i]).1 < clip by {
                assert(tail[i - 1] == marks[i]);
            }
        }
    }
}

/// The order of deletion is falling and holds as many marks as were given.
pub proof fn lemma_deletion_order_falling(marks: Seq<(usize, usize)>)
    ensures
        falling(deletion_order(marks)),
        deletion_order(marks).len() == marks.len(),
    decreases marks.len(),
{
    if marks.len() > 0 {
        lemma_deletion_order_falling(marks.drop_last());
        let ordered = deletion_order(marks.drop_last());
        let mark = marks.last();
        lemma_later_marks(ordered, mark.1);
    }
}

/// Puts `marks` into the order in which the clips are taken off.
pub fn order_deletions(marks: &Vec<(usize, usize)>) -> (ordered: Vec<(usize, usize)>)
    ensures
        ordered@ == deletion_order(marks@),
{
    let mut ordered: Vec<(usize, usize)> = Vec::new();
    let n: usize = marks.len();
    let mut i: usize = 0;
    while i < n
        invariant
            n == marks@.len(),
            i <= n,
            ordered@ == deletion_order(marks@.take(i as int)),
        decreases n - i,
    {
        let mark: (usize, usize) = marks[i];
        let m: usize = ordered.len();
        let mut at: usize = 0;
        proof {
            assert(ordered@.skip(0) =~= ordered@);
        }
        while at < m && ordered[at].1 >= mark.1
            invariant
                m == ordered@.len(),
                at <= m,
                later_marks(ordered@, mark.1) == at + later_marks(ordered@.skip(at as int), mark.1),
            decreases m - at,
        {
            proof {
                let tail = ordered@.skip(at as int);
                assert(tail.drop_first() =~= ordered@.skip(at + 1));
            }
            at += 1;
        }
        proof {
            let next = marks@.take(i + 1);
            assert(next.drop_last() =~= marks@.take(i as int));
        }
        ordered.insert(at, mark);
        i += 1;
    }
    proof {
        assert(marks@.take(n as int) =~= marks@);
    }
    ordered
}

impl TimeLine {
    /// An empty timeline at time zero with nothing selected.
    pub fn new() -> (timeline: Self)
        ensures
            timeline@ == (TimeLineView {
                tracks: Seq::empty(),
                current_time: 0,
                selected_clip: None,
            }),
    {
        let timeline = TimeLine { tracks: Vec::new(), current_time: 0, selected_clip: None };
        assert(timeline@.tracks =~= Seq::<TrackView>::empty());
        timeline
    }

    /// Tells whether `(track, clip)` names a clip of the timeline.
    pub fn contains_clip(&self, track: usize, clip: usize) -> (found: bool)
        ensures
            found == self@.has_clip(track as int, clip as int),
    {
        track < self.tracks.len() && clip < self.tracks[track].clips.len()
    }

    /// Takes the selected clip off its track and clears the selection.
    /// Nothing changes where nothing is selected or the selection names no
    /// clip.
    pub fn delete_selected_clip(&mut self)
        ensures
            final(self)@ == old(self)@.without_selected(),
    {
        if let Some((track_index, clip_index)) = self.selected_clip {
            if self.contains_clip(track_index, clip_index) {
                self.tracks[track_index].clips.remove(clip_index);
                self.selected_clip = None;
                assert(self@.tracks =~= old(self)@.without_selected().tracks);
            }
        }
    }

    /// Returns the selected clip.
    pub fn get_selected_clip(&self) -> (clip: Option<&Clip>)
        ensures
            match clip {
                Some(found) => self@.selected() == Some(*found),
                None => self@.selected() is None,
            },
    {
        if let Some((track_index, clip_index)) = self.selected_clip {
            if self.contains_clip(track_index, clip_index) {
                return Some(&self.tracks[track_index].clips[clip_index]);
            }
        }
        None
    }

    /// Applies one step of dragging to the clip `(track, clip)`. Nothing
    /// changes where that names no clip.
    pub fn apply_drag(&mut self, track: usize, clip: usize, step: DragStep)
        ensures
            final(self)@ == old(self)@.dragged(track as int, clip as int, step),
    {
        if self.contains_clip(track, clip) {
            match step {
                DragStep::Start { offset } => {
                    self.tracks[track].clips[clip].is_being_dragged = true;
                    self.tracks[track].clips[clip].drag_offset = offset;
                },
                DragStep::Move { position } => {
                    let offset: i64 = self.tracks[track].clips[clip].drag_offset;
                    let start: i64 = checked_difference(position, offset);
                    self.tracks[track].clips[clip].start_time = if start < 0 {
                        0
                    } else {
                        start
                    };
                },
                DragStep::Stop => {
                    self.tracks[track].clips[clip].is_being_dragged = false;
                },
            }
            proof {
                let wanted = old(self)@.dragged(track as int, clip as int, step);
                assert(self@.tracks[track as int].clips =~= wanted.tracks[track as int].clips);
                assert(self@.tracks =~= wanted.tracks);
            }
        }
    }

    /// Applies steps of dragging one after the other.
    pub fn apply_drags(&mut self, steps: &Vec<(usize, usize, DragStep)>)
        ensures
            final(self)@ == old(self)@.dragged_all(steps@),
    {
        let n: usize = steps.len();
        let mut i: usize = 0;
        while i < n
            invariant
                n == steps@.len(),
                i <= n,
                self@ == old(self)@.dragged_all(steps@.take(i as int)),
            decreases n - i,
        {
            let step: (usize, usize, DragStep) = steps[i];
            proof {
                let next = steps@.take(i + 1);
                assert(next.drop_last() =~= steps@.take(i as int));
            }
            self.apply_drag(step.0, step.1, step.2);
            i += 1;
        }
        proof {
            assert(steps@.take(n as int) =~= steps@);
        }
    }

    /// Takes the clip `(track, clip)` off its track and lets the selection
    /// follow. Nothing changes where that names no clip.
    pub fn delete_clip(&mut self, track: usize, clip: usize)
        ensures
            final(self)@ == old(self)@.without_clip(track, clip),
    {
        if self.contains_clip(track, clip) {
            self.tracks[track].clips.remove(clip);
            match self.selected_clip {
                Some((selected_track, selected_clip)) => {
                    if selected_track == track && selected_clip == clip {
                        self.selected_clip = None;
                    } else if selected_track == track && selected_clip > clip {
                        self.selected_clip = Some((selected_track, selected_clip - 1));
                    }
                },
                None => {},
            }
            assert(self@.tracks =~= old(self)@.without_clip(track, clip).tracks);
        }
    }

    /// Takes the clips that `marks` names off their tracks, those with the
    /// larger clip index first.
    pub fn delete_clips(&mut self, marks: &Vec<(usize, usize)>)
        ensures
            final(self)@ == old(self)@.without_clips(deletion_order(marks@)),
    {
        let ordered: Vec<(usize, usize)> = order_deletions(marks);
        let n: usize = ordered.len();
        let mut i: usize = 0;
        while i < n
            invariant
                n == ordered@.len(),
                i <= n,
                self@ == old(self)@.without_clips(ordered@.take(i as int)),
            decreases n - i,
        {
            let mark: (usize, usize) = ordered[i];
            proof {
                let next = ordered@.take(i + 1);
                assert(next.drop_last() =~= ordered@.take(i as int));
            }
            self.delete_clip(mark.0, mark.1);
            i += 1;
        }
        proof {
            assert(ordered@.take(n as int) =~= ordered@);
        }
    }
}

/// The bytes `text` end with the bytes `tail`.
pub open spec fn ends_with(text: Seq<u8>, tail: Seq<u8>) -> bool {
    occurs_at(text, tail, text.len() - tail.len())
}

impl Clip {
    /// The clip shows a video whose path ends with `tail`.
    pub open spec fn video_path_ends_with(self, tail: Seq<u8>) -> bool {
        match self.media {
            Media::Video(path) => ends_with(encode_utf8(path@), tail),
            _ => false,
        }
    }
}

/// The bytes of `index` written in decimal.
pub open spec fn index_text(index: usize) -> Seq<u8> {
    encode_utf8(decimal_digits(index as nat))
}

/// Tells whether the clip shows a video whose path ends with `tail`.
fn clip_ends_with(clip: &Clip, tail: &[u8]) -> (r: bool)
    ensures
        r == clip.video_path_ends_with(tail@),
{
    match &clip.media {
        Media::Video(path) => {
            let text: &[u8] = path.as_str().as_bytes();
            let n: usize = text.len();
            let m: usize = tail.len();
            if m > n {
                false
            } else {
                starts_at(text, tail, n - m)
            }
        },
        _ => false,
    }
}

/// Takes every clip off `clips` that shows a video whose path ends with
/// `tail`.
fn drop_videos_ending_with(clips: &mut Vec<Clip>, tail: &[u8])
    ensures
        final(clips)@ == old(clips)@.filter(|c: Clip| !c.video_path_ends_with(tail@)),
{
    let ghost keep = |c: Clip| !c.video_path_ends_with(tail@);
    let ghost all = clips@;
    let total: usize = clips.len();
    let mut i: usize = 0;
    let mut seen: usize = 0;
    while seen < total
        invariant
            total == all.len(),
            i <= seen <= total,
            keep == |c: Clip| !c.video_path_ends_with(tail@),
            clips@.len() == i + (total - seen),
            clips@.take(i as int) == all.take(seen as int).filter(keep),
            clips@.skip(i as int) == all.skip(seen as int),
        decreases total - seen,
    {
        let ghost before = clips@;
        proof {
            reveal(Seq::filter);
            assert(before[i as int] == before.skip(i as int)[0]);
            let next = all.take(seen + 1);
            assert(next.drop_last() =~= all.take(seen as int));
        }
        if clip_ends_with(&clips[i], tail) {
            clips.remove(i);
            proof {
                assert(clips@.skip(i as int) =~= before.skip(i as int).drop_first());
            }
        } else {
            proof {
                assert(before.skip(i + 1) =~= before.skip(i as int).drop_first());
            }
            i += 1;
        }
        seen += 1;
    }
    proof {
        assert(all.take(total as int) =~= all);
    }
}

impl TimeLineView {
    /// The timeline after the video with the number `index` has been taken
    /// out of the library: every clip that shows a video whose path ends
    /// with that number is gone, and nothing is selected.
    pub open spec fn without_video(self, index: usize) -> TimeLineView {
        TimeLineView {
            tracks: self.tracks.map_values(
                |t: TrackView|
                    TrackView {
                        kind: t.kind,
                        clips: t.clips.filter(
                            |c: Clip| !c.video_path_ends_with(index_text(index)),
                        ),
                    },
            ),
            current_time: self.current_time,
            selected_clip: None,
        }
    }
}

impl TimeLine {
    /// Takes every clip off the timeline that shows a video whose path ends
    /// with the number `index`, and clears the selection.
    pub fn forget_video(&mut self, index: usize)
        ensures
            final(self)@ == old(self)@.without_video(index),
    {
        let number: String = decimal_string(index as u64);
        let tail: &[u8] = number.as_str().as_bytes();
        let n: usize = self.tracks.len();
        let mut t: usize = 0;
        while t < n
            invariant
                n == self.tracks@.len(),
                n == old(self).tracks@.len(),
                t <= n,
                tail@ == index_text(index),
                self.current_time == old(self).current_time,
                forall|k: int|
                    0 <= k < t ==> (#[trigger] self.tracks@[k])@ == old(self)@.without_video(
                        index,
                    ).tracks[k],
                forall|k: int| t <= k < n ==> #[trigger] self.tracks@[k] == old(self).tracks@[k],
            decreases n - t,
        {
            drop_videos_ending_with(&mut self.tracks[t].clips, tail);
            t += 1;
        }
        self.selected_clip = None;
        assert(self@.tracks =~= old(self)@.without_video(index).tracks);
    }
}

impl Default for TimeLine {
    /// An empty timeline at time zero with nothing selected.
    fn default() -> (timeline: Self)
        ensures
            timeline@ == (TimeLineView {
                tracks: Seq::empty(),
                current_time: 0,
                selected_clip: None,
            }),
    {
        TimeLine::new()
    }
}

} // verus!
