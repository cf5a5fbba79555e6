//! Picking frames out of a video for writing them to disk.
//!
//! Every so many frames one frame is kept, until enough have been kept.
//! Decoding the video and writing the pictures is left to the caller; a
//! [`FrameSampler`] is told of each decoded frame and says whether to keep
//! it, under which name, and whether to go on.

use crate::numeral::{append_radix, decimal_digits};
use vstd::prelude::*;
use vstd::string::StringExecFns;

verus! {

/// The zeros that are written before `index` so that it takes five places.
pub open spec fn leading_zeros(index: usize) -> Seq<char> {
    if index < 10 {
        "0000"@
    } else if index < 100 {
        "000"@
    } else if index < 1000 {
        "00"@
    } else if index < 10_000 {
        "0"@
    } else {
        ""@
    }
}

/// The name of the picture of the frame `index`: `frame_`, the index in
/// decimal on at least five places, and `.png`.
pub open spec fn picture_name(index: usize) -> Seq<char> {
    "frame_"@ + leading_zeros(index) + decimal_digits(index as nat) + ".png"@
}

/// The path of the picture of the frame `index` under `output_dir`: the
/// directory, a slash and the name of the picture.
pub open spec fn picture_path_of(output_dir: Seq<char>, index: usize) -> Seq<char> {
    output_dir + "/"@ + picture_name(index)
}

/// Computes the path of the picture of the frame `index` under
/// `output_dir`.
pub fn picture_path(output_dir: &str, index: usize) -> (path: String)
    ensures
        path@ == picture_path_of(output_dir@, index),
{
    let mut name: String = String::from_str(output_dir);
    name.append("/");
    name.append("frame_");
    let zeros: &str = if index < 10 {
        "0000"
    } else if index < 100 {
        "000"
    } else if index < 1000 {
        "00"
    } else if index < 10_000 {
        "0"
    } else {
        ""
    };
    name.append(zeros);
    append_radix(&mut name, index as u64, 10);
    name.append(".png");
    name
}

/// What to do with one decoded frame.
pub struct FrameDecision {
    /// The index under which the frame is kept, if it is kept.
    pub keep: Option<usize>,
    /// Enough frames have been kept: no further frame is needed.
    pub done: bool,
}

/// Counts the frames that have been decoded and those that have been kept.
pub struct FrameSampler {
    /// One frame in so many is kept.
    pub every_nth: usize,
    /// The number of frames after which no more are kept.
    pub max_frames: usize,
    /// The number of frames decoded so far.
    pub frame_index: usize,
    /// The number of frames kept so far.
    pub saved: usize,
}

impl FrameSampler {
    /// The sampler can count on: it keeps one frame in at least one, and
    /// has kept no more frames than it has seen.
    pub open spec fn wf(&self) -> bool {
        self.every_nth > 0 && self.saved <= self.frame_index
    }

    /// The next frame is kept.
    pub open spec fn keeps_next(&self) -> bool {
        self.frame_index % self.every_nth == 0 && self.saved < self.max_frames
    }

    /// Enough frames have been kept.
    pub open spec fn enough(&self) -> bool {
        self.saved >= self.max_frames
    }

    /// A sampler that has seen no frame.
    pub fn new(every_nth: usize, max_frames: usize) -> (sampler: Self)
        requires
            every_nth > 0,
        ensures
            sampler.wf(),
            sampler.every_nth == every_nth,
            sampler.max_frames == max_frames,
            sampler.frame_index == 0,
            sampler.saved == 0,
    {
        FrameSampler { every_nth, max_frames, frame_index: 0, saved: 0 }
    }

    /// Takes note of one decoded frame. The frame is kept where its index
    /// is a multiple of the step and not enough frames have been kept yet.
    pub fn next_frame(&mut self) -> (decision: FrameDecision)
        requires
            old(self).wf(),
            old(self).frame_index < usize::MAX,
        ensures
            final(self).wf(),
            final(self).every_nth == old(self).every_nth,
            final(self).max_frames == old(self).max_frames,
            final(self).frame_index == old(self).frame_index + 1,
            final(self).saved == if old(self).keeps_next() {
                old(self).saved + 1
            } else {
                old(self).saved as int
            },
            decision.keep == if old(self).keeps_next() {
                Some(old(self).frame_index)
            } else {
                None
            },
            decision.done == final(self).enough(),
    {
        let keep: Option<usize> = if self.frame_index % self.every_nth == 0 && self.saved
            < self.max_frames {
            self.saved += 1;
            Some(self.frame_index)
        } else {
            None
        };
        self.frame_index += 1;
        FrameDecision { keep, done: self.saved >= self.max_frames }
    }

    /// Tells whether enough frames have been kept.
    pub fn is_done(&self) -> (done: bool)
        ensures
            done == self.enough(),
    {
        self.saved >= self.max_frames
    }
}

} // verus!
