//! Media files and what is known about them.
//!
//! Durations are in milliseconds, frame rates in thousandths of a frame per
//! second. Probing a file is left to the caller, who hands in what the
//! container reports; this module turns the report into a [`VideoFile`].

use vstd::prelude::*;
use vstd::string::StringExecFns;

verus! {

/// Something that can be put on the timeline, by its path or its text.
#[derive(Debug)]
pub enum Media {
    Video(String),
    Audio(String),
    Effect(String),
    Image(String),
    Text(String),
}

impl Clone for Media {
    fn clone(&self) -> (copy: Media)
        ensures
            copy == *self,
    {
        match self {
            Media::Video(s) => Media::Video(s.clone()),
            Media::Audio(s) => Media::Audio(s.clone()),
            Media::Effect(s) => Media::Effect(s.clone()),
            Media::Image(s) => Media::Image(s.clone()),
            Media::Text(s) => Media::Text(s.clone()),
        }
    }
}

/// One sound track of a video file.
#[derive(Debug)]
pub struct AudioTrack {
    pub path: String,
    pub duration: u64,
    pub sample_rate: u32,
    pub channels: u32,
    pub format: String,
}

impl Clone for AudioTrack {
    fn clone(&self) -> (copy: AudioTrack)
        ensures
            copy == *self,
    {
        AudioTrack {
            path: self.path.clone(),
            duration: self.duration,
            sample_rate: self.sample_rate,
            channels: self.channels,
            format: self.format.clone(),
        }
    }
}

/// A video file and what is known about it.
#[derive(Debug)]
pub struct VideoFile {
    pub path: String,
    pub duration: u64,
    pub resolution: (u32, u32),
    pub frame_rate: u32,
    pub audio_tracks: Vec<AudioTrack>,
}

impl VideoFile {
    /// `other` holds what this file holds.
    pub open spec fn same_as(&self, other: &VideoFile) -> bool {
        &&& self.path == other.path
        &&& self.duration == other.duration
        &&& self.resolution == other.resolution
        &&& self.frame_rate == other.frame_rate
        &&& self.audio_tracks@ == other.audio_tracks@
    }
}

impl Clone for VideoFile {
    fn clone(&self) -> (copy: VideoFile)
        ensures
            copy.same_as(self),
    {
        let mut audio_tracks: Vec<AudioTrack> = Vec::new();
        let n: usize = self.audio_tracks.len();
        let mut i: usize = 0;
        while i < n
            invariant
                n == self.audio_tracks@.len(),
                i <= n,
                audio_tracks@ == self.audio_tracks@.take(i as int),
            decreases n - i,
        {
            audio_tracks.push(self.audio_tracks[i].clone());
            i += 1;
        }
        assert(self.audio_tracks@.take(n as int) =~= self.audio_tracks@);
        VideoFile {
            path: self.path.clone(),
            duration: self.duration,
            resolution: self.resolution,
            frame_rate: self.frame_rate,
            audio_tracks,
        }
    }
}

/// A sound file.
pub struct AudioFile {
    pub path: String,
    pub duration: u64,
}

/// The files that have been brought into the editor.
pub struct MediaLibrary {
    pub videos: Vec<VideoFile>,
    pub audios: Vec<AudioFile>,
}

impl Default for MediaLibrary {
    /// A library without files.
    fn default() -> (library: MediaLibrary)
        ensures
            library.videos@.len() == 0,
            library.audios@.len() == 0,
    {
        MediaLibrary { videos: Vec::new(), audios: Vec::new() }
    }
}

/// What a container reports of one of its streams.
#[derive(Clone, Copy, Debug)]
pub enum StreamReport {
    /// A picture stream with its average frame rate as a fraction.
    Video { rate_numerator: i32, rate_denominator: i32 },
    /// A sound stream.
    Audio,
    /// Any other stream.
    Other,
}

/// What a container reports of itself.
pub struct MediaReport {
    /// The length of the file in microseconds; not positive where unknown.
    pub duration_micros: i64,
    /// The streams in the order of the container.
    pub streams: Vec<StreamReport>,
}

/// The duration that stands in for an unknown one.
pub const FALLBACK_DURATION: u64 = 60_000;

/// The resolution that every video file is given.
pub const FALLBACK_RESOLUTION: (u32, u32) = (1920, 1080);

/// The frame rate that stands in for an unknown one.
pub const FALLBACK_FRAME_RATE: u32 = 30_000;

/// The sample rate that every sound track is given.
pub const ASSUMED_SAMPLE_RATE: u32 = 44_100;

/// The number of channels that every sound track is given.
pub const ASSUMED_CHANNELS: u32 = 2;

/// The reported length in milliseconds; zero where it is unknown.
pub open spec fn reported_duration(duration_micros: i64) -> u64 {
    if duration_micros > 0 {
        (duration_micros / 1000) as u64
    } else {
        0
    }
}

/// The frame rate `numerator / denominator` in thousandths, held at the
/// largest `u32`; zero where the fraction is not positive.
pub open spec fn rate_of_fraction(numerator: i32, denominator: i32) -> u32 {
    if numerator > 0 && denominator > 0 {
        let wide = numerator as int * 1000 / denominator as int;
        if wide > u32::MAX {
            u32::MAX
        } else {
            wide as u32
        }
    } else {
        0
    }
}

/// The frame rate that the streams report: that of the last picture stream
/// whose rate has a positive denominator, and zero where there is none.
pub open spec fn reported_frame_rate(streams: Seq<StreamReport>) -> u32
    decreases streams.len(),
{
    if streams.len() == 0 {
        0
    } else {
        match streams.last() {
            StreamReport::Video { rate_numerator, rate_denominator } if rate_denominator > 0 => {
                rate_of_fraction(rate_numerator, rate_denominator)
            },
            _ => reported_frame_rate(streams.drop_last()),
        }
    }
}

/// The number of sound streams among `streams`.
pub open spec fn audio_streams(streams: Seq<StreamReport>) -> nat {
    streams.filter(|s: StreamReport| s is Audio).len()
}

/// `value`, or `fallback` where `value` is zero.
pub open spec fn or_fallback(value: int, fallback: int) -> int {
    if value == 0 {
        fallback
    } else {
        value
    }
}

/// The sound track at `path` is the one that stands for a sound stream of a
/// file of `duration` milliseconds.
pub open spec fn is_assumed_track(track: AudioTrack, path: Seq<char>, duration: u64) -> bool {
    &&& track.path@ == path
    &&& track.duration == duration
    &&& track.sample_rate == ASSUMED_SAMPLE_RATE
    &&& track.channels == ASSUMED_CHANNELS
    &&& track.format@ == "unknown"@
}

impl VideoFile {
    /// Turns what the container of the file at `path` reports into a
    /// [`VideoFile`]. An unknown duration counts as one minute and an
    /// unknown frame rate as thirty frames per second. The resolution is
    /// always full HD. Every sound stream gives one sound track with the
    /// reported duration, which is zero where the duration is unknown.
    pub fn from_path(path: &str, report: &MediaReport) -> (file: VideoFile)
        ensures
            file.path@ == path@,
            file.duration == or_fallback(
                reported_duration(report.duration_micros) as int,
                FALLBACK_DURATION as int,
            ),
            file.resolution == FALLBACK_RESOLUTION,
            file.frame_rate == or_fallback(
                reported_frame_rate(report.streams@) as int,
                FALLBACK_FRAME_RATE as int,
            ),
            file.audio_tracks@.len() == audio_streams(report.streams@),
            forall|i: int|
                0 <= i < file.audio_tracks@.len() ==> is_assumed_track(
                    #[trigger] file.audio_tracks@[i],
                    path@,
                    reported_duration(report.duration_micros),
                ),
    {
        let mut duration: u64 = 0;
        if report.duration_micros > 0 {
            duration = (report.duration_micros / 1000) as u64;
        }
        let ghost measured = duration;
        let mut frame_rate: u32 = 0;
        let mut audio_tracks: Vec<AudioTrack> = Vec::new();
        let ghost is_audio = |s: StreamReport| s is Audio;
        let n: usize = report.streams.len();
        let mut i: usize = 0;
        while i < n
            invariant
                n == report.streams@.len(),
                i <= n,
                measured == reported_duration(report.duration_micros),
                duration == measured,
                is_audio == |s: StreamReport| s is Audio,
                frame_rate == reported_frame_rate(report.streams@.take(i as int)),
                audio_tracks@.len() == report.streams@.take(i as int).filter(is_audio).len(),
                forall|k: int|
                    0 <= k < audio_tracks@.len() ==> is_assumed_track(
                        #[trigger] audio_tracks@[k],
                        path@,
                        measured,
                    ),
            decreases n - i,
        {
            proof {
                reveal(Seq::filter);
                let next = report.streams@.take(i + 1);
                assert(next.drop_last() =~= report.streams@.take(i as int));
            }
            match report.streams[i] {
                StreamReport::Video { rate_numerator, rate_denominator } => {
                    if rate_denominator > 0 {
                        frame_rate = if rate_numerator > 0 {
                            let wide: i64 = (rate_numerator as i64) * 1000 / (
                            rate_denominator as i64);
                            if wide > u32::MAX as i64 {
                                u32::MAX
                            } else {
                                wide as u32
                            }
                        } else {
                            0
                        };
                    }
                },
                StreamReport::Audio => {
                    audio_tracks.push(
                        AudioTrack {
                            path: String::from_str(path),
                            duration,
                            sample_rate: ASSUMED_SAMPLE_RATE,
                            channels: ASSUMED_CHANNELS,
                            format: String::from_str("unknown"),
                        },
                    );
                },
                StreamReport::Other => {},
            }
            i += 1;
        }
        proof {
            assert(report.streams@.take(n as int) =~= report.streams@);
        }
        if duration == 0 {
            duration = FALLBACK_DURATION;
        }
        if frame_rate == 0 {
            frame_rate = FALLBACK_FRAME_RATE;
        }
        VideoFile {
            path: String::from_str(path),
            duration,
            resolution: FALLBACK_RESOLUTION,
            frame_rate,
            audio_tracks,
        }
    }
}

} // verus!
