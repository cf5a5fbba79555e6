//! Reading the transcoder's diagnostic stream.
//!
//! The transcoder reports the length of its input once, after the word
//! `Duration:`, and its position in the input again and again, after
//! `time=`. Both are clock texts of the form `HH:MM:SS.ss`. A
//! [`ProgressTracker`] is fed the stream line by line and turns it into a
//! share of the work done, in thousandths. Lines that hold neither word, or
//! whose clock text cannot be read, change nothing.

use crate::numeral::{clamp_u64, parse_thousandths, thousandths_value};
use crate::scan::{
    find,
    find_byte,
    first_index_of,
    first_occurrence,
    lemma_first_occurrence_found,
    occurs,
    trim,
    trimmed,
};
use vstd::prelude::*;
use vstd::slice::slice_subrange;

verus! {

/// The share reported while the transcoder still runs never goes beyond this
/// many thousandths; only the end of the process makes a proxy complete.
pub const PROGRESS_CAP: u32 = 990;

/// The bytes of `Duration:`.
pub open spec fn duration_tag() -> Seq<u8> {
    seq![
        'D' as u8,
        'u' as u8,
        'r' as u8,
        'a' as u8,
        't' as u8,
        'i' as u8,
        'o' as u8,
        'n' as u8,
        ':' as u8,
    ]
}

/// The bytes of `time=`.
pub open spec fn time_tag() -> Seq<u8> {
    seq!['t' as u8, 'i' as u8, 'm' as u8, 'e' as u8, '=' as u8]
}

/// The text of `line` from index `start` up to the first `stop` byte after
/// it, without the white space at its ends; `None` where no `stop` byte
/// follows.
pub open spec fn field_after(line: Seq<u8>, start: int, stop: u8) -> Option<Seq<u8>> {
    let rest = line.skip(start);
    match first_index_of(rest, stop) {
        Some(end) => Some(trimmed(rest.take(end))),
        None => None,
    }
}

/// The clock text that `line` reports. Where the line holds `Duration:`, it
/// is the text between the first `Duration:` and the next comma; otherwise,
/// where it holds `time=`, the text between the first `time=` and the next
/// blank.
pub open spec fn time_field(line: Seq<u8>) -> Option<Seq<u8>> {
    match first_occurrence(line, duration_tag()) {
        Some(at) => field_after(line, at + 9, ',' as u8),
        None => match first_occurrence(line, time_tag()) {
            Some(at) => field_after(line, at + 5, ' ' as u8),
            None => None,
        },
    }
}

/// The milliseconds that the clock text `s` stands for. The text must hold
/// exactly two colons; the three parts are hours, minutes and seconds, each
/// a decimal number, and a part that cannot be read counts as zero. Any
/// other text stands for zero.
pub open spec fn clock_millis(s: Seq<u8>) -> nat {
    match first_index_of(s, ':' as u8) {
        None => 0,
        Some(a) => {
            let rest = s.skip(a + 1);
            match first_index_of(rest, ':' as u8) {
                None => 0,
                Some(b) => {
                    let last = rest.skip(b + 1);
                    if last.contains(':' as u8) {
                        0
                    } else {
                        thousandths_value(s.take(a)) * 3600 + thousandths_value(rest.take(b))
                            * 60 + thousandths_value(last)
                    }
                },
            }
        },
    }
}

/// The share of the work done at `position` of `duration` milliseconds, in
/// thousandths, held at [`PROGRESS_CAP`]. `duration` is not zero.
pub open spec fn progress_share(position: nat, duration: nat) -> nat {
    let share = position * 1000 / duration;
    if share > 990 {
        990
    } else {
        share
    }
}

fn cut_field(line: &[u8], start: usize, stop: u8) -> (r: Option<&[u8]>)
    requires
        start <= line@.len(),
    ensures
        match r {
            Some(f) => field_after(line@, start as int, stop) == Some(f@),
            None => field_after(line@, start as int, stop) is None,
        },
{
    let rest = slice_subrange(line, start, line.len());
    match find_byte(rest, stop) {
        Some(end) => {
            let raw = slice_subrange(rest, 0, end);
            Some(trim(raw))
        },
        None => None,
    }
}

/// Finds the clock text that a line of the diagnostic stream reports.
pub fn extract_time_string(line: &[u8]) -> (r: Option<&[u8]>)
    ensures
        match r {
            Some(f) => time_field(line@) == Some(f@),
            None => time_field(line@) is None,
        },
{
    let duration: [u8; 9] = [
        'D' as u8,
        'u' as u8,
        'r' as u8,
        'a' as u8,
        't' as u8,
        'i' as u8,
        'o' as u8,
        'n' as u8,
        ':' as u8,
    ];
    let duration_word: &[u8] = duration.as_slice();
    let n: usize = line.len();
    match find(line, duration_word) {
        Some(at) => {
            proof {
                lemma_first_occurrence_found(line@, duration_tag());
                assert(at + 9 <= n);
            }
            cut_field(line, at + 9, ',' as u8)
        },
        None => {
            let time: [u8; 5] = ['t' as u8, 'i' as u8, 'm' as u8, 'e' as u8, '=' as u8];
            let time_word: &[u8] = time.as_slice();
            match find(line, time_word) {
                Some(at) => {
                    proof {
                        lemma_first_occurrence_found(line@, time_tag());
                        assert(at + 5 <= n);
                    }
                    cut_field(line, at + 5, ' ' as u8)
                },
                None => None,
            }
        },
    }
}

/// Reads a clock text into milliseconds; a value beyond the largest `u64`
/// reads as the largest `u64`.
pub fn parse_time_string(text: &[u8]) -> (r: u64)
    ensures
        r == clamp_u64(clock_millis(text@)),
{
    let n: usize = text.len();
    let a: usize = match find_byte(text, ':' as u8) {
        None => {
            return 0;
        },
        Some(a) => a,
    };
    let rest = slice_subrange(text, a + 1, n);
    let b: usize = match find_byte(rest, ':' as u8) {
        None => {
            return 0;
        },
        Some(b) => b,
    };
    let last = slice_subrange(rest, b + 1, rest.len());
    if find_byte(last, ':' as u8).is_some() {
        return 0;
    }
    let hours_text = slice_subrange(text, 0, a);
    let minutes_text = slice_subrange(rest, 0, b);
    let hours: u64 = parse_thousandths(hours_text);
    let minutes: u64 = parse_thousandths(minutes_text);
    let seconds: u64 = parse_thousandths(last);
    let wide: u128 = (hours as u128) * 3600 + (minutes as u128) * 60 + (seconds as u128);
    if wide > u64::MAX as u128 {
        u64::MAX
    } else {
        wide as u64
    }
}

/// What has been learnt from the diagnostic stream of one transcode so far.
pub struct ProgressTracker {
    /// Length of the input in milliseconds; zero until it has been reported.
    pub duration: u64,
    /// The last reported position in the input, in milliseconds.
    pub position: u64,
}

impl ProgressTracker {
    /// The length that the tracker holds after `line`: a line with
    /// `Duration:` sets it while it is still zero and the line's clock text
    /// can be cut out.
    pub open spec fn duration_after(self, line: Seq<u8>) -> u64 {
        if occurs(line, duration_tag()) && self.duration == 0 {
            match time_field(line) {
                Some(f) => clamp_u64(clock_millis(f)),
                None => self.duration,
            }
        } else {
            self.duration
        }
    }

    /// Whether `line` reports a position that counts: it holds `time=`, the
    /// length is known after this line, and the line's clock text can be cut
    /// out.
    pub open spec fn reports_position(self, line: Seq<u8>) -> bool {
        &&& occurs(line, time_tag())
        &&& self.duration_after(line) > 0
        &&& time_field(line) is Some
    }

    /// The position that the tracker holds after `line`.
    pub open spec fn position_after(self, line: Seq<u8>) -> u64 {
        if self.reports_position(line) {
            clamp_u64(clock_millis(time_field(line)->0))
        } else {
            self.position
        }
    }

    /// A tracker that has seen nothing.
    pub fn new() -> (t: Self)
        ensures
            t.duration == 0,
            t.position == 0,
    {
        ProgressTracker { duration: 0, position: 0 }
    }

    /// Takes in one line of the diagnostic stream. Returns the share of the
    /// work done, in thousandths, where the line reports a position that
    /// counts, and `None` where it does not.
    pub fn observe_line(&mut self, line: &[u8]) -> (r: Option<u32>)
        ensures
            final(self).duration == old(self).duration_after(line@),
            final(self).position == old(self).position_after(line@),
            match r {
                Some(share) => old(self).reports_position(line@) && share == progress_share(
                    final(self).position as nat,
                    final(self).duration as nat,
                ),
                None => !old(self).reports_position(line@),
            },
            r matches Some(share) ==> share <= PROGRESS_CAP,
    {
        let duration: [u8; 9] = [
            'D' as u8,
            'u' as u8,
            'r' as u8,
            'a' as u8,
            't' as u8,
            'i' as u8,
            'o' as u8,
            'n' as u8,
            ':' as u8,
        ];
        let duration_word: &[u8] = duration.as_slice();
        let time: [u8; 5] = ['t' as u8, 'i' as u8, 'm' as u8, 'e' as u8, '=' as u8];
        let time_word: &[u8] = time.as_slice();
        if self.duration == 0 && find(line, duration_word).is_some() {
            match extract_time_string(line) {
                Some(text) => {
                    self.duration = parse_time_string(text);
                },
                None => {},
            }
        }
        if self.duration > 0 && find(line, time_word).is_some() {
            match extract_time_string(line) {
                Some(text) => {
                    self.position = parse_time_string(text);
                    let share: u128 = (self.position as u128) * 1000 / (self.duration as u128);
                    if share > 990 {
                        Some(PROGRESS_CAP)
                    } else {
                        Some(share as u32)
                    }
                },
                None => None,
            }
        } else {
            None
        }
    }
}

} // verus!
