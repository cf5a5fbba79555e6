//! Whether the timeline plays, and how fast.

use vstd::prelude::*;

verus! {

/// The slowest playback: a tenth of the normal speed, in thousandths.
pub const MIN_SPEED: u32 = 100;

/// The fastest playback: four times the normal speed, in thousandths.
pub const MAX_SPEED: u32 = 4000;

/// The normal speed, in thousandths.
pub const NORMAL_SPEED: u32 = 1000;

/// The state of playback. The speed is in thousandths of the normal speed.
pub struct PlaybackState {
    pub is_playing: bool,
    pub playback_speed: u32,
}

/// `value` held between `low` and `high`.
pub open spec fn clamped(value: u32, low: u32, high: u32) -> u32 {
    if value < low {
        low
    } else if value > high {
        high
    } else {
        value
    }
}

/// Holds `value` between `low` and `high`.
pub fn clamp(value: u32, low: u32, high: u32) -> (r: u32)
    requires
        low <= high,
    ensures
        r == clamped(value, low, high),
        low <= r <= high,
{
    if value < low {
        low
    } else if value > high {
        high
    } else {
        value
    }
}

impl PlaybackState {
    /// Paused, at normal speed.
    pub fn new() -> (state: Self)
        ensures
            !state.is_playing,
            state.playback_speed == NORMAL_SPEED,
    {
        PlaybackState { is_playing: false, playback_speed: NORMAL_SPEED }
    }

    /// Starts playback.
    pub fn play(&mut self)
        ensures
            final(self).is_playing,
            final(self).playback_speed == old(self).playback_speed,
    {
        self.is_playing = true;
    }

    /// Halts playback where it is.
    pub fn pause(&mut self)
        ensures
            !final(self).is_playing,
            final(self).playback_speed == old(self).playback_speed,
    {
        self.is_playing = false;
    }

    /// Halts playback.
    pub fn stop(&mut self)
        ensures
            !final(self).is_playing,
            final(self).playback_speed == old(self).playback_speed,
    {
        self.is_playing = false;
    }

    /// Sets the speed, held between a tenth and four times the normal
    /// speed.
    pub fn set_speed(&mut self, speed: u32)
        ensures
            final(self).playback_speed == clamped(speed, MIN_SPEED, MAX_SPEED),
            final(self).is_playing == old(self).is_playing,
    {
        self.playback_speed = clamp(speed, MIN_SPEED, MAX_SPEED);
    }
}

impl Default for PlaybackState {
    /// Paused, at normal speed.
    fn default() -> (state: Self)
        ensures
            !state.is_playing,
            state.playback_speed == NORMAL_SPEED,
    {
        PlaybackState::new()
    }
}

} // verus!
