//! What a proxy rendition should look like.

use vstd::prelude::*;

verus! {

/// How much quality the encoder spends on a proxy.
#[derive(Clone, Copy, Debug, PartialEq, Eq, Structural)]
pub enum ProxyQuality {
    /// Lowest quality, smallest file, fastest to make.
    Draft,
    /// Medium quality, meant for editing.
    Preview,
    /// Highest quality, largest file, slowest to make.
    High,
}

/// Target of a proxy rendition. The frame rate is in thousandths of a frame
/// per second.
#[derive(Clone, Copy, Debug, PartialEq, Eq)]
pub struct ProxySettings {
    pub resolution: (u32, u32),
    pub frame_rate: u32,
    pub quality: ProxyQuality,
}

impl ProxyQuality {
    /// The place of the tier in the order from least to most quality.
    pub open spec fn rank(self) -> nat {
        match self {
            ProxyQuality::Draft => 0,
            ProxyQuality::Preview => 1,
            ProxyQuality::High => 2,
        }
    }

    /// The encoder's constant rate factor for the tier. A lower factor
    /// means more quality and a larger file.
    pub open spec fn rate_factor(self) -> u8 {
        match self {
            ProxyQuality::Draft => 28,
            ProxyQuality::Preview => 23,
            ProxyQuality::High => 18,
        }
    }

    /// Computes the encoder's constant rate factor for the tier.
    pub fn crf(&self) -> (factor: u8)
        ensures
            factor == self.rate_factor(),
    {
        match self {
            ProxyQuality::Draft => 28,
            ProxyQuality::Preview => 23,
            ProxyQuality::High => 18,
        }
    }
}

/// The rate factor falls as the tier rises: a higher tier never asks the
/// encoder for less quality than a lower one, and two different tiers never
/// ask for the same.
pub proof fn lemma_rate_factor_monotonic(lower: ProxyQuality, higher: ProxyQuality)
    ensures
        lower.rank() <= higher.rank() <==> lower.rate_factor() >= higher.rate_factor(),
        lower.rank() < higher.rank() <==> lower.rate_factor() > higher.rate_factor(),
{
}

impl ProxySettings {
    /// The frame rate in whole frames per second, rounded to the nearest;
    /// half a frame rounds up.
    pub open spec fn whole_frame_rate(self) -> u32 {
        ((self.frame_rate + 500) / 1000) as u32
    }

    /// Computes the frame rate in whole frames per second, rounded to the
    /// nearest.
    pub fn frames_per_second(&self) -> (rate: u32)
        ensures
            rate == self.whole_frame_rate(),
    {
        (((self.frame_rate as u64) + 500) / 1000) as u32
    }
}

impl Default for ProxySettings {
    /// A quarter of full HD at thirty frames per second, for editing.
    fn default() -> (settings: ProxySettings)
        ensures
            settings == (ProxySettings {
                resolution: (480u32, 270u32),
                frame_rate: 30_000,
                quality: ProxyQuality::Preview,
            }),
    {
        ProxySettings { resolution: (480, 270), frame_rate: 30_000, quality: ProxyQuality::Preview }
    }
}

} // verus!
