//! The editor's settings.
//!
//! Frame rates, zoom factors and sizes on screen are in thousandths of
//! their unit.

use crate::playback::{clamp, clamped};
use vstd::prelude::*;

verus! {

/// How large the preview is decoded.
#[derive(Clone, Copy, Debug, PartialEq, Eq, Structural)]
pub enum PreviewQuality {
    /// 320 by 240.
    Low,
    /// 640 by 480.
    Medium,
    /// 1280 by 720.
    High,
    /// 1920 by 1080.
    Ultra,
}

impl PreviewQuality {
    /// The size of the preview at this quality.
    pub open spec fn resolution(self) -> (u32, u32) {
        match self {
            PreviewQuality::Low => (320u32, 240u32),
            PreviewQuality::Medium => (640u32, 480u32),
            PreviewQuality::High => (1280u32, 720u32),
            PreviewQuality::Ultra => (1920u32, 1080u32),
        }
    }
}

/// What the user has set.
#[derive(Clone, Copy, Debug)]
pub struct EditorSettings {
    pub grid_snap: bool,
    pub playback_resolution: (u32, u32),
    pub preview_quality: PreviewQuality,
    pub auto_save: bool,
    /// Seconds between two automatic saves.
    pub auto_save_interval: u32,
    pub default_frame_rate: u32,
    pub timeline_zoom: u32,
    pub audio_enabled: bool,
    pub timeline_height: u32,
    pub track_height: u32,
    pub thumbnail_size: u32,
    /// The number of frames to cache.
    pub cache_limit: usize,
}

/// The settings of a fresh editor.
pub open spec fn default_settings() -> EditorSettings {
    EditorSettings {
        grid_snap: false,
        playback_resolution: (1920u32, 1080u32),
        preview_quality: PreviewQuality::Medium,
        auto_save: true,
        auto_save_interval: 300,
        default_frame_rate: 30_000,
        timeline_zoom: 1000,
        audio_enabled: true,
        timeline_height: 200_000,
        track_height: 40_000,
        thumbnail_size: 16_000,
        cache_limit: 50,
    }
}

/// The zoom factor `zoom` held between a tenth and ten.
pub open spec fn zoom_within_bounds(zoom: u32) -> u32 {
    clamped(zoom, 100, 10_000)
}

/// One step of zooming in: six fifths of `zoom`, the fraction of a
/// thousandth cut off.
pub open spec fn zoomed_in(zoom: u32) -> u32 {
    let wide = zoom as nat * 6 / 5;
    if wide > 10_000 {
        10_000
    } else {
        zoom_within_bounds(wide as u32)
    }
}

/// One step of zooming out: five sixths of `zoom`, the fraction of a
/// thousandth cut off.
pub open spec fn zoomed_out(zoom: u32) -> u32 {
    zoom_within_bounds((zoom as nat * 5 / 6) as u32)
}

/// The cache limit `limit` held between ten and a thousand frames.
pub open spec fn cache_limit_within_bounds(limit: usize) -> usize {
    if limit < 10 {
        10
    } else if limit > 1000 {
        1000
    } else {
        limit
    }
}

impl EditorSettings {
    /// The settings with every bounded value held within its bounds: the
    /// frame rate between one and a hundred and twenty frames per second,
    /// the interval of automatic saves between one minute and one hour, the
    /// height of the timeline between a hundred and five hundred, that of a
    /// track between twenty and a hundred, the size of a thumbnail between
    /// eight and sixty-four, and the zoom between a tenth and ten.
    pub open spec fn validated(self) -> EditorSettings {
        EditorSettings {
            default_frame_rate: clamped(self.default_frame_rate, 1000, 120_000),
            auto_save_interval: clamped(self.auto_save_interval, 60, 3600),
            timeline_height: clamped(self.timeline_height, 100_000, 500_000),
            track_height: clamped(self.track_height, 20_000, 100_000),
            thumbnail_size: clamped(self.thumbnail_size, 8000, 64_000),
            timeline_zoom: zoom_within_bounds(self.timeline_zoom),
            ..self
        }
    }

    /// The settings of a fresh editor.
    pub fn new() -> (settings: Self)
        ensures
            settings == default_settings(),
    {
        EditorSettings {
            grid_snap: false,
            playback_resolution: (1920, 1080),
            preview_quality: PreviewQuality::Medium,
            auto_save: true,
            auto_save_interval: 300,
            default_frame_rate: 30_000,
            timeline_zoom: 1000,
            audio_enabled: true,
            timeline_height: 200_000,
            track_height: 40_000,
            thumbnail_size: 16_000,
            cache_limit: 50,
        }
    }

    /// The size at which the preview is decoded.
    pub fn get_preview_resolution(&self) -> (size: (u32, u32))
        ensures
            size == self.preview_quality.resolution(),
    {
        match self.preview_quality {
            PreviewQuality::Low => (320, 240),
            PreviewQuality::Medium => (640, 480),
            PreviewQuality::High => (1280, 720),
            PreviewQuality::Ultra => (1920, 1080),
        }
    }

    /// Sets the quality of the preview.
    pub fn set_preview_quality(&mut self, quality: PreviewQuality)
        ensures
            *final(self) == (EditorSettings { preview_quality: quality, ..*old(self) }),
    {
        self.preview_quality = quality;
    }

    /// Turns snapping to the grid on where it is off, and off where it is
    /// on.
    pub fn toggle_grid_snap(&mut self)
        ensures
            *final(self) == (EditorSettings { grid_snap: !old(self).grid_snap, ..*old(self) }),
    {
        self.grid_snap = !self.grid_snap;
    }

    /// Sets the zoom of the timeline, held between a tenth and ten.
    pub fn set_timeline_zoom(&mut self, zoom: u32)
        ensures
            *final(self) == (EditorSettings {
                timeline_zoom: zoom_within_bounds(zoom),
                ..*old(self)
            }),
    {
        self.timeline_zoom = clamp(zoom, 100, 10_000);
    }

    /// Zooms the timeline in by one step.
    pub fn zoom_in(&mut self)
        ensures
            *final(self) == (EditorSettings {
                timeline_zoom: zoomed_in(old(self).timeline_zoom),
                ..*old(self)
            }),
    {
        let wide: u64 = (self.timeline_zoom as u64) * 6 / 5;
        if wide > 10_000 {
            self.timeline_zoom = 10_000;
        } else {
            self.set_timeline_zoom(wide as u32);
        }
    }

    /// Zooms the timeline out by one step.
    pub fn zoom_out(&mut self)
        ensures
            *final(self) == (EditorSettings {
                timeline_zoom: zoomed_out(old(self).timeline_zoom),
                ..*old(self)
            }),
    {
        let wide: u64 = (self.timeline_zoom as u64) * 5 / 6;
        self.set_timeline_zoom(wide as u32);
    }

    /// Sets the zoom of the timeline back to one.
    pub fn reset_zoom(&mut self)
        ensures
            *final(self) == (EditorSettings { timeline_zoom: 1000, ..*old(self) }),
    {
        self.timeline_zoom = 1000;
    }

    /// Sets the number of frames to cache, held between ten and a thousand.
    pub fn set_cache_limit(&mut self, limit: usize)
        ensures
            *final(self) == (EditorSettings {
                cache_limit: cache_limit_within_bounds(limit),
                ..*old(self)
            }),
    {
        self.cache_limit = if limit < 10 {
            10
        } else if limit > 1000 {
            1000
        } else {
            limit
        };
    }

    /// Brings every bounded value within its bounds.
    pub fn validate(&mut self)
        ensures
            *final(self) == old(self).validated(),
    {
        self.default_frame_rate = clamp(self.default_frame_rate, 1000, 120_000);
        self.auto_save_interval = clamp(self.auto_save_interval, 60, 3600);
        self.timeline_height = clamp(self.timeline_height, 100_000, 500_000);
        self.track_height = clamp(self.track_height, 20_000, 100_000);
        self.thumbnail_size = clamp(self.thumbnail_size, 8000, 64_000);
        self.timeline_zoom = clamp(self.timeline_zoom, 100, 10_000);
    }

    /// Settings are not kept on disk: loading gives the settings of a fresh
    /// editor, whatever the path.
    pub fn load_from_file(path: &str) -> (loaded: Result<Self, String>)
        ensures
            loaded == Ok::<EditorSettings, String>(default_settings()),
    {
        Ok(EditorSettings::new())
    }

    /// Settings are not kept on disk: saving succeeds and writes nothing.
    pub fn save_to_file(&self, path: &str) -> (saved: Result<(), String>)
        ensures
            saved is Ok,
    {
        Ok(())
    }
}

impl Default for EditorSettings {
    /// The settings of a fresh editor.
    fn default() -> (settings: Self)
        ensures
            settings == default_settings(),
    {
        EditorSettings::new()
    }
}

} // verus!
