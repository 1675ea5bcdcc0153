//! User settings and the media configurations that quality presets select.
//!
//! Settings are stored as TOML in the configuration directory; reading and
//! writing that file belong to the caller. A missing or corrupted file gives
//! the defaults.

use vstd::prelude::*;

use crate::media::{VideoConfig, VoiceConfig};

verus! {

/// Quality level preset.
#[derive(Debug, Clone, Copy, PartialEq, Eq)]
pub enum Quality {
    Low,
    Medium,
    High,
}

/// UI theme.
#[derive(Debug, Clone, Copy, PartialEq, Eq)]
pub enum Theme {
    Light,
    Dark,
}

/// Resolved directory paths for the application instance.
#[derive(Debug, Clone, PartialEq, Eq)]
pub struct AppDirs {
    /// Config directory (settings.toml lives here).
    pub config_dir: String,
    /// Default storage directory (database, downloaded files).
    pub default_storage_dir: String,
}

/// User-configurable settings.
#[derive(Debug, Clone, PartialEq, Eq)]
pub struct Settings {
    /// Display name shown to other peers.
    pub display_name: String,
    /// Directory for file storage.
    pub storage_dir: String,
    /// Video quality preset.
    pub video_quality: Quality,
    /// Audio quality preset.
    pub audio_quality: Quality,
    /// Preferred audio input device name (empty = system default).
    pub input_device: String,
    /// Preferred audio output device name (empty = system default).
    pub output_device: String,
    /// UI theme.
    pub theme: Theme,
}

/// The default settings for the directories `dirs`.
pub open spec fn is_default_for(s: Settings, dirs: AppDirs) -> bool {
    &&& s.display_name@ == "user"@
    &&& s.storage_dir@ == dirs.default_storage_dir@
    &&& s.video_quality == Quality::Medium
    &&& s.audio_quality == Quality::Medium
    &&& s.input_device@ == Seq::<char>::empty()
    &&& s.output_device@ == Seq::<char>::empty()
    &&& s.theme == Theme::Dark
}

impl Settings {
    /// Default settings using the given app directories: display name
    /// "user", storage in the default storage directory, medium quality,
    /// system audio devices, dark theme.
    pub fn default_with_dirs(dirs: &AppDirs) -> (s: Self)
        ensures
            is_default_for(s, *dirs),
    {
        let name = String::from_str("user");
        proof {
            reveal_strlit("user");
        }
        Settings {
            display_name: name,
            storage_dir: dirs.default_storage_dir.clone(),
            video_quality: Quality::Medium,
            audio_quality: Quality::Medium,
            input_device: String::new(),
            output_device: String::new(),
            theme: Theme::Dark,
        }
    }

    /// The settings to use given what was read from the settings file:
    /// the stored settings when the file existed and parsed, else the
    /// defaults.
    pub fn load(stored: Option<Settings>, dirs: &AppDirs) -> (s: Self)
        ensures
            stored matches Some(t) ==> s == t,
            stored is None ==> is_default_for(s, *dirs),
    {
        match stored {
            Some(t) => t,
            None => Self::default_with_dirs(dirs),
        }
    }
}

/// The voice bitrates of a quality preset.
pub open spec fn voice_config_spec(q: Quality) -> VoiceConfig {
    match q {
        Quality::Low => VoiceConfig { initial_bitrate_bps: 24_000, max_bitrate_bps: 32_000, min_bitrate_bps: 12_000 },
        Quality::Medium => VoiceConfig { initial_bitrate_bps: 64_000, max_bitrate_bps: 96_000, min_bitrate_bps: 24_000 },
        Quality::High => VoiceConfig { initial_bitrate_bps: 128_000, max_bitrate_bps: 128_000, min_bitrate_bps: 48_000 },
    }
}

/// The video resolution, frame rate and bitrates of a quality preset.
pub open spec fn video_config_spec(q: Quality) -> VideoConfig {
    match q {
        Quality::Low => VideoConfig {
            width: 480,
            height: 360,
            framerate: 24,
            bitrate_bps: 128_000,
            max_bitrate_bps: 256_000,
            min_bitrate_bps: 64_000,
        },
        Quality::Medium => VideoConfig {
            width: 1280,
            height: 720,
            framerate: 30,
            bitrate_bps: 512_000,
            max_bitrate_bps: 1_000_000,
            min_bitrate_bps: 128_000,
        },
        Quality::High => VideoConfig {
            width: 1920,
            height: 1080,
            framerate: 30,
            bitrate_bps: 2_000_000,
            max_bitrate_bps: 4_000_000,
            min_bitrate_bps: 500_000,
        },
    }
}

/// Map a quality preset to a voice configuration with its bitrate bounds.
pub fn voice_config_for_quality(quality: Quality) -> (c: VoiceConfig)
    ensures
        c == voice_config_spec(quality),
{
    match quality {
        Quality::Low => VoiceConfig { initial_bitrate_bps: 24_000, max_bitrate_bps: 32_000, min_bitrate_bps: 12_000 },
        Quality::Medium => VoiceConfig { initial_bitrate_bps: 64_000, max_bitrate_bps: 96_000, min_bitrate_bps: 24_000 },
        Quality::High => VoiceConfig { initial_bitrate_bps: 128_000, max_bitrate_bps: 128_000, min_bitrate_bps: 48_000 },
    }
}

/// Map a quality preset to a video configuration with its resolution and
/// bitrate bounds.
pub fn video_config_for_quality(quality: Quality) -> (c: VideoConfig)
    ensures
        c == video_config_spec(quality),
{
    match quality {
        Quality::Low => VideoConfig {
            width: 480,
            height: 360,
            framerate: 24,
            bitrate_bps: 128_000,
            max_bitrate_bps: 256_000,
            min_bitrate_bps: 64_000,
        },
        Quality::Medium => VideoConfig {
            width: 1280,
            height: 720,
            framerate: 30,
            bitrate_bps: 512_000,
            max_bitrate_bps: 1_000_000,
            min_bitrate_bps: 128_000,
        },
        Quality::High => VideoConfig {
            width: 1920,
            height: 1080,
            framerate: 30,
            bitrate_bps: 2_000_000,
            max_bitrate_bps: 4_000_000,
            min_bitrate_bps: 500_000,
        },
    }
}

/// Every preset starts within its own bounds, and a higher preset never
/// lowers a bound.
pub proof fn law_quality_presets_ordered(q: Quality)
    ensures
        voice_config_spec(q).min_bitrate_bps <= voice_config_spec(q).initial_bitrate_bps
            <= voice_config_spec(q).max_bitrate_bps,
        video_config_spec(q).min_bitrate_bps <= video_config_spec(q).bitrate_bps <= video_config_spec(q).max_bitrate_bps,
        voice_config_spec(Quality::Low).max_bitrate_bps <= voice_config_spec(Quality::Medium).max_bitrate_bps
            <= voice_config_spec(Quality::High).max_bitrate_bps,
        video_config_spec(Quality::Low).max_bitrate_bps <= video_config_spec(Quality::Medium).max_bitrate_bps
            <= video_config_spec(Quality::High).max_bitrate_bps,
{
}

/// The rank of a preset: Low below Medium below High.
pub open spec fn quality_rank(q: Quality) -> int {
    match q {
        Quality::Low => 0,
        Quality::Medium => 1,
        Quality::High => 2,
    }
}

/// A higher quality preset sends a strictly larger picture (wider and
/// taller) at a strictly higher bitrate, within strictly higher bounds, and
/// never at a lower frame rate.
pub proof fn law_higher_quality_sends_more_video(lower: Quality, higher: Quality)
    requires
        quality_rank(lower) < quality_rank(higher),
    ensures
        video_config_spec(lower).width < video_config_spec(higher).width,
        video_config_spec(lower).height < video_config_spec(higher).height,
        video_config_spec(lower).framerate <= video_config_spec(higher).framerate,
        video_config_spec(lower).bitrate_bps < video_config_spec(higher).bitrate_bps,
        video_config_spec(lower).min_bitrate_bps < video_config_spec(higher).min_bitrate_bps,
        video_config_spec(lower).max_bitrate_bps < video_config_spec(higher).max_bitrate_bps,
{
}

/// A higher quality preset gives the voice a strictly higher starting
/// bitrate and strictly higher bounds.
pub proof fn law_higher_quality_sends_more_voice(lower: Quality, higher: Quality)
    requires
        quality_rank(lower) < quality_rank(higher),
    ensures
        voice_config_spec(lower).initial_bitrate_bps < voice_config_spec(higher).initial_bitrate_bps,
        voice_config_spec(lower).min_bitrate_bps < voice_config_spec(higher).min_bitrate_bps,
        voice_config_spec(lower).max_bitrate_bps < voice_config_spec(higher).max_bitrate_bps,
{
}

} // verus!
