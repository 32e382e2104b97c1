//! Playback option enums shared by the whole core: quality profiles, proxy
//! presets, transport selection, audio source selection and autostart
//! sub-commands, together with the parameter defaults each one implies.

use vstd::prelude::*;

verus! {

/// Overall quality/load trade-off requested by the caller.
#[derive(Debug, Clone, Copy, PartialEq, Eq, Structural)]
pub enum PlaybackProfile {
    Performance,
    Balanced,
    Quality,
}

/// Coarser preset used by the scene proxy path when the caller does not pick
/// individual parameters.
#[derive(Debug, Clone, Copy, PartialEq, Eq, Structural)]
pub enum ProxyPreset {
    Eco,
    Balanced,
    Ultra,
}

/// How compiled scenes reach the screen: through a pre-transcoded proxy video
/// or through the native realtime render graph.
#[derive(Debug, Clone, Copy, PartialEq, Eq, Structural)]
pub enum GpuTransport {
    Mp4Proxy,
    NativeRealtime,
}

/// Which audio source feeds the visualizer bars: the system loopback capture
/// or the deterministic synthetic generator.
#[derive(Debug, Clone, Copy, PartialEq, Eq, Structural)]
pub enum AudioBarsSource {
    Pulse,
    Synth,
}

/// Management operations on the user autostart service unit.
#[derive(Debug, Clone, Copy, PartialEq, Eq, Structural)]
pub enum ServiceAutostartCommands {
    Install { overwrite: bool, dry_run: bool },
    Enable { dry_run: bool },
    Disable { dry_run: bool },
    Remove { dry_run: bool },
    Status,
}

/// Proxy transcode parameters: output width in pixels, frames per second and
/// the encoder's constant rate factor.
#[derive(Debug, Clone, Copy, PartialEq, Eq, Structural)]
pub struct ProxyParams {
    pub width: u32,
    pub fps: u32,
    pub crf: u8,
}

/// The proxy parameters each profile stands for: `Performance` trades
/// resolution and frame rate for low load, `Quality` the opposite, and
/// `Balanced` is the documented midpoint.
pub open spec fn spec_profile_defaults(profile: PlaybackProfile) -> ProxyParams {
    match profile {
        PlaybackProfile::Performance => ProxyParams { width: 1920, fps: 30, crf: 28 },
        PlaybackProfile::Balanced => ProxyParams { width: 2560, fps: 60, crf: 20 },
        PlaybackProfile::Quality => ProxyParams { width: 3840, fps: 60, crf: 16 },
    }
}

/// Proxy parameters derived from a playback profile.
pub fn profile_defaults(profile: PlaybackProfile) -> (r: ProxyParams)
    ensures
        r == spec_profile_defaults(profile),
{
    match profile {
        PlaybackProfile::Performance => ProxyParams { width: 1920, fps: 30, crf: 28 },
        PlaybackProfile::Balanced => ProxyParams { width: 2560, fps: 60, crf: 20 },
        PlaybackProfile::Quality => ProxyParams { width: 3840, fps: 60, crf: 16 },
    }
}

/// The proxy parameters each coarse preset stands for.
pub open spec fn spec_preset_defaults(preset: ProxyPreset) -> ProxyParams {
    match preset {
        ProxyPreset::Eco => ProxyParams { width: 1920, fps: 30, crf: 30 },
        ProxyPreset::Balanced => ProxyParams { width: 2560, fps: 30, crf: 24 },
        ProxyPreset::Ultra => ProxyParams { width: 3840, fps: 60, crf: 18 },
    }
}

/// Proxy parameters derived from a coarse preset.
pub fn preset_defaults(preset: ProxyPreset) -> (r: ProxyParams)
    ensures
        r == spec_preset_defaults(preset),
{
    match preset {
        ProxyPreset::Eco => ProxyParams { width: 1920, fps: 30, crf: 30 },
        ProxyPreset::Balanced => ProxyParams { width: 2560, fps: 30, crf: 24 },
        ProxyPreset::Ultra => ProxyParams { width: 3840, fps: 60, crf: 18 },
    }
}

/// What an autostart operation would do to the user unit, before any external
/// action is taken.
#[derive(Debug, Clone, Copy, PartialEq, Eq, Structural)]
pub enum AutostartAction {
    WriteUnit,
    EnableUnit,
    DisableUnit,
    RemoveUnit,
    ReportStatus,
    Nothing,
}

/// Decides the action an autostart sub-command performs, given whether the
/// unit file is already installed. A dry run decides the same action but the
/// caller must not carry it out; `Install` without `overwrite` on an existing
/// unit does nothing rather than clobbering it.
pub fn autostart_action(cmd: &ServiceAutostartCommands, unit_exists: bool) -> (r: AutostartAction)
    ensures
        r == (match *cmd {
            ServiceAutostartCommands::Install { overwrite, dry_run: _ } => {
                if unit_exists && !overwrite {
                    AutostartAction::Nothing
                } else {
                    AutostartAction::WriteUnit
                }
            },
            ServiceAutostartCommands::Enable { dry_run: _ } => AutostartAction::EnableUnit,
            ServiceAutostartCommands::Disable { dry_run: _ } => AutostartAction::DisableUnit,
            ServiceAutostartCommands::Remove { dry_run: _ } => {
                if unit_exists {
                    AutostartAction::RemoveUnit
                } else {
                    AutostartAction::Nothing
                }
            },
            ServiceAutostartCommands::Status => AutostartAction::ReportStatus,
        }),
{
    match cmd {
        ServiceAutostartCommands::Install { overwrite, dry_run: _ } => {
            if unit_exists && !*overwrite {
                AutostartAction::Nothing
            } else {
                AutostartAction::WriteUnit
            }
        },
        ServiceAutostartCommands::Enable { .. } => AutostartAction::EnableUnit,
        ServiceAutostartCommands::Disable { .. } => AutostartAction::DisableUnit,
        ServiceAutostartCommands::Remove { .. } => {
            if unit_exists {
                AutostartAction::RemoveUnit
            } else {
                AutostartAction::Nothing
            }
        },
        ServiceAutostartCommands::Status => AutostartAction::ReportStatus,
    }
}

} // verus!
