//! Scene compilation and playback orchestration core for a live-wallpaper
//! engine: scene loading and normalization, render-plan compilation, audio
//! frame cadence, service orchestration, playback supervision, per-monitor
//! config reconciliation and library scanning.

pub mod audio;
pub mod compiler;
pub mod loader;
pub mod options;
pub mod orchestrator;
pub mod overlay;
pub mod reconciler;
pub mod scanner;
pub mod scene;
pub mod supervisor;
