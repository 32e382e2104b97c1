use kitsune_livewallpaper::audio::{open_session, run_bounded_synth, AudioError};
use kitsune_livewallpaper::compiler::{
    compile, CompileError, CompileInput, CompileRequest, DisplayConstraints, PlaybackPlan,
};
use kitsune_livewallpaper::loader::{
    load_package, LoadError, RawBinding, RawLayer, RawPackage, RawVideo, RawVisualizer,
};
use kitsune_livewallpaper::options::{
    autostart_action, preset_defaults, profile_defaults, AudioBarsSource, AutostartAction,
    GpuTransport, PlaybackProfile, ProxyPreset, ServiceAutostartCommands,
};
use kitsune_livewallpaper::orchestrator::{
    collect_failures, OrchestrationError, OrchestrationState, ProbeVerdict, ServiceOutcome,
    ServiceState,
};
use kitsune_livewallpaper::overlay::{refresh_tick, OverlaySpec, OverlayTick, TrackMeta};
use kitsune_livewallpaper::reconciler::{
    collect_apply_failures, content_hash, AppliedState, MonitorConfig, MonitorOutcome,
    ReconcileError,
};
use kitsune_livewallpaper::scanner::{build_roadmap, rank_loaded, scan_library};
use kitsune_livewallpaper::scene::{LayerKind, VideoSource};
use kitsune_livewallpaper::supervisor::{plan_session, resolve_session, SessionStep};

fn raw_layer(id: u64, kind_code: u32, z_order: i32) -> RawLayer {
    RawLayer {
        id,
        kind_code,
        offset_x: 0,
        offset_y: 0,
        scale_pct: 100,
        visible: true,
        z_order,
    }
}

fn three_layer_package() -> RawPackage {
    RawPackage {
        scene_id: 7,
        format_version: 1,
        layers: vec![raw_layer(10, 0, 1), raw_layer(11, 1, 0), raw_layer(12, 0, 2)],
        bindings: vec![
            RawBinding {
                layer_id: 10,
                effect_id: 100,
                effect_kind: 1,
                parameters: vec![3],
                audio_reactive: true,
            },
            RawBinding {
                layer_id: 11,
                effect_id: 101,
                effect_kind: 0,
                parameters: vec![],
                audio_reactive: false,
            },
        ],
        visualizer: Some(RawVisualizer { bar_count: 24, stereo: false }),
        videos: vec![],
    }
}

fn default_request(profile: PlaybackProfile, transport: GpuTransport) -> CompileRequest {
    CompileRequest {
        transport,
        require_native: false,
        profile,
        override_width: None,
        override_fps: None,
        override_crf: None,
        auto_tune: false,
        seamless_loop: true,
        crossfade_ms: None,
    }
}

fn wide_display() -> DisplayConstraints {
    DisplayConstraints { max_width: 3840, max_fps: 144 }
}

#[test]
fn load_sorts_layers_by_z_order() {
    let pkg = three_layer_package();
    let m = load_package(Some(&pkg)).unwrap();
    assert_eq!(m.id, 7);
    assert_eq!(m.layers.len(), 3);
    assert_eq!(m.layers[0].id, 11);
    assert_eq!(m.layers[1].id, 10);
    assert_eq!(m.layers[2].id, 12);
    assert_eq!(m.layers[0].z_order, 0);
    assert_eq!(m.layers[1].z_order, 1);
    assert_eq!(m.layers[2].z_order, 2);
    assert!(matches!(m.layers[1].kind, LayerKind::Image));
    assert_eq!(m.bindings.len(), 2);
    assert_eq!(m.bindings[0].effect_id, 100);
    assert!(m.video.is_none());
}

#[test]
fn load_missing_package_is_not_found() {
    assert_eq!(load_package(None), Err(LoadError::NotFound));
}

#[test]
fn load_rejects_newer_format_version() {
    let mut pkg = three_layer_package();
    pkg.format_version = 99;
    assert_eq!(load_package(Some(&pkg)), Err(LoadError::UnsupportedFormatVersion));
}

#[test]
fn load_rejects_duplicate_layer_ids() {
    let mut pkg = three_layer_package();
    pkg.layers[1].id = 10;
    assert_eq!(load_package(Some(&pkg)), Err(LoadError::MalformedPackage));
}

#[test]
fn load_rejects_duplicate_z_orders() {
    let mut pkg = three_layer_package();
    pkg.layers[2].z_order = 0;
    assert_eq!(load_package(Some(&pkg)), Err(LoadError::MalformedPackage));
}

#[test]
fn load_rejects_dangling_binding() {
    let mut pkg = three_layer_package();
    pkg.bindings[0].layer_id = 999;
    assert_eq!(load_package(Some(&pkg)), Err(LoadError::MalformedPackage));
}

#[test]
fn load_rejects_wrong_effect_arity() {
    let mut pkg = three_layer_package();
    pkg.bindings[0].parameters = vec![1, 2, 3];
    assert_eq!(load_package(Some(&pkg)), Err(LoadError::MalformedPackage));
}

#[test]
fn load_rejects_second_video_source() {
    let mut pkg = three_layer_package();
    let v = RawVideo { path: b"a.mp4".to_vec(), duration_ms: 1000, has_alpha: false };
    let w = RawVideo { path: b"b.mp4".to_vec(), duration_ms: 2000, has_alpha: false };
    pkg.videos = vec![v, w];
    assert_eq!(load_package(Some(&pkg)), Err(LoadError::MalformedPackage));
}

#[test]
fn load_tolerates_unknown_kinds() {
    let mut pkg = three_layer_package();
    pkg.layers[0].kind_code = 42;
    pkg.bindings[0].effect_kind = 77;
    pkg.bindings[0].parameters = vec![1, 2, 3, 4, 5];
    let m = load_package(Some(&pkg)).unwrap();
    assert!(matches!(m.layers[1].kind, LayerKind::EffectChain));
}

#[test]
fn compile_native_one_pass_per_layer_ascending() {
    let pkg = three_layer_package();
    let m = load_package(Some(&pkg)).unwrap();
    let req = default_request(PlaybackProfile::Balanced, GpuTransport::NativeRealtime);
    let plan = compile(&CompileInput::Scene(m), &req, &wide_display()).unwrap();
    match plan {
        PlaybackPlan::NativeGraph { passes } => {
            assert_eq!(passes.len(), 3);
            assert_eq!(passes[0].z_order, 0);
            assert_eq!(passes[1].z_order, 1);
            assert_eq!(passes[2].z_order, 2);
            assert_eq!(passes[1].layer_id, 10);
            assert_eq!(passes[1].effect_ids, vec![100]);
            assert_eq!(passes[1].audio_binding_ids, vec![100]);
            assert_eq!(passes[0].effect_ids, vec![101]);
            assert!(passes[0].audio_binding_ids.is_empty());
        },
        _ => panic!("expected a native graph plan"),
    }
}

#[test]
fn compile_video_always_proxy() {
    let video = VideoSource { path: b"wall.mp4".to_vec(), duration_ms: 60_000, has_alpha: false };
    for transport in [GpuTransport::Mp4Proxy, GpuTransport::NativeRealtime] {
        let req = default_request(PlaybackProfile::Quality, transport);
        let plan = compile(&CompileInput::Video(video.clone()), &req, &wide_display()).unwrap();
        match plan {
            PlaybackPlan::ProxyVideo { width, fps, crf, .. } => {
                assert_eq!((width, fps, crf), (3840, 60, 16));
            },
            _ => panic!("expected a proxy plan for a bare video"),
        }
    }
}

#[test]
fn compile_require_native_unsupported_layer_fails() {
    let mut pkg = three_layer_package();
    pkg.layers[0].kind_code = 2; // a particle layer has no native renderer
    let m = load_package(Some(&pkg)).unwrap();
    let mut req = default_request(PlaybackProfile::Balanced, GpuTransport::NativeRealtime);
    req.require_native = true;
    let r = compile(&CompileInput::Scene(m), &req, &wide_display());
    assert_eq!(r, Err(CompileError::CapabilityMismatch));
}

#[test]
fn compile_balanced_proxy_defaults() {
    let pkg = three_layer_package();
    let m = load_package(Some(&pkg)).unwrap();
    let req = default_request(PlaybackProfile::Balanced, GpuTransport::Mp4Proxy);
    let plan = compile(&CompileInput::Scene(m), &req, &wide_display()).unwrap();
    match plan {
        PlaybackPlan::ProxyVideo { width, fps, crf, crossfade_ms, .. } => {
            assert_eq!((width, fps, crf), (2560, 60, 20));
            assert!(crossfade_ms.is_none());
        },
        _ => panic!("expected a proxy plan"),
    }
}

#[test]
fn compile_overrides_beat_profile_defaults() {
    let video = VideoSource { path: b"v.mp4".to_vec(), duration_ms: 10_000, has_alpha: false };
    let mut req = default_request(PlaybackProfile::Performance, GpuTransport::Mp4Proxy);
    req.override_width = Some(1280);
    req.override_crf = Some(18);
    let plan = compile(&CompileInput::Video(video), &req, &wide_display()).unwrap();
    match plan {
        PlaybackPlan::ProxyVideo { width, fps, crf, .. } => {
            assert_eq!((width, fps, crf), (1280, 30, 18));
        },
        _ => panic!("expected a proxy plan"),
    }
}

#[test]
fn compile_auto_tune_lowers_to_display() {
    let video = VideoSource { path: b"v.mp4".to_vec(), duration_ms: 10_000, has_alpha: false };
    let mut req = default_request(PlaybackProfile::Quality, GpuTransport::Mp4Proxy);
    req.auto_tune = true;
    let constraints = DisplayConstraints { max_width: 1920, max_fps: 30 };
    let plan = compile(&CompileInput::Video(video), &req, &constraints).unwrap();
    match plan {
        PlaybackPlan::ProxyVideo { width, fps, .. } => {
            assert_eq!((width, fps), (1920, 30));
        },
        _ => panic!("expected a proxy plan"),
    }
}

#[test]
fn compile_rejects_bad_override_and_crossfade() {
    let video = VideoSource { path: b"v.mp4".to_vec(), duration_ms: 1_000, has_alpha: false };
    let mut req = default_request(PlaybackProfile::Balanced, GpuTransport::Mp4Proxy);
    req.override_width = Some(0);
    let r = compile(&CompileInput::Video(video.clone()), &req, &wide_display());
    assert_eq!(r, Err(CompileError::InvalidParameters));

    let mut req2 = default_request(PlaybackProfile::Balanced, GpuTransport::Mp4Proxy);
    req2.crossfade_ms = Some(1_000); // not shorter than the loop
    let r2 = compile(&CompileInput::Video(video), &req2, &wide_display());
    assert_eq!(r2, Err(CompileError::InvalidParameters));
}

#[test]
fn audio_bounded_session_frame_count_and_sequence() {
    let frames = run_bounded_synth(2, 50, 8);
    assert_eq!(frames.len(), 40); // floor(2 * 1000 / 50)
    for (i, f) in frames.iter().enumerate() {
        assert_eq!(f.seq_no, i as u64);
        assert_eq!(f.timestamp_ms, i as u64 * 50);
        assert_eq!(f.bars.len(), 8);
    }
    // ragged interval: floor(1000 * 3 / 70) = 42
    let frames2 = run_bounded_synth(3, 70, 4);
    assert_eq!(frames2.len(), 42);
}

#[test]
fn audio_synth_is_deterministic() {
    let a = run_bounded_synth(1, 100, 6);
    let b = run_bounded_synth(1, 100, 6);
    assert_eq!(a.len(), b.len());
    for (x, y) in a.iter().zip(b.iter()) {
        assert_eq!(x.bars, y.bars);
    }
}

#[test]
fn audio_unavailable_pulse_source_is_error() {
    let r = open_session(AudioBarsSource::Pulse, false, 2, 50, 8);
    assert_eq!(r.err(), Some(AudioError::SourceUnavailable));
    // and the synthetic source is never substituted silently: asking for
    // pulse with an available device keeps the pulse tag
    let s = open_session(AudioBarsSource::Pulse, true, 2, 50, 8).unwrap();
    assert!(matches!(s.source, AudioBarsSource::Pulse));
}

#[test]
fn audio_live_session_frames_and_cancel() {
    let mut s = open_session(AudioBarsSource::Pulse, true, 1, 100, 4).unwrap();
    let captured = vec![5u16, 6, 7]; // one short of the bar count: padded
    let f = s.next_frame(&captured).unwrap();
    assert_eq!(f.seq_no, 0);
    assert_eq!(f.bars, vec![5, 6, 7, 0]);
    s.cancel();
    assert!(s.next_frame(&captured).is_none());
}

#[test]
fn start_services_twice_is_idempotent() {
    let mut st = OrchestrationState::new();
    let names = vec!["wp-daemon".to_string()];
    let verdicts = vec![ProbeVerdict::Converged];
    let first = st.start_services(&names, &verdicts, false, 1_000);
    assert_eq!(first, vec![ServiceOutcome::Changed]);
    assert!(matches!(st.state_of(&names[0]), ServiceState::Running));
    // already running: converged, no redundant start, state untouched
    let second = st.start_services(&names, &verdicts, false, 2_000);
    assert_eq!(second, vec![ServiceOutcome::AlreadyConverged]);
    assert!(matches!(st.state_of(&names[0]), ServiceState::Running));
    let third = st.start_services(&names, &verdicts, false, 3_000);
    assert_eq!(third, vec![ServiceOutcome::AlreadyConverged]);
}

#[test]
fn stop_services_dry_run_reports_and_keeps_state() {
    let mut st = OrchestrationState::new();
    let names = vec!["wp-daemon".to_string()];
    st.start_services(&names, &vec![ProbeVerdict::Converged], false, 1_000);
    assert!(matches!(st.state_of(&names[0]), ServiceState::Running));
    let outcomes = st.stop_services(&names, &vec![ProbeVerdict::Converged], true, 2_000);
    assert_eq!(outcomes, vec![ServiceOutcome::WouldChange]);
    assert!(matches!(st.state_of(&names[0]), ServiceState::Running));
}

#[test]
fn stop_timeout_marks_failed_and_continues() {
    let mut st = OrchestrationState::new();
    let names = vec!["a".to_string(), "b".to_string()];
    let up = vec![ProbeVerdict::Converged, ProbeVerdict::Converged];
    st.start_services(&names, &up, false, 1_000);
    let outcomes = st.stop_services(
        &names,
        &vec![ProbeVerdict::TimedOut, ProbeVerdict::Converged],
        false,
        2_000,
    );
    assert_eq!(outcomes, vec![ServiceOutcome::Failed, ServiceOutcome::Changed]);
    assert!(matches!(st.state_of(&names[0]), ServiceState::Failed));
    assert!(matches!(st.state_of(&names[1]), ServiceState::Stopped));
}

#[test]
fn batch_touches_only_named_services() {
    let mut st = OrchestrationState::new();
    let both = vec!["a".to_string(), "b".to_string()];
    let up = vec![ProbeVerdict::Converged, ProbeVerdict::Converged];
    st.start_services(&both, &up, false, 1);
    // stopping only "a" leaves "b" exactly as it was
    st.stop_services(&vec!["a".to_string()], &vec![ProbeVerdict::Converged], false, 2);
    assert!(matches!(st.state_of(&both[0]), ServiceState::Stopped));
    assert!(matches!(st.state_of(&both[1]), ServiceState::Running));
}

#[test]
fn compile_auto_tune_never_raises_explicit_values() {
    let video = VideoSource { path: b"v.mp4".to_vec(), duration_ms: 10_000, has_alpha: false };
    let mut req = default_request(PlaybackProfile::Performance, GpuTransport::Mp4Proxy);
    req.auto_tune = true;
    req.override_width = Some(1280);
    // the display allows more than the caller asked for: the override holds
    let plan = compile(&CompileInput::Video(video.clone()), &req, &wide_display()).unwrap();
    match plan {
        PlaybackPlan::ProxyVideo { width, .. } => assert_eq!(width, 1280),
        _ => panic!("expected a proxy plan"),
    }
    // the display allows less: tuning lowers further, never raises
    let narrow = DisplayConstraints { max_width: 1024, max_fps: 30 };
    let plan2 = compile(&CompileInput::Video(video), &req, &narrow).unwrap();
    match plan2 {
        PlaybackPlan::ProxyVideo { width, .. } => assert_eq!(width, 1024),
        _ => panic!("expected a proxy plan"),
    }
}

#[test]
fn batch_failures_are_collected_with_names() {
    let mut st = OrchestrationState::new();
    let names = vec!["a".to_string(), "b".to_string(), "c".to_string()];
    let verdicts = vec![ProbeVerdict::TimedOut, ProbeVerdict::Converged, ProbeVerdict::TimedOut];
    let outcomes = st.start_services(&names, &verdicts, false, 5);
    let errs = collect_failures(&names, &outcomes, false);
    assert_eq!(
        errs,
        vec![
            OrchestrationError::ServiceFailed("a".to_string()),
            OrchestrationError::ServiceFailed("c".to_string()),
        ]
    );
    // the failed services must be stopped-from-Running to time out on stop
    let mut st2 = OrchestrationState::new();
    st2.start_services(&names, &vec![ProbeVerdict::Converged; 3], false, 1);
    let stop_outcomes = st2.stop_services(&names, &verdicts, false, 2);
    let stop_errs = collect_failures(&names, &stop_outcomes, true);
    assert_eq!(
        stop_errs,
        vec![
            OrchestrationError::ServiceTimeout("a".to_string()),
            OrchestrationError::ServiceTimeout("c".to_string()),
        ]
    );
}

#[test]
fn reconcile_failures_are_collected_with_monitor_ids() {
    let mut state = AppliedState::new();
    let a = monitor_config("DP-1", 2560);
    let b = monitor_config("HDMI-1", 1920);
    let configs = vec![a, b];
    let results = state.apply_configs(&configs, &vec![false, true], false);
    assert_eq!(results, vec![MonitorOutcome::FailedApply, MonitorOutcome::Applied]);
    let errs = collect_apply_failures(&configs, &results);
    assert_eq!(errs, vec![ReconcileError::ApplyFailed("DP-1".to_string())]);
}

#[test]
fn stop_unknown_service_converges() {
    let mut st = OrchestrationState::new();
    let names = vec!["ghost".to_string()];
    let outcomes = st.stop_services(&names, &vec![ProbeVerdict::Converged], false, 10);
    assert_eq!(outcomes, vec![ServiceOutcome::AlreadyConverged]);
    assert!(matches!(st.state_of(&names[0]), ServiceState::Unknown));
}

fn monitor_config(id: &str, width: u32) -> MonitorConfig {
    MonitorConfig {
        monitor_id: id.to_string(),
        video_mode: true,
        source: b"wall.mp4".to_vec(),
        profile: PlaybackProfile::Performance,
        mute_audio: false,
        keep_services: true,
        display_fps: None,
        proxy: kitsune_livewallpaper::options::ProxyParams { width, fps: 30, crf: 24 },
    }
}

#[test]
fn reconciler_applies_only_changed_monitor() {
    let mut state = AppliedState::new();
    let a = monitor_config("DP-1", 2560);
    let b = monitor_config("HDMI-1", 2560);
    // first run applies both
    let configs = vec![a.clone(), b.clone()];
    let r1 = state.apply_configs(&configs, &vec![true, true], false);
    assert_eq!(r1, vec![MonitorOutcome::Applied, MonitorOutcome::Applied]);
    // change only one monitor's parameters
    let b2 = monitor_config("HDMI-1", 1920);
    let configs2 = vec![a.clone(), b2.clone()];
    let r2 = state.apply_configs(&configs2, &vec![true, true], false);
    assert_eq!(r2, vec![MonitorOutcome::Skipped, MonitorOutcome::Applied]);
    assert_eq!(state.recorded_hash(&b2.monitor_id), Some(content_hash(&b2)));
}

#[test]
fn reconciler_failed_apply_keeps_hash_for_retry() {
    let mut state = AppliedState::new();
    let a = monitor_config("DP-1", 2560);
    let configs = vec![a.clone()];
    let r = state.apply_configs(&configs, &vec![false], false);
    assert_eq!(r, vec![MonitorOutcome::FailedApply]);
    assert_eq!(state.recorded_hash(&a.monitor_id), None);
    // the next run retries it
    let r2 = state.apply_configs(&configs, &vec![true], false);
    assert_eq!(r2, vec![MonitorOutcome::Applied]);
}

#[test]
fn reconciler_dry_run_records_nothing() {
    let mut state = AppliedState::new();
    let a = monitor_config("DP-1", 2560);
    let r = state.apply_configs(&vec![a.clone()], &vec![true], true);
    assert_eq!(r, vec![MonitorOutcome::WouldApply]);
    assert_eq!(state.recorded_hash(&a.monitor_id), None);
}

#[test]
fn content_hash_tracks_effective_parameters() {
    let a = monitor_config("DP-1", 2560);
    let mut b = a.clone();
    assert_eq!(content_hash(&a), content_hash(&b));
    b.proxy.fps = 60;
    assert_ne!(content_hash(&a), content_hash(&b));
}

#[test]
fn supervisor_plans_session_steps_in_order() {
    let plan = PlaybackPlan::ProxyVideo {
        width: 2560,
        fps: 60,
        crf: 20,
        seamless_loop: true,
        crossfade_ms: None,
    };
    let steps = plan_session(&plan, false, true, false, false);
    assert_eq!(
        steps,
        vec![
            SessionStep::StopConflicts,
            SessionStep::StartRequired,
            SessionStep::LaunchDecoder,
            SessionStep::StartOverlayLoop,
        ]
    );
    // keeping services skips the stop; a dry run keeps only service steps
    let kept = plan_session(&plan, true, true, false, false);
    assert_eq!(kept[0], SessionStep::StartRequired);
    let dry = plan_session(&plan, false, true, false, true);
    assert_eq!(dry, vec![SessionStep::StopConflicts, SessionStep::StartRequired]);
}

#[test]
fn supervisor_native_plan_opens_audio_before_renderer() {
    let plan = PlaybackPlan::NativeGraph { passes: vec![] };
    let steps = plan_session(&plan, true, false, true, false);
    assert_eq!(
        steps,
        vec![
            SessionStep::StartRequired,
            SessionStep::OpenAudioStream,
            SessionStep::LaunchRenderer,
        ]
    );
}

#[test]
fn supervisor_tears_down_in_reverse_on_failure() {
    let plan = PlaybackPlan::NativeGraph { passes: vec![] };
    let steps = plan_session(&plan, false, true, true, false);
    assert_eq!(steps.len(), 5);
    // the fourth step (the renderer launch) fails
    let results = vec![true, true, true, false, true];
    let outcome = resolve_session(&steps, &results);
    assert_eq!(outcome.executed, 4);
    assert!(outcome.result.is_err());
    assert_eq!(
        outcome.teardown,
        vec![
            SessionStep::OpenAudioStream,
            SessionStep::StartRequired,
            SessionStep::StopConflicts,
        ]
    );
    // full success tears down nothing
    let ok = resolve_session(&steps, &vec![true; 5]);
    assert!(ok.result.is_ok());
    assert!(ok.teardown.is_empty());
}

#[test]
fn overlay_tick_skips_without_metadata() {
    let spec = OverlaySpec { show_clock: true, show_track: true };
    let clock = "12:34".to_string();
    assert_eq!(refresh_tick(&spec, &clock, None), OverlayTick::Skip);
    let meta = TrackMeta { song: "Song".to_string(), artist: "Artist".to_string() };
    match refresh_tick(&spec, &clock, Some(&meta)) {
        OverlayTick::Write(t) => {
            assert_eq!(t.clock.as_deref(), Some("12:34"));
            assert_eq!(t.song.as_deref(), Some("Song"));
            assert_eq!(t.artist.as_deref(), Some("Artist"));
        },
        OverlayTick::Skip => panic!("expected overlay content"),
    }
    let clock_only = OverlaySpec { show_clock: true, show_track: false };
    match refresh_tick(&clock_only, &clock, None) {
        OverlayTick::Write(t) => {
            assert!(t.song.is_none());
            assert!(t.artist.is_none());
        },
        OverlayTick::Skip => panic!("expected clock content"),
    }
}

#[test]
fn scanner_records_failures_and_ranks_by_score() {
    let good = three_layer_package();
    let mut audio_heavy = three_layer_package();
    audio_heavy.scene_id = 8;
    for b in audio_heavy.bindings.iter_mut() {
        b.audio_reactive = true;
    }
    let mut plain = three_layer_package();
    plain.scene_id = 9;
    for b in plain.bindings.iter_mut() {
        b.audio_reactive = false;
    }
    let mut broken = three_layer_package();
    broken.layers[0].id = broken.layers[1].id;
    let batch = vec![Some(plain), None, Some(good), Some(broken), Some(audio_heavy)];
    let results = scan_library(&batch);
    assert_eq!(results.len(), 5);
    assert!(results[0].is_ok());
    assert_eq!(results[1], Err(LoadError::NotFound));
    assert!(results[2].is_ok());
    assert_eq!(results[3], Err(LoadError::MalformedPackage));
    assert!(results[4].is_ok());
    // scores: plain = 23, good = 1023 (audio bonus), audio_heavy = 1023
    assert_eq!(results[0], Ok(23));
    assert_eq!(results[2], Ok(1023));
    let ranked = rank_loaded(&results);
    assert_eq!(ranked.len(), 3);
    // equal scores rank the earlier package first
    assert_eq!(ranked[0].index, 2);
    assert_eq!(ranked[1].index, 4);
    assert_eq!(ranked[2].index, 0);
    let top2 = build_roadmap(&results, 2);
    assert_eq!(top2.len(), 2);
    assert_eq!(top2[0].index, 2);
    assert_eq!(top2[1].index, 4);
    let top9 = build_roadmap(&results, 9);
    assert_eq!(top9.len(), 3);
}

#[test]
fn scanner_aggregates_kind_counts() {
    let pkg = three_layer_package(); // two image layers, one video layer
    let batch = vec![Some(pkg), None];
    let results = scan_library(&batch);
    let counts = kitsune_livewallpaper::scanner::aggregate_kind_counts(&batch, &results);
    assert_eq!(counts.image, 2);
    assert_eq!(counts.video, 1);
    assert_eq!(counts.particle, 0);
    assert_eq!(counts.effect_chain, 0);
}

#[test]
fn profile_and_preset_defaults() {
    let b = profile_defaults(PlaybackProfile::Balanced);
    assert_eq!((b.width, b.fps, b.crf), (2560, 60, 20));
    let p = profile_defaults(PlaybackProfile::Performance);
    let q = profile_defaults(PlaybackProfile::Quality);
    assert!(p.width < b.width && b.width < q.width);
    assert!(p.crf > b.crf && b.crf > q.crf);
    let eco = preset_defaults(ProxyPreset::Eco);
    let ultra = preset_defaults(ProxyPreset::Ultra);
    assert!(eco.width < ultra.width);
}

#[test]
fn autostart_actions() {
    let install = ServiceAutostartCommands::Install { overwrite: false, dry_run: false };
    assert_eq!(autostart_action(&install, true), AutostartAction::Nothing);
    assert_eq!(autostart_action(&install, false), AutostartAction::WriteUnit);
    let force = ServiceAutostartCommands::Install { overwrite: true, dry_run: false };
    assert_eq!(autostart_action(&force, true), AutostartAction::WriteUnit);
    let remove = ServiceAutostartCommands::Remove { dry_run: false };
    assert_eq!(autostart_action(&remove, false), AutostartAction::Nothing);
    assert_eq!(autostart_action(&remove, true), AutostartAction::RemoveUnit);
    assert_eq!(
        autostart_action(&ServiceAutostartCommands::Status, false),
        AutostartAction::ReportStatus
    );
}
