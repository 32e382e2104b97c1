//! Playback supervisor: derives the ordered steps one playback session
//! needs, and decides, from the outcomes of the steps actually executed,
//! what was run and what must be torn down. Launching processes, opening
//! streams and sleeping are external capabilities; the caller executes each
//! step in order, stops at the first failure, and hands the outcomes back.
//! On failure everything already started is undone in reverse order, so a
//! failed apply never leaves orphaned services or streams.

use vstd::prelude::*;
use crate::compiler::PlaybackPlan;
use crate::scene::SceneModel;

verus! {

/// Why a session failed.
#[derive(Debug, Clone, Copy, PartialEq, Eq, Structural)]
pub enum SupervisorError {
    /// A step failed partway; everything already started was rolled back.
    PartialStartupFailure,
}

/// One step of a playback session, in launch order.
#[derive(Debug, Clone, Copy, PartialEq, Eq, Structural)]
pub enum SessionStep {
    /// Stop the declared-conflicting services (skipped with `keepServices`).
    StopConflicts,
    /// Start the services the chosen plan variant requires.
    StartRequired,
    /// Open the live audio bar stream for audio-reactive passes.
    OpenAudioStream,
    /// Launch the native render graph process.
    LaunchRenderer,
    /// Launch the proxy video decode/playback process.
    LaunchDecoder,
    /// Start the text overlay refresh loop.
    StartOverlayLoop,
}

/// The steps a session runs, in order: conflicting services stopped first
/// (unless kept), required services started, then the plan's own launches —
/// the audio stream before the native renderer that polls it, or the proxy
/// decoder — and the overlay loop last. A dry run keeps only the two
/// service steps, whose diffs are computed without issuing actions.
pub open spec fn spec_session_steps(
    plan: PlaybackPlan,
    keep_services: bool,
    overlay: bool,
    needs_audio: bool,
    dry_run: bool,
) -> Seq<SessionStep> {
    let services = (if keep_services {
        Seq::<SessionStep>::empty()
    } else {
        seq![SessionStep::StopConflicts]
    }) + seq![SessionStep::StartRequired];
    if dry_run {
        services
    } else {
        let launches = match plan {
            PlaybackPlan::NativeGraph { .. } => (if needs_audio {
                seq![SessionStep::OpenAudioStream]
            } else {
                Seq::<SessionStep>::empty()
            }) + seq![SessionStep::LaunchRenderer],
            PlaybackPlan::ProxyVideo { .. } => seq![SessionStep::LaunchDecoder],
        };
        services + launches + (if overlay {
            seq![SessionStep::StartOverlayLoop]
        } else {
            Seq::<SessionStep>::empty()
        })
    }
}

/// Derives the ordered steps of one session for this plan. `needs_audio`
/// holds when a native plan carries audio-reactive passes and is supplied
/// by the caller from the compiled scene.
pub fn plan_session(
    plan: &PlaybackPlan,
    keep_services: bool,
    overlay: bool,
    needs_audio: bool,
    dry_run: bool,
) -> (steps: Vec<SessionStep>)
    ensures
        steps@ == spec_session_steps(*plan, keep_services, overlay, needs_audio, dry_run),
{
    let mut steps: Vec<SessionStep> = Vec::new();
    if !keep_services {
        steps.push(SessionStep::StopConflicts);
    }
    steps.push(SessionStep::StartRequired);
    if !dry_run {
        match plan {
            PlaybackPlan::NativeGraph { .. } => {
                if needs_audio {
                    steps.push(SessionStep::OpenAudioStream);
                }
                steps.push(SessionStep::LaunchRenderer);
            },
            PlaybackPlan::ProxyVideo { .. } => {
                steps.push(SessionStep::LaunchDecoder);
            },
        }
        if overlay {
            steps.push(SessionStep::StartOverlayLoop);
        }
    }
    proof {
        assert(steps@ =~= spec_session_steps(*plan, keep_services, overlay, needs_audio, dry_run));
    }
    steps
}

/// What became of one session after its steps were executed in order.
#[derive(Debug, PartialEq, Eq)]
pub struct SessionOutcome {
    /// Steps that were issued: all of them, or everything up to and
    /// including the first failure.
    pub executed: usize,
    /// The steps to undo, in reverse launch order; empty on success.
    pub teardown: Vec<SessionStep>,
    /// The surfaced error, `Ok` only when every step succeeded.
    pub result: Result<(), SupervisorError>,
}

/// Index of the first failed step, or the step count when all succeeded.
pub open spec fn first_failure(results: Seq<bool>) -> int {
    if exists|i: int| 0 <= i < results.len() && !results[i] {
        choose|i: int|
            0 <= i < results.len() && !results[i] && (forall|k: int| 0 <= k < i ==> results[k])
    } else {
        results.len() as int
    }
}

/// Resolves a session from the outcomes of its executed steps: on success
/// all steps ran and nothing is torn down; on the first failure, execution
/// stopped there and every step already started is undone in reverse
/// order, surfacing `PartialStartupFailure`. `results[k]` is the outcome
/// of `steps[k]`; entries past the first failure are ignored, since
/// execution stopped there.
pub fn resolve_session(steps: &Vec<SessionStep>, results: &Vec<bool>) -> (r: SessionOutcome)
    requires
        results@.len() == steps@.len(),
    ensures
        (forall|i: int| 0 <= i < results@.len() ==> results@[i]) ==> (r.executed == steps@.len()
            && r.teardown@.len() == 0 && r.result is Ok),
        (exists|i: int| 0 <= i < results@.len() && !results@[i]) ==> {
            let f = first_failure(results@);
            &&& r.executed == f + 1
            &&& r.teardown@ == steps@.take(f).reverse()
            &&& r.result == Err::<(), SupervisorError>(SupervisorError::PartialStartupFailure)
        },
{
    let mut k: usize = 0;
    while k < results.len() && results[k]
        invariant
            0 <= k <= results@.len(),
            results@.len() == steps@.len(),
            forall|i: int| 0 <= i < k ==> results@[i],
        decreases results@.len() - k,
    {
        k = k + 1;
    }
    if k == results.len() {
        return SessionOutcome { executed: k, teardown: Vec::new(), result: Ok(()) };
    }
    proof {
        assert(!results@[k as int]);
        assert(first_failure(results@) == k as int) by {
            let f = first_failure(results@);
            assert(0 <= f < results@.len() && !results@[f] && (forall|t: int|
                0 <= t < f ==> results@[t]));
            if f < k {
                assert(results@[f]);
            }
            if f > k {
                assert(results@[k as int]);
            }
        }
    }
    let mut teardown: Vec<SessionStep> = Vec::new();
    let mut t: usize = k;
    while t > 0
        invariant
            0 <= t <= k < steps@.len(),
            teardown@.len() == k - t,
            forall|i: int| 0 <= i < teardown@.len() ==> teardown@[i] == steps@[k - 1 - i],
        decreases t,
    {
        t = t - 1;
        teardown.push(steps[t]);
    }
    proof {
        assert(teardown@ =~= steps@.take(k as int).reverse());
    }
    SessionOutcome {
        executed: k + 1,
        teardown,
        result: Err(SupervisorError::PartialStartupFailure),
    }
}

/// Whether a compiled plan needs the live audio bar stream: a native graph
/// whose scene carries audio-reactive bindings polls current bars at paint
/// time; a proxy video never does.
pub fn plan_needs_audio(plan: &PlaybackPlan, scene: &SceneModel) -> (r: bool)
    ensures
        r == (plan matches PlaybackPlan::NativeGraph { .. }
            && scene.spec_has_audio_reactive()),
{
    match plan {
        PlaybackPlan::NativeGraph { .. } => scene.has_audio_reactive(),
        PlaybackPlan::ProxyVideo { .. } => false,
    }
}

} // verus!
