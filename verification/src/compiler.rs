//! Render plan compiler: turns a scene model or a bare video source,
//! together with a playback profile, a transport preference and display
//! constraints, into a playback plan — either a native render graph with one
//! pass per layer in ascending draw order, or a proxy-video transcode
//! description derived from the profile and the caller's overrides.

use vstd::prelude::*;
use crate::options::{GpuTransport, PlaybackProfile, ProxyParams, spec_profile_defaults, profile_defaults};
use crate::scene::{EffectBinding, Layer, LayerKind, SceneModel, VideoSource, layers_sorted_by_z};

verus! {

/// Why compilation failed.
#[derive(Debug, Clone, Copy, PartialEq, Eq, Structural)]
pub enum CompileError {
    /// `require_native` was set but the native path cannot serve this input.
    CapabilityMismatch,
    /// An explicit proxy override or crossfade duration is out of bounds.
    InvalidParameters,
}

/// One pass of the native render graph: the layer it draws, its resolved
/// effect chain, and the effect ids wired to the live audio bar stream.
#[derive(Debug, Clone, PartialEq, Eq)]
pub struct RenderPass {
    pub layer_id: u64,
    pub kind: LayerKind,
    pub z_order: i32,
    pub effect_ids: Vec<u64>,
    pub audio_binding_ids: Vec<u64>,
}

/// The compiled playback plan: exactly one of the two strategies.
#[derive(Debug, Clone, PartialEq, Eq)]
pub enum PlaybackPlan {
    /// Direct GPU rendering, one pass per layer in draw order.
    NativeGraph { passes: Vec<RenderPass> },
    /// Pre-transcoded proxy video playback.
    ProxyVideo {
        width: u32,
        fps: u32,
        crf: u8,
        seamless_loop: bool,
        crossfade_ms: Option<u32>,
    },
}

/// What compilation starts from: a full scene or a bare video file.
#[derive(Debug, Clone, PartialEq, Eq)]
pub enum CompileInput {
    Scene(SceneModel),
    Video(VideoSource),
}

/// Caller request: transport preference, profile, explicit proxy overrides
/// (which beat profile defaults), auto-tuning against the display, and loop
/// shaping for the proxy path.
#[derive(Debug, Clone, Copy, PartialEq, Eq, Structural)]
pub struct CompileRequest {
    pub transport: GpuTransport,
    pub require_native: bool,
    pub profile: PlaybackProfile,
    pub override_width: Option<u32>,
    pub override_fps: Option<u32>,
    pub override_crf: Option<u8>,
    pub auto_tune: bool,
    pub seamless_loop: bool,
    pub crossfade_ms: Option<u32>,
}

/// Declared facts about the target display, used only by auto-tuning.
#[derive(Debug, Clone, Copy, PartialEq, Eq, Structural)]
pub struct DisplayConstraints {
    pub max_width: u32,
    pub max_fps: u32,
}

/// Narrowest and widest proxy output width accepted.
pub const MIN_PROXY_WIDTH: u32 = 640;

pub const MAX_PROXY_WIDTH: u32 = 7680;

/// Highest proxy frame rate accepted.
pub const MAX_PROXY_FPS: u32 = 240;

/// Highest constant rate factor accepted.
pub const MAX_PROXY_CRF: u8 = 51;

impl DisplayConstraints {
    /// A display description stays within the same sane bounds the proxy
    /// parameters must meet.
    pub open spec fn wf(self) -> bool {
        &&& MIN_PROXY_WIDTH <= self.max_width <= MAX_PROXY_WIDTH
        &&& 1 <= self.max_fps <= MAX_PROXY_FPS
    }
}

/// Proxy parameters within sane display bounds.
pub open spec fn proxy_bounds_ok(width: u32, fps: u32, crf: u8) -> bool {
    &&& MIN_PROXY_WIDTH <= width <= MAX_PROXY_WIDTH
    &&& 1 <= fps <= MAX_PROXY_FPS
    &&& crf <= MAX_PROXY_CRF
}

/// Whether the native renderer can draw a layer of this kind. Particle
/// simulations have no native implementation and force the proxy path.
pub open spec fn spec_native_supported(kind: LayerKind) -> bool {
    kind != LayerKind::Particle
}

/// Whether the native renderer can draw every layer of the scene.
pub open spec fn all_layers_native(layers: Seq<Layer>) -> bool {
    forall|i: int| 0 <= i < layers.len() ==> spec_native_supported(#[trigger] layers[i].kind)
}

/// The native path serves a scene exactly when the caller prefers it and
/// every layer kind is supported.
pub open spec fn native_capability(s: SceneModel, req: CompileRequest) -> bool {
    req.transport == GpuTransport::NativeRealtime && all_layers_native(s.layers@)
}

/// The effect ids of `bindings` that target layer `lid`, in binding order;
/// with `audio_only` only the audio-reactive ones.
pub open spec fn chain_of(bindings: Seq<EffectBinding>, lid: u64, audio_only: bool) -> Seq<u64>
    decreases bindings.len(),
{
    if bindings.len() == 0 {
        Seq::empty()
    } else {
        let rest = chain_of(bindings.drop_last(), lid, audio_only);
        let b = bindings.last();
        if b.layer_id == lid && (!audio_only || b.audio_reactive) {
            rest.push(b.effect_id)
        } else {
            rest
        }
    }
}

/// A render pass draws exactly one layer and carries its resolved effect
/// chain and audio-reactive wiring.
pub open spec fn pass_matches(p: RenderPass, l: Layer, bindings: Seq<EffectBinding>) -> bool {
    &&& p.layer_id == l.id
    &&& p.kind == l.kind
    &&& p.z_order == l.z_order
    &&& p.effect_ids@ == chain_of(bindings, l.id, false)
    &&& p.audio_binding_ids@ == chain_of(bindings, l.id, true)
}

/// A native render graph for scene `s`: one matching pass per layer, in the
/// scene's (ascending z) layer order.
pub open spec fn native_plan_ok(s: SceneModel, passes: Seq<RenderPass>) -> bool {
    &&& passes.len() == s.layers@.len()
    &&& (forall|i: int|
        0 <= i < passes.len() ==> pass_matches(#[trigger] passes[i], s.layers@[i], s.bindings@))
}

/// An explicit override or a crossfade that cannot be honored. A crossfade
/// is only meaningful against a video's known loop duration and must be
/// strictly shorter than it.
pub open spec fn invalid_request(input: CompileInput, req: CompileRequest) -> bool {
    ||| (req.override_width matches Some(w) && !(MIN_PROXY_WIDTH <= w <= MAX_PROXY_WIDTH))
    ||| (req.override_fps matches Some(f) && !(1 <= f <= MAX_PROXY_FPS))
    ||| (req.override_crf matches Some(c) && c > MAX_PROXY_CRF)
    ||| (input matches CompileInput::Video(v) && req.crossfade_ms matches Some(cf) && cf as u64
        >= v.duration_ms)
}

/// Whether the decision policy sends this input down the proxy path.
pub open spec fn proxy_path_taken(input: CompileInput, req: CompileRequest) -> bool {
    match input {
        CompileInput::Video(_) => true,
        CompileInput::Scene(s) => !native_capability(s, req) && !req.require_native,
    }
}

/// The proxy parameters the request derives: explicit overrides beat the
/// profile defaults, and auto-tuning lowers width and frame rate to the
/// display's bounds, never raising anything.
pub open spec fn spec_derive_proxy(req: CompileRequest, c: DisplayConstraints) -> ProxyParams {
    let d = spec_profile_defaults(req.profile);
    let w0 = match req.override_width {
        Some(w) => w,
        None => d.width,
    };
    let f0 = match req.override_fps {
        Some(f) => f,
        None => d.fps,
    };
    let crf = match req.override_crf {
        Some(x) => x,
        None => d.crf,
    };
    let w = if req.auto_tune && w0 > c.max_width {
        c.max_width
    } else {
        w0
    };
    let f = if req.auto_tune && f0 > c.max_fps {
        c.max_fps
    } else {
        f0
    };
    ProxyParams { width: w, fps: f, crf }
}

/// The crossfade the proxy plan carries: the caller's request for a video
/// input, none for a scene (a scene proxy has no declared loop duration).
pub open spec fn spec_plan_crossfade(input: CompileInput, req: CompileRequest) -> Option<u32> {
    match input {
        CompileInput::Video(_) => req.crossfade_ms,
        CompileInput::Scene(_) => None,
    }
}

/// Reports whether the native renderer can draw a layer of this kind.
pub fn native_supported(kind: LayerKind) -> (r: bool)
    ensures
        r == spec_native_supported(kind),
{
    match kind {
        LayerKind::Particle => false,
        _ => true,
    }
}

/// Collects the effect chain of one layer: all of its effect ids in binding
/// order, and, separately, the audio-reactive ones wired to the bar stream.
fn collect_chains(bindings: &Vec<EffectBinding>, lid: u64) -> (r: (Vec<u64>, Vec<u64>))
    ensures
        r.0@ == chain_of(bindings@, lid, false),
        r.1@ == chain_of(bindings@, lid, true),
{
    let mut all: Vec<u64> = Vec::new();
    let mut audio: Vec<u64> = Vec::new();
    let mut i: usize = 0;
    proof {
        assert(bindings@.subrange(0, 0) =~= Seq::<EffectBinding>::empty());
    }
    while i < bindings.len()
        invariant
            0 <= i <= bindings@.len(),
            all@ == chain_of(bindings@.subrange(0, i as int), lid, false),
            audio@ == chain_of(bindings@.subrange(0, i as int), lid, true),
        decreases bindings@.len() - i,
    {
        let b = &bindings[i];
        proof {
            let sub1 = bindings@.subrange(0, i as int + 1);
            assert(sub1.drop_last() =~= bindings@.subrange(0, i as int));
            assert(sub1.last() == bindings@[i as int]);
        }
        if b.layer_id == lid {
            all.push(b.effect_id);
            if b.audio_reactive {
                audio.push(b.effect_id);
            }
        }
        i = i + 1;
    }
    proof {
        assert(bindings@.subrange(0, bindings@.len() as int) =~= bindings@);
    }
    (all, audio)
}

/// Builds the native render graph of a well-formed scene: one pass per layer
/// in the scene's ascending draw order.
fn build_native_passes(s: &SceneModel) -> (passes: Vec<RenderPass>)
    ensures
        native_plan_ok(*s, passes@),
{
    let mut passes: Vec<RenderPass> = Vec::new();
    let mut i: usize = 0;
    while i < s.layers.len()
        invariant
            0 <= i <= s.layers@.len(),
            passes@.len() == i,
            forall|k: int|
                0 <= k < i ==> pass_matches(#[trigger] passes@[k], s.layers@[k], s.bindings@),
        decreases s.layers@.len() - i,
    {
        let l = &s.layers[i];
        let (effect_ids, audio_binding_ids) = collect_chains(&s.bindings, l.id);
        passes.push(
            RenderPass {
                layer_id: l.id,
                kind: l.kind,
                z_order: l.z_order,
                effect_ids,
                audio_binding_ids,
            },
        );
        i = i + 1;
    }
    passes
}

/// Compiles an input into a playback plan, by the decision policy:
/// a bare video always takes the proxy path; a scene takes the native path
/// exactly when the caller prefers `NativeRealtime` and every layer kind is
/// natively supported; `require_native` turns a missed native path into a
/// `CapabilityMismatch` instead of a silent proxy fallback; everything else
/// is a proxy plan with parameters derived from the profile, the caller's
/// overrides and, under auto-tuning, the display constraints.
pub fn compile(input: &CompileInput, req: &CompileRequest, constraints: &DisplayConstraints) -> (r:
    Result<PlaybackPlan, CompileError>)
    requires
        (input matches CompileInput::Scene(s) ==> s.wf()),
        constraints.wf(),
    ensures
        (match input {
            CompileInput::Scene(s) => native_capability(*s, *req) ==> (r matches Ok(p)
                && p matches PlaybackPlan::NativeGraph { passes } && native_plan_ok(*s, passes@)),
            // a bare video always takes the proxy path, whatever the
            // transport preference
            CompileInput::Video(_) => !(r matches Ok(p) && p matches PlaybackPlan::NativeGraph {
                ..
            }),
        }),
        r == Err::<PlaybackPlan, CompileError>(CompileError::CapabilityMismatch) <==> (input
            matches CompileInput::Scene(s) && req.require_native && !native_capability(*s, *req)),
        r == Err::<PlaybackPlan, CompileError>(CompileError::InvalidParameters) <==> (
        proxy_path_taken(*input, *req) && invalid_request(*input, *req)),
        proxy_path_taken(*input, *req) && !invalid_request(*input, *req) ==> (r matches Ok(p)
            && p matches PlaybackPlan::ProxyVideo { width, fps, crf, seamless_loop, crossfade_ms }
            && ProxyParams { width, fps, crf } == spec_derive_proxy(*req, *constraints)
            && seamless_loop == req.seamless_loop && crossfade_ms == spec_plan_crossfade(
            *input,
            *req,
        )),
{
    let scene_native: bool = match input {
        CompileInput::Scene(s) => {
            let mut ok: bool = true;
            let mut i: usize = 0;
            while i < s.layers.len()
                invariant
                    0 <= i <= s.layers@.len(),
                    ok == (forall|k: int|
                        0 <= k < i ==> spec_native_supported(#[trigger] s.layers@[k].kind)),
                decreases s.layers@.len() - i,
            {
                if !native_supported(s.layers[i].kind) {
                    ok = false;
                }
                i = i + 1;
            }
            ok
        },
        CompileInput::Video(_) => false,
    };
    match input {
        CompileInput::Scene(s) => {
            if matches!(req.transport, GpuTransport::NativeRealtime) && scene_native {
                let passes = build_native_passes(s);
                return Ok(PlaybackPlan::NativeGraph { passes });
            }
            if req.require_native {
                return Err(CompileError::CapabilityMismatch);
            }
        },
        CompileInput::Video(_) => {},
    }
    // proxy path
    if let Some(w) = req.override_width {
        if w < MIN_PROXY_WIDTH || w > MAX_PROXY_WIDTH {
            return Err(CompileError::InvalidParameters);
        }
    }
    if let Some(f) = req.override_fps {
        if f < 1 || f > MAX_PROXY_FPS {
            return Err(CompileError::InvalidParameters);
        }
    }
    if let Some(c) = req.override_crf {
        if c > MAX_PROXY_CRF {
            return Err(CompileError::InvalidParameters);
        }
    }
    let crossfade_ms: Option<u32> = match input {
        CompileInput::Video(v) => {
            match req.crossfade_ms {
                Some(cf) => {
                    if cf as u64 >= v.duration_ms {
                        return Err(CompileError::InvalidParameters);
                    }
                    Some(cf)
                },
                None => None,
            }
        },
        CompileInput::Scene(_) => None,
    };
    let d = profile_defaults(req.profile);
    let w0 = match req.override_width {
        Some(w) => w,
        None => d.width,
    };
    let f0 = match req.override_fps {
        Some(f) => f,
        None => d.fps,
    };
    let crf = match req.override_crf {
        Some(c) => c,
        None => d.crf,
    };
    let width = if req.auto_tune && w0 > constraints.max_width {
        constraints.max_width
    } else {
        w0
    };
    let fps = if req.auto_tune && f0 > constraints.max_fps {
        constraints.max_fps
    } else {
        f0
    };
    Ok(
        PlaybackPlan::ProxyVideo {
            width,
            fps,
            crf,
            seamless_loop: req.seamless_loop,
            crossfade_ms,
        },
    )
}

/// Derived proxy parameters never exceed what the caller asked for: an
/// explicit override is an upper bound on the derived value, and under
/// auto-tuning the display constraints bound width and frame rate too —
/// tuning only ever adjusts downward.
pub proof fn lemma_tuning_never_raises(req: CompileRequest, c: DisplayConstraints)
    ensures
        req.override_width matches Some(w) ==> spec_derive_proxy(req, c).width <= w,
        req.override_fps matches Some(f) ==> spec_derive_proxy(req, c).fps <= f,
        req.auto_tune ==> spec_derive_proxy(req, c).width <= c.max_width,
        req.auto_tune ==> spec_derive_proxy(req, c).fps <= c.max_fps,
{
}

/// In a native render graph built from a well-formed scene, passes stand in
/// strictly ascending z order: the graph's order is the draw order.
pub proof fn lemma_native_passes_ascending(s: SceneModel, passes: Seq<RenderPass>)
    requires
        s.wf(),
        native_plan_ok(s, passes),
    ensures
        forall|i: int, j: int|
            0 <= i < j < passes.len() ==> #[trigger] passes[i].z_order < #[trigger] passes[j].z_order,
{
    assert forall|i: int, j: int|
        0 <= i < j < passes.len() implies #[trigger] passes[i].z_order
        < #[trigger] passes[j].z_order by {
        assert(pass_matches(passes[i], s.layers@[i], s.bindings@));
        assert(pass_matches(passes[j], s.layers@[j], s.bindings@));
        assert(layers_sorted_by_z(s.layers@));
        assert(s.layers@[i].z_order < s.layers@[j].z_order);
    }
}

} // verus!
