//! Scene loader / normalizer: turns a raw on-disk wallpaper package, already
//! read and decoded into plain values by the caller, into a well-formed
//! [`SceneModel`]. Structure is validated (unique layer ids and draw orders,
//! resolving effect bindings, at most one primary video source, effect
//! parameter arity per known effect kind), layers are normalized into strict
//! ascending z order, and unknown layer or effect kinds are tolerated as
//! generic passthroughs rather than rejected.

use vstd::prelude::*;
use vstd::seq_lib::group_to_multiset_ensures;
use crate::scene::{
    AudioVisualizerSpec, ChannelMode, EffectBinding, Layer, LayerKind, SceneModel, Transform,
    VideoSource, layer_ids_unique, layers_sorted_by_z,
};

verus! {

/// Why a package could not be loaded.
#[derive(Debug, Clone, Copy, PartialEq, Eq, Structural)]
pub enum LoadError {
    /// A structural invariant of the package is violated.
    MalformedPackage,
    /// The package's format version is newer than this engine supports.
    UnsupportedFormatVersion,
    /// The package path does not exist.
    NotFound,
}

/// A layer as it appears in a source package, before normalization.
#[derive(Debug, Clone, Copy, PartialEq, Eq, Structural)]
pub struct RawLayer {
    pub id: u64,
    /// Format-level kind code; codes outside the known range become
    /// passthrough effect-chain layers.
    pub kind_code: u32,
    pub offset_x: i32,
    pub offset_y: i32,
    pub scale_pct: u32,
    pub visible: bool,
    pub z_order: i32,
}

/// An effect binding as it appears in a source package.
#[derive(Debug, Clone, PartialEq, Eq)]
pub struct RawBinding {
    pub layer_id: u64,
    pub effect_id: u64,
    /// Format-level effect kind code, used only to check parameter arity;
    /// unknown codes are preserved as generic passthrough effects.
    pub effect_kind: u32,
    pub parameters: Vec<i64>,
    pub audio_reactive: bool,
}

/// A visualizer request as it appears in a source package.
#[derive(Debug, Clone, Copy, PartialEq, Eq, Structural)]
pub struct RawVisualizer {
    pub bar_count: usize,
    pub stereo: bool,
}

/// A video source entry of a source package.
#[derive(Debug, Clone, PartialEq, Eq)]
pub struct RawVideo {
    pub path: Vec<u8>,
    pub duration_ms: u64,
    pub has_alpha: bool,
}

/// A decoded wallpaper package, as handed over by the I/O layer.
#[derive(Debug, Clone, PartialEq, Eq)]
pub struct RawPackage {
    pub scene_id: u64,
    pub format_version: u32,
    pub layers: Vec<RawLayer>,
    pub bindings: Vec<RawBinding>,
    pub visualizer: Option<RawVisualizer>,
    pub videos: Vec<RawVideo>,
}

/// Newest package format version this engine understands.
pub const SUPPORTED_FORMAT_VERSION: u32 = 2;

/// The layer kind a format code denotes. Unknown codes normalize to a
/// generic `EffectChain` passthrough.
pub open spec fn spec_kind_of_code(code: u32) -> LayerKind {
    if code == 0 {
        LayerKind::Image
    } else if code == 1 {
        LayerKind::Video
    } else if code == 2 {
        LayerKind::Particle
    } else {
        LayerKind::EffectChain
    }
}

/// Expected parameter arity of a known effect kind code, or `None` when the
/// code is unknown and any arity is tolerated.
pub open spec fn spec_effect_arity(effect_kind: u32) -> Option<usize> {
    if effect_kind == 0 {
        Some(0usize)
    } else if effect_kind == 1 {
        Some(1usize)
    } else if effect_kind == 2 {
        Some(2usize)
    } else if effect_kind == 3 {
        Some(4usize)
    } else {
        None
    }
}

/// The canonical layer a raw layer normalizes to.
pub open spec fn spec_norm_layer(r: RawLayer) -> Layer {
    Layer {
        id: r.id,
        kind: spec_kind_of_code(r.kind_code),
        transform: Transform {
            offset_x: r.offset_x,
            offset_y: r.offset_y,
            scale_pct: r.scale_pct,
        },
        visible: r.visible,
        z_order: r.z_order,
    }
}

/// A canonical binding carries exactly the fields of a raw binding.
pub open spec fn binding_matches(b: EffectBinding, r: RawBinding) -> bool {
    &&& b.layer_id == r.layer_id
    &&& b.effect_id == r.effect_id
    &&& b.parameters@ == r.parameters@
    &&& b.audio_reactive == r.audio_reactive
}

/// A canonical video source carries exactly the fields of a raw video entry.
pub open spec fn video_matches(v: VideoSource, r: RawVideo) -> bool {
    &&& v.path@ == r.path@
    &&& v.duration_ms == r.duration_ms
    &&& v.has_alpha == r.has_alpha
}

/// Raw layer ids are pairwise distinct.
pub open spec fn raw_ids_unique(layers: Seq<RawLayer>) -> bool {
    forall|i: int, j: int| 0 <= i < j < layers.len() ==> layers[i].id != layers[j].id
}

/// Raw z orders are pairwise distinct.
pub open spec fn raw_z_unique(layers: Seq<RawLayer>) -> bool {
    forall|i: int, j: int| 0 <= i < j < layers.len() ==> layers[i].z_order != layers[j].z_order
}

/// Some raw layer has id `id`.
pub open spec fn raw_has_layer_id(layers: Seq<RawLayer>, id: u64) -> bool {
    exists|i: int| 0 <= i < layers.len() && layers[i].id == id
}

/// A raw binding is acceptable: it resolves to a layer and, when its effect
/// kind is known, carries the expected number of parameters.
pub open spec fn raw_binding_ok(layers: Seq<RawLayer>, b: RawBinding) -> bool {
    &&& raw_has_layer_id(layers, b.layer_id)
    &&& (match spec_effect_arity(b.effect_kind) {
        Some(n) => b.parameters@.len() == n,
        None => true,
    })
}

/// All structural invariants a package must meet once its version is
/// accepted: at most one primary video source, unique layer ids and draw
/// orders, and acceptable bindings.
pub open spec fn package_structure_ok(p: RawPackage) -> bool {
    &&& p.videos@.len() <= 1
    &&& raw_ids_unique(p.layers@)
    &&& raw_z_unique(p.layers@)
    &&& (forall|i: int| 0 <= i < p.bindings@.len() ==> raw_binding_ok(p.layers@, #[trigger] p.bindings@[i]))
}

/// The scene model a structurally valid package denotes: normalized layers
/// in ascending draw order, bindings in package order, the visualizer and
/// the primary video source carried over.
pub open spec fn loaded_model_ok(p: RawPackage, m: SceneModel) -> bool {
    &&& m.wf()
    &&& m.id == p.scene_id
    &&& m.layers@.len() == p.layers@.len()
    &&& m.layers@.to_multiset() == p.layers@.map_values(|r: RawLayer| spec_norm_layer(r)).to_multiset()
    &&& m.bindings@.len() == p.bindings@.len()
    &&& (forall|i: int|
        0 <= i < p.bindings@.len() ==> binding_matches(#[trigger] m.bindings@[i], p.bindings@[i]))
    &&& m.visualizer == (match p.visualizer {
        Some(v) => Some(AudioVisualizerSpec {
            bar_count: v.bar_count,
            channel_mode: if v.stereo { ChannelMode::Stereo } else { ChannelMode::Mono },
        }),
        None => None::<AudioVisualizerSpec>,
    })
    &&& (if p.videos@.len() == 1 {
        m.video matches Some(v) && video_matches(v, p.videos@[0])
    } else {
        m.video is None
    })
}

/// Maps a format kind code to the canonical layer kind.
pub(crate) fn kind_of_code(code: u32) -> (r: LayerKind)
    ensures
        r == spec_kind_of_code(code),
{
    if code == 0 {
        LayerKind::Image
    } else if code == 1 {
        LayerKind::Video
    } else if code == 2 {
        LayerKind::Particle
    } else {
        LayerKind::EffectChain
    }
}

/// Normalizes one raw layer.
fn norm_layer(r: &RawLayer) -> (l: Layer)
    ensures
        l == spec_norm_layer(*r),
{
    Layer {
        id: r.id,
        kind: kind_of_code(r.kind_code),
        transform: Transform {
            offset_x: r.offset_x,
            offset_y: r.offset_y,
            scale_pct: r.scale_pct,
        },
        visible: r.visible,
        z_order: r.z_order,
    }
}

/// Checks that raw layer ids and z orders are pairwise distinct.
fn check_layers_unique(layers: &Vec<RawLayer>) -> (r: bool)
    ensures
        r == (raw_ids_unique(layers@) && raw_z_unique(layers@)),
{
    let n = layers.len();
    let mut i: usize = 0;
    while i < n
        invariant
            0 <= i <= n,
            n == layers@.len(),
            forall|p: int, q: int|
                0 <= p < q < layers@.len() && p < i ==> layers@[p].id != layers@[q].id,
            forall|p: int, q: int|
                0 <= p < q < layers@.len() && p < i ==> layers@[p].z_order != layers@[q].z_order,
        decreases n - i,
    {
        let mut j: usize = i + 1;
        while j < n
            invariant
                0 <= i < j <= n,
                n == layers@.len(),
                forall|q: int| i < q < j ==> layers@[i as int].id != layers@[q].id,
                forall|q: int| i < q < j ==> layers@[i as int].z_order != layers@[q].z_order,
            decreases n - j,
        {
            if layers[i].id == layers[j].id || layers[i].z_order == layers[j].z_order {
                return false;
            }
            j = j + 1;
        }
        i = i + 1;
    }
    true
}

/// Checks that every binding resolves to a layer and matches the parameter
/// arity of its effect kind when that kind is known.
fn check_bindings(layers: &Vec<RawLayer>, bindings: &Vec<RawBinding>) -> (r: bool)
    ensures
        r == (forall|i: int|
            0 <= i < bindings@.len() ==> raw_binding_ok(layers@, #[trigger] bindings@[i])),
{
    let mut i: usize = 0;
    while i < bindings.len()
        invariant
            0 <= i <= bindings@.len(),
            forall|k: int| 0 <= k < i ==> raw_binding_ok(layers@, #[trigger] bindings@[k]),
        decreases bindings@.len() - i,
    {
        let b = &bindings[i];
        let mut found: bool = false;
        let mut j: usize = 0;
        while j < layers.len()
            invariant
                0 <= j <= layers@.len(),
                found == (exists|k: int| 0 <= k < j && layers@[k].id == b.layer_id),
            decreases layers@.len() - j,
        {
            if layers[j].id == b.layer_id {
                found = true;
            }
            j = j + 1;
        }
        if !found {
            return false;
        }
        let arity_ok: bool = if b.effect_kind == 0 {
            b.parameters.len() == 0
        } else if b.effect_kind == 1 {
            b.parameters.len() == 1
        } else if b.effect_kind == 2 {
            b.parameters.len() == 2
        } else if b.effect_kind == 3 {
            b.parameters.len() == 4
        } else {
            true
        };
        if !arity_ok {
            return false;
        }
        i = i + 1;
    }
    true
}

/// Normalizes the raw layers and orders them by strictly ascending z order,
/// by insertion into the sorted prefix.
fn normalize_and_sort_layers(layers: &Vec<RawLayer>) -> (out: Vec<Layer>)
    requires
        raw_ids_unique(layers@),
        raw_z_unique(layers@),
    ensures
        out@.len() == layers@.len(),
        layers_sorted_by_z(out@),
        layer_ids_unique(out@),
        out@.to_multiset() == layers@.map_values(|r: RawLayer| spec_norm_layer(r)).to_multiset(),
{
    broadcast use group_to_multiset_ensures;

    let ghost f = |r: RawLayer| spec_norm_layer(r);
    let mut out: Vec<Layer> = Vec::new();
    let mut i: usize = 0;
    assert(layers@.subrange(0, 0).map_values(f) =~= Seq::<Layer>::empty());
    while i < layers.len()
        invariant
            0 <= i <= layers@.len(),
            raw_ids_unique(layers@),
            raw_z_unique(layers@),
            f == (|r: RawLayer| spec_norm_layer(r)),
            out@.len() == i,
            layers_sorted_by_z(out@),
            out@.to_multiset() == layers@.subrange(0, i as int).map_values(f).to_multiset(),
            forall|p: int|
                0 <= p < out@.len() ==> exists|k: int|
                    0 <= k < i && #[trigger] out@[p] == spec_norm_layer(layers@[k]),
        decreases layers@.len() - i,
    {
        let x = norm_layer(&layers[i]);
        // find the first position whose z order does not fall below the new
        // layer's
        let mut j: usize = 0;
        while j < out.len() && out[j].z_order < x.z_order
            invariant
                0 <= j <= out@.len(),
                forall|k: int| 0 <= k < j ==> out@[k].z_order < x.z_order,
            decreases out@.len() - j,
        {
            j = j + 1;
        }
        proof {
            // at and above the insertion point every z order is strictly
            // larger: equality would mean a duplicate raw z order
            assert forall|k: int| j <= k < out@.len() implies out@[k].z_order > x.z_order by {
                let t = choose|t: int| 0 <= t < i && out@[k] == spec_norm_layer(layers@[t]);
                assert(layers@[t].z_order != layers@[i as int].z_order);
                if k > j {
                    assert(out@[j as int].z_order < out@[k].z_order);
                }
            }
        }
        let ghost old_out = out@;
        out.insert(j, x);
        proof {
            assert(out@ == old_out.insert(j as int, x));
            old_out.insert_ensures(j as int, x);
            let prev = layers@.subrange(0, i as int).map_values(f);
            vstd::seq_lib::to_multiset_insert(old_out, j as int, x);
            assert(out@.to_multiset() == old_out.to_multiset().insert(x));
            assert(x == f(layers@[i as int]));
            assert(layers@.subrange(0, i as int + 1).map_values(f) =~= prev.push(
                f(layers@[i as int]),
            ));
            vstd::seq_lib::to_multiset_build(prev, x);
            assert(prev.push(x).to_multiset() == prev.to_multiset().insert(x));
            assert(out@.to_multiset() == layers@.subrange(0, i as int + 1).map_values(
                f,
            ).to_multiset());
            assert forall|p: int| 0 <= p < out@.len() implies exists|k: int|
                0 <= k < i + 1 && #[trigger] out@[p] == spec_norm_layer(layers@[k]) by {
                if p < j {
                    assert(out@[p] == old_out[p]);
                } else if p == j {
                    assert(out@[p] == spec_norm_layer(layers@[i as int]));
                } else {
                    assert(out@[p] == old_out[p - 1]);
                }
            }
            // strict sortedness is kept: below the insertion point every z
            // order is smaller than the new layer's, at and above it larger
            assert forall|p: int, q: int|
                0 <= p < q < out@.len() implies out@[p].z_order < out@[q].z_order by {
                if p < j {
                    assert(out@[p] == old_out[p]);
                } else if p == j {
                    assert(out@[p] == x);
                } else {
                    assert(out@[p] == old_out[p - 1]);
                }
                if q < j {
                    assert(out@[q] == old_out[q]);
                } else if q == j {
                    assert(out@[q] == x);
                } else {
                    assert(out@[q] == old_out[q - 1]);
                }
            }
        }
        i = i + 1;
    }
    proof {
        assert(layers@.subrange(0, layers@.len() as int) =~= layers@);
        // unique raw ids carry over to the sorted output
        assert forall|p: int, q: int|
            0 <= p < q < out@.len() implies out@[p].id != out@[q].id by {
            let kp = choose|k: int|
                0 <= k < layers@.len() && out@[p] == spec_norm_layer(layers@[k]);
            let kq = choose|k: int|
                0 <= k < layers@.len() && out@[q] == spec_norm_layer(layers@[k]);
            assert(out@[p].z_order != out@[q].z_order);
            assert(kp != kq);
        }
    }
    out
}

/// Copies a byte vector.
fn copy_bytes(v: &Vec<u8>) -> (out: Vec<u8>)
    ensures
        out@ == v@,
{
    let mut out: Vec<u8> = Vec::new();
    let mut i: usize = 0;
    while i < v.len()
        invariant
            0 <= i <= v@.len(),
            out@ == v@.subrange(0, i as int),
        decreases v@.len() - i,
    {
        out.push(v[i]);
        proof {
            assert(out@ =~= v@.subrange(0, i as int + 1));
        }
        i = i + 1;
    }
    proof {
        assert(out@ =~= v@);
    }
    out
}

/// Normalizes the raw bindings in package order.
fn norm_bindings(bindings: &Vec<RawBinding>) -> (out: Vec<EffectBinding>)
    ensures
        out@.len() == bindings@.len(),
        forall|i: int|
            0 <= i < bindings@.len() ==> binding_matches(#[trigger] out@[i], bindings@[i]),
{
    let mut out: Vec<EffectBinding> = Vec::new();
    let mut i: usize = 0;
    while i < bindings.len()
        invariant
            0 <= i <= bindings@.len(),
            out@.len() == i,
            forall|k: int| 0 <= k < i ==> binding_matches(#[trigger] out@[k], bindings@[k]),
        decreases bindings@.len() - i,
    {
        let b = &bindings[i];
        let mut params: Vec<i64> = Vec::new();
        let mut j: usize = 0;
        while j < b.parameters.len()
            invariant
                0 <= j <= b.parameters@.len(),
                params@ == b.parameters@.subrange(0, j as int),
            decreases b.parameters@.len() - j,
        {
            params.push(b.parameters[j]);
            proof {
                assert(params@ =~= b.parameters@.subrange(0, j as int + 1));
            }
            j = j + 1;
        }
        proof {
            assert(params@ =~= b.parameters@);
        }
        let nb = EffectBinding {
            layer_id: b.layer_id,
            effect_id: b.effect_id,
            parameters: params,
            audio_reactive: b.audio_reactive,
        };
        out.push(nb);
        i = i + 1;
    }
    out
}

/// Loads a wallpaper package into a well-formed scene model. `None` stands
/// for a package path that does not exist. A version marker newer than
/// [`SUPPORTED_FORMAT_VERSION`] is rejected; structural violations (a second
/// primary video source, duplicate layer ids or draw orders, a binding that
/// does not resolve, a known effect kind with the wrong parameter arity) are
/// rejected as malformed; everything else — unknown layer or effect kinds
/// included — loads.
pub fn load_package(pkg: Option<&RawPackage>) -> (r: Result<SceneModel, LoadError>)
    ensures
        pkg is None <==> r == Err::<SceneModel, LoadError>(LoadError::NotFound),
        pkg matches Some(p) && p.format_version > SUPPORTED_FORMAT_VERSION <==> r == Err::<
            SceneModel,
            LoadError,
        >(LoadError::UnsupportedFormatVersion),
        pkg matches Some(p) && p.format_version <= SUPPORTED_FORMAT_VERSION
            && !package_structure_ok(*p) <==> r == Err::<SceneModel, LoadError>(
            LoadError::MalformedPackage,
        ),
        (match pkg {
            Some(p) => p.format_version <= SUPPORTED_FORMAT_VERSION && package_structure_ok(*p)
                ==> (r matches Ok(m) && loaded_model_ok(*p, m)),
            None => true,
        }),
{
    let p = match pkg {
        None => {
            return Err(LoadError::NotFound);
        },
        Some(p) => p,
    };
    if p.format_version > SUPPORTED_FORMAT_VERSION {
        return Err(LoadError::UnsupportedFormatVersion);
    }
    if p.videos.len() > 1 {
        return Err(LoadError::MalformedPackage);
    }
    if !check_layers_unique(&p.layers) {
        return Err(LoadError::MalformedPackage);
    }
    if !check_bindings(&p.layers, &p.bindings) {
        return Err(LoadError::MalformedPackage);
    }
    let layers = normalize_and_sort_layers(&p.layers);
    let bindings = norm_bindings(&p.bindings);
    let visualizer = match &p.visualizer {
        Some(v) => Some(
            AudioVisualizerSpec {
                bar_count: v.bar_count,
                channel_mode: if v.stereo {
                    ChannelMode::Stereo
                } else {
                    ChannelMode::Mono
                },
            },
        ),
        None => None,
    };
    let video = if p.videos.len() == 1 {
        let v = &p.videos[0];
        Some(VideoSource { path: copy_bytes(&v.path), duration_ms: v.duration_ms, has_alpha: v.has_alpha })
    } else {
        None
    };
    let m = SceneModel { id: p.scene_id, layers, bindings, visualizer, video };
    proof {
        assert(crate::scene::bindings_resolve(m.layers@, m.bindings@)) by {
            assert forall|i: int|
                0 <= i < m.bindings@.len() implies crate::scene::has_layer_id(
                m.layers@,
                #[trigger] m.bindings@[i].layer_id,
            ) by {
                broadcast use group_to_multiset_ensures;

                assert(raw_binding_ok(p.layers@, p.bindings@[i]));
                let k = choose|k: int|
                    0 <= k < p.layers@.len() && p.layers@[k].id == p.bindings@[i].layer_id;
                let mapped = p.layers@.map_values(|r: RawLayer| spec_norm_layer(r));
                assert(mapped[k] == spec_norm_layer(p.layers@[k]));
                assert(mapped.contains(mapped[k]));
                assert(mapped.to_multiset().count(mapped[k]) > 0);
                assert(m.layers@.to_multiset().count(mapped[k]) > 0);
                assert(m.layers@.contains(mapped[k]));
                let w = choose|w: int| 0 <= w < m.layers@.len() && m.layers@[w] == mapped[k];
                assert(m.layers@[w].id == p.bindings@[i].layer_id);
            }
        }
    }
    Ok(m)
}

} // verus!
