//! Canonical, format-agnostic scene model: layers, effect bindings, the
//! optional audio visualizer spec and the optional primary video source.
//! A well-formed model has unique layer ids, layers held in strictly
//! ascending draw (z) order, and every effect binding resolving to a layer.

use vstd::prelude::*;

verus! {

/// The kind of content a layer draws. Unknown kinds in a source package are
/// normalized to `EffectChain` passthrough layers by the loader.
#[derive(Debug, Clone, Copy, PartialEq, Eq, Structural)]
pub enum LayerKind {
    Image,
    Video,
    Particle,
    EffectChain,
}

/// Placement of a layer on the target surface: offset in pixels and uniform
/// scale in percent.
#[derive(Debug, Clone, Copy, PartialEq, Eq, Structural)]
pub struct Transform {
    pub offset_x: i32,
    pub offset_y: i32,
    pub scale_pct: u32,
}

/// One drawable layer of a scene.
#[derive(Debug, Clone, Copy, PartialEq, Eq, Structural)]
pub struct Layer {
    pub id: u64,
    pub kind: LayerKind,
    pub transform: Transform,
    pub visible: bool,
    pub z_order: i32,
}

/// An effect applied to one layer. `audio_reactive` effects are driven by the
/// live visualizer bar stream at paint time.
#[derive(Debug, Clone, PartialEq, Eq)]
pub struct EffectBinding {
    pub layer_id: u64,
    pub effect_id: u64,
    pub parameters: Vec<i64>,
    pub audio_reactive: bool,
}

/// Shape of the visualizer bar stream a scene asks for.
#[derive(Debug, Clone, Copy, PartialEq, Eq, Structural)]
pub enum ChannelMode {
    Mono,
    Stereo,
}

/// Requested audio visualizer: number of bars per frame and channel layout.
#[derive(Debug, Clone, Copy, PartialEq, Eq, Structural)]
pub struct AudioVisualizerSpec {
    pub bar_count: usize,
    pub channel_mode: ChannelMode,
}

/// A video file used as playback input: identifier of the file, duration and
/// whether it carries an alpha channel. Durations are in milliseconds.
#[derive(Debug, Clone, PartialEq, Eq)]
pub struct VideoSource {
    pub path: Vec<u8>,
    pub duration_ms: u64,
    pub has_alpha: bool,
}

/// Canonical representation of an animated wallpaper, built once by the
/// loader and read-only afterward.
#[derive(Debug, Clone, PartialEq, Eq)]
pub struct SceneModel {
    pub id: u64,
    pub layers: Vec<Layer>,
    pub bindings: Vec<EffectBinding>,
    pub visualizer: Option<AudioVisualizerSpec>,
    pub video: Option<VideoSource>,
}

/// Layer ids within `layers` are pairwise distinct.
pub open spec fn layer_ids_unique(layers: Seq<Layer>) -> bool {
    forall|i: int, j: int|
        0 <= i < j < layers.len() ==> layers[i].id != layers[j].id
}

/// Layers stand in strictly ascending z order, so the sequence itself is the
/// draw order.
pub open spec fn layers_sorted_by_z(layers: Seq<Layer>) -> bool {
    forall|i: int, j: int|
        0 <= i < j < layers.len() ==> layers[i].z_order < layers[j].z_order
}

/// Some layer of `layers` has id `id`.
pub open spec fn has_layer_id(layers: Seq<Layer>, id: u64) -> bool {
    exists|i: int| 0 <= i < layers.len() && layers[i].id == id
}

/// Every binding references an existing layer.
pub open spec fn bindings_resolve(layers: Seq<Layer>, bindings: Seq<EffectBinding>) -> bool {
    forall|i: int|
        0 <= i < bindings.len() ==> has_layer_id(layers, #[trigger] bindings[i].layer_id)
}

impl SceneModel {
    /// The structural invariant of a scene model.
    pub open spec fn wf(self) -> bool {
        &&& layer_ids_unique(self.layers@)
        &&& layers_sorted_by_z(self.layers@)
        &&& bindings_resolve(self.layers@, self.bindings@)
    }

    /// Whether any binding of this scene reacts to audio.
    pub open spec fn spec_has_audio_reactive(self) -> bool {
        exists|i: int| 0 <= i < self.bindings@.len() && self.bindings@[i].audio_reactive
    }

    /// Reports whether any effect binding of the scene is audio reactive,
    /// which decides whether playback needs a live bar stream.
    pub fn has_audio_reactive(&self) -> (r: bool)
        ensures
            r == self.spec_has_audio_reactive(),
    {
        let mut i: usize = 0;
        while i < self.bindings.len()
            invariant
                0 <= i <= self.bindings@.len(),
                forall|j: int| 0 <= j < i ==> !self.bindings@[j].audio_reactive,
            decreases self.bindings@.len() - i,
        {
            if self.bindings[i].audio_reactive {
                return true;
            }
            i = i + 1;
        }
        false
    }

    /// Number of visualizer bars the scene asks for, or the engine default
    /// when it has no visualizer spec.
    pub fn effective_bar_count(&self) -> (r: usize)
        ensures
            r == (match self.visualizer {
                Some(v) => v.bar_count,
                None => DEFAULT_BAR_COUNT,
            }),
    {
        match &self.visualizer {
            Some(v) => v.bar_count,
            None => DEFAULT_BAR_COUNT,
        }
    }
}

/// Bars per visualizer frame when a scene does not choose its own count.
pub const DEFAULT_BAR_COUNT: usize = 16;

} // verus!
