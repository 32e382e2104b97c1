//! Library scanner and roadmap: batch-loads a directory of wallpaper
//! packages (as decoded by the I/O layer), tolerating and recording each
//! package's load failure instead of aborting, aggregates layer-kind usage
//! counts over everything that loaded, and ranks the loaded packages by a
//! score combining effect complexity and audio reactivity into a
//! prioritized top-N roadmap.

use vstd::prelude::*;
use crate::loader::{
    LoadError, RawPackage, SUPPORTED_FORMAT_VERSION, load_package, package_structure_ok,
    spec_kind_of_code,
};

verus! {

/// How many layers of each kind the loaded packages hold, saturating at
/// the counter's maximum.
#[derive(Debug, Clone, Copy, PartialEq, Eq, Structural)]
pub struct KindCounts {
    pub image: u64,
    pub video: u64,
    pub particle: u64,
    pub effect_chain: u64,
}

/// One roadmap entry: a package (by its index in the scanned batch) and
/// its priority score.
#[derive(Debug, Clone, Copy, PartialEq, Eq, Structural)]
pub struct RoadmapEntry {
    pub score: u64,
    pub index: u64,
}

/// Saturating counter addition.
pub open spec fn spec_add_cap(a: u64, b: u64) -> u64 {
    if a + b > u64::MAX {
        u64::MAX
    } else {
        (a + b) as u64
    }
}

/// Caps a length for scoring, so scores stay small and comparable.
pub open spec fn spec_cap_len(n: nat) -> u64 {
    if n > 0xffff {
        0xffffu64
    } else {
        n as u64
    }
}

/// The priority score of a loadable package: effect complexity (ten per
/// binding, one per layer, capped) plus a fixed bonus for audio-reactive
/// bindings.
pub open spec fn spec_raw_score(p: RawPackage) -> u64 {
    (spec_cap_len(p.bindings@.len()) * 10 + spec_cap_len(p.layers@.len()) + (
    if exists|i: int| 0 <= i < p.bindings@.len() && p.bindings@[i].audio_reactive {
        1000u64
    } else {
        0u64
    })) as u64
}

/// The scan result a package denotes: its score when it loads, its load
/// error otherwise.
pub open spec fn spec_scan_result(pkg: Option<RawPackage>) -> Result<u64, LoadError> {
    match pkg {
        None => Err(LoadError::NotFound),
        Some(p) => {
            if p.format_version > SUPPORTED_FORMAT_VERSION {
                Err(LoadError::UnsupportedFormatVersion)
            } else if !package_structure_ok(p) {
                Err(LoadError::MalformedPackage)
            } else {
                Ok(spec_raw_score(p))
            }
        },
    }
}

/// Layers of kind `code_kind` among the first `n` of a package's layers.
pub open spec fn spec_count_kind(p: RawPackage, kind: crate::scene::LayerKind, n: int) -> u64
    decreases n,
{
    if n <= 0 {
        0u64
    } else {
        spec_add_cap(
            spec_count_kind(p, kind, n - 1),
            if spec_kind_of_code(p.layers@[n - 1].kind_code) == kind {
                1u64
            } else {
                0u64
            },
        )
    }
}

/// Ranking order of the roadmap: higher score first, earlier package first
/// among equal scores.
pub open spec fn ranked_before(a: RoadmapEntry, b: RoadmapEntry) -> bool {
    a.score > b.score || (a.score == b.score && a.index < b.index)
}

/// `e` is a loaded package of the batch with its true score.
pub open spec fn entry_of(results: Seq<Result<u64, LoadError>>, e: RoadmapEntry) -> bool {
    0 <= e.index < results.len() && results[e.index as int] == Ok::<u64, LoadError>(e.score)
}

/// Number of loaded packages among the first `n` results.
pub open spec fn spec_count_ok(results: Seq<Result<u64, LoadError>>, n: int) -> int
    decreases n,
{
    if n <= 0 {
        0
    } else {
        spec_count_ok(results, n - 1) + (if results[n - 1] is Ok {
            1int
        } else {
            0int
        })
    }
}

/// Saturating counter addition.
fn add_cap(a: u64, b: u64) -> (r: u64)
    ensures
        r == spec_add_cap(a, b),
{
    if a > u64::MAX - b {
        u64::MAX
    } else {
        a + b
    }
}

/// Scans a batch of packages: each entry loads independently — one
/// package's failure is recorded and never aborts the scan — and yields
/// its priority score or its load error, in batch order.
pub fn scan_library(packages: &Vec<Option<RawPackage>>) -> (results: Vec<Result<u64, LoadError>>)
    ensures
        results@.len() == packages@.len(),
        forall|k: int|
            0 <= k < packages@.len() ==> #[trigger] results@[k] == spec_scan_result(packages@[k]),
{
    let mut results: Vec<Result<u64, LoadError>> = Vec::new();
    let mut k: usize = 0;
    while k < packages.len()
        invariant
            0 <= k <= packages@.len(),
            results@.len() == k,
            forall|t: int|
                0 <= t < k ==> #[trigger] results@[t] == spec_scan_result(packages@[t]),
        decreases packages@.len() - k,
    {
        let r: Result<u64, LoadError> = match &packages[k] {
            None => Err(LoadError::NotFound),
            Some(p) => {
                match load_package(Some(p)) {
                    Err(e) => Err(e),
                    Ok(_) => Ok(score_package(p)),
                }
            },
        };
        results.push(r);
        k = k + 1;
    }
    results
}

/// Computes the priority score of one package.
fn score_package(p: &RawPackage) -> (r: u64)
    ensures
        r == spec_raw_score(*p),
{
    let b: u64 = if p.bindings.len() > 0xffff {
        0xffff
    } else {
        p.bindings.len() as u64
    };
    let l: u64 = if p.layers.len() > 0xffff {
        0xffff
    } else {
        p.layers.len() as u64
    };
    let mut audio: bool = false;
    let mut i: usize = 0;
    while i < p.bindings.len()
        invariant
            0 <= i <= p.bindings@.len(),
            audio == (exists|t: int| 0 <= t < i && p.bindings@[t].audio_reactive),
        decreases p.bindings@.len() - i,
    {
        if p.bindings[i].audio_reactive {
            audio = true;
        }
        i = i + 1;
    }
    b * 10 + l + (if audio {
        1000
    } else {
        0
    })
}

/// Layers of kind `kind` one scanned package contributes: its full count
/// when it loaded, nothing when it did not.
pub open spec fn spec_pkg_kind_count(pkg: Option<RawPackage>, kind: crate::scene::LayerKind) -> u64 {
    match pkg {
        Some(p) => {
            if spec_scan_result(pkg) is Ok {
                spec_count_kind(p, kind, p.layers@.len() as int)
            } else {
                0u64
            }
        },
        None => 0u64,
    }
}

/// Layers of kind `kind` over the first `n` scanned packages, saturating.
pub open spec fn spec_total_kind(
    packages: Seq<Option<RawPackage>>,
    kind: crate::scene::LayerKind,
    n: int,
) -> u64
    decreases n,
{
    if n <= 0 {
        0u64
    } else {
        spec_add_cap(
            spec_total_kind(packages, kind, n - 1),
            spec_pkg_kind_count(packages[n - 1], kind),
        )
    }
}

/// Counts the layers of one kind in one package.
fn count_kind(p: &RawPackage, kind: crate::scene::LayerKind) -> (r: u64)
    ensures
        r == spec_count_kind(*p, kind, p.layers@.len() as int),
{
    let mut c: u64 = 0;
    let mut i: usize = 0;
    while i < p.layers.len()
        invariant
            0 <= i <= p.layers@.len(),
            c == spec_count_kind(*p, kind, i as int),
        decreases p.layers@.len() - i,
    {
        let k = crate::loader::kind_of_code(p.layers[i].kind_code);
        let one: u64 = if k == kind {
            1
        } else {
            0
        };
        c = add_cap(c, one);
        i = i + 1;
    }
    c
}

/// Aggregates how many layers of each kind the loaded packages of the
/// batch hold, saturating rather than overflowing. `results` is the
/// per-package outcome of [`scan_library`] on the same batch.
pub fn aggregate_kind_counts(
    packages: &Vec<Option<RawPackage>>,
    results: &Vec<Result<u64, LoadError>>,
) -> (counts: KindCounts)
    requires
        results@.len() == packages@.len(),
        forall|k: int|
            0 <= k < packages@.len() ==> #[trigger] results@[k] == spec_scan_result(packages@[k]),
    ensures
        counts.image == spec_total_kind(
            packages@,
            crate::scene::LayerKind::Image,
            packages@.len() as int,
        ),
        counts.video == spec_total_kind(
            packages@,
            crate::scene::LayerKind::Video,
            packages@.len() as int,
        ),
        counts.particle == spec_total_kind(
            packages@,
            crate::scene::LayerKind::Particle,
            packages@.len() as int,
        ),
        counts.effect_chain == spec_total_kind(
            packages@,
            crate::scene::LayerKind::EffectChain,
            packages@.len() as int,
        ),
{
    let mut counts = KindCounts { image: 0, video: 0, particle: 0, effect_chain: 0 };
    let mut k: usize = 0;
    while k < packages.len()
        invariant
            0 <= k <= packages@.len(),
            results@.len() == packages@.len(),
            forall|t: int|
                0 <= t < packages@.len() ==> #[trigger] results@[t] == spec_scan_result(
                    packages@[t],
                ),
            counts.image == spec_total_kind(packages@, crate::scene::LayerKind::Image, k as int),
            counts.video == spec_total_kind(packages@, crate::scene::LayerKind::Video, k as int),
            counts.particle == spec_total_kind(
                packages@,
                crate::scene::LayerKind::Particle,
                k as int,
            ),
            counts.effect_chain == spec_total_kind(
                packages@,
                crate::scene::LayerKind::EffectChain,
                k as int,
            ),
        decreases packages@.len() - k,
    {
        let loaded = results[k].is_ok();
        match &packages[k] {
            Some(p) => {
                if loaded {
                    counts = KindCounts {
                        image: add_cap(counts.image, count_kind(p, crate::scene::LayerKind::Image)),
                        video: add_cap(counts.video, count_kind(p, crate::scene::LayerKind::Video)),
                        particle: add_cap(
                            counts.particle,
                            count_kind(p, crate::scene::LayerKind::Particle),
                        ),
                        effect_chain: add_cap(
                            counts.effect_chain,
                            count_kind(p, crate::scene::LayerKind::EffectChain),
                        ),
                    };
                }
            },
            None => {},
        }
        k = k + 1;
    }
    counts
}

/// Ranks the loaded packages of a scan: every loaded package, ordered by
/// descending score — earlier packages first among equal scores — so the
/// first `n` entries are the top-`n` roadmap.
pub fn rank_loaded(results: &Vec<Result<u64, LoadError>>) -> (out: Vec<RoadmapEntry>)
    requires
        results@.len() <= u64::MAX,
    ensures
        out@.len() == spec_count_ok(results@, results@.len() as int),
        forall|p: int, q: int|
            0 <= p < q < out@.len() ==> ranked_before(#[trigger] out@[p], #[trigger] out@[q]),
        forall|p: int| 0 <= p < out@.len() ==> entry_of(results@, #[trigger] out@[p]),
        forall|j: int|
            0 <= j < results@.len() && results@[j] is Ok ==> exists|p: int|
                0 <= p < out@.len() && (#[trigger] out@[p]).index == j,
{
    let mut out: Vec<RoadmapEntry> = Vec::new();
    let mut i: usize = 0;
    while i < results.len()
        invariant
            0 <= i <= results@.len(),
            results@.len() <= u64::MAX,
            out@.len() == spec_count_ok(results@, i as int),
            forall|p: int, q: int|
                0 <= p < q < out@.len() ==> ranked_before(#[trigger] out@[p], #[trigger] out@[q]),
            forall|p: int|
                0 <= p < out@.len() ==> entry_of(results@, #[trigger] out@[p]) && out@[p].index
                    < i,
            forall|j: int|
                0 <= j < i && results@[j] is Ok ==> exists|p: int|
                    0 <= p < out@.len() && (#[trigger] out@[p]).index == j,
        decreases results@.len() - i,
    {
        match &results[i] {
            Ok(score) => {
                let x = RoadmapEntry { score: *score, index: i as u64 };
                let mut j: usize = 0;
                while j < out.len() && ranked_before_exec(&out[j], &x)
                    invariant
                        0 <= j <= out@.len(),
                        forall|k: int| 0 <= k < j ==> ranked_before(#[trigger] out@[k], x),
                    decreases out@.len() - j,
                {
                    j = j + 1;
                }
                proof {
                    // at and above the insertion point everything ranks
                    // after the new entry: indices differ, so the ranking
                    // order is total
                    assert forall|k: int| j <= k < out@.len() implies ranked_before(
                        x,
                        #[trigger] out@[k],
                    ) by {
                        assert(out@[k].index < i as u64);
                        if k > j {
                            assert(ranked_before(out@[j as int], out@[k]));
                        }
                    }
                }
                let ghost old_out = out@;
                out.insert(j, x);
                proof {
                    old_out.insert_ensures(j as int, x);
                    assert forall|p: int, q: int|
                        0 <= p < q < out@.len() implies ranked_before(
                        #[trigger] out@[p],
                        #[trigger] out@[q],
                    ) by {
                        if p < j {
                            assert(out@[p] == old_out[p]);
                        } else if p == j {
                            assert(out@[p] == x);
                        } else {
                            assert(out@[p] == old_out[p - 1]);
                        }
                        if q < j {
                            assert(out@[q] == old_out[q]);
                        } else if q == j {
                            assert(out@[q] == x);
                        } else {
                            assert(out@[q] == old_out[q - 1]);
                        }
                    }
                    assert forall|p: int| 0 <= p < out@.len() implies entry_of(
                        results@,
                        #[trigger] out@[p],
                    ) && out@[p].index < i + 1 by {
                        if p < j {
                            assert(out@[p] == old_out[p]);
                        } else if p == j {
                            assert(out@[p] == x);
                        } else {
                            assert(out@[p] == old_out[p - 1]);
                        }
                    }
                    assert forall|t: int| 0 <= t < i + 1 && results@[t] is Ok implies exists|p: int|
                        0 <= p < out@.len() && (#[trigger] out@[p]).index == t by {
                        if t == i {
                            assert(out@[j as int].index == t);
                        } else {
                            let p0 = choose|p: int|
                                0 <= p < old_out.len() && (#[trigger] old_out[p]).index == t;
                            if p0 < j {
                                assert(out@[p0].index == t);
                            } else {
                                assert(out@[p0 + 1].index == t);
                            }
                        }
                    }
                }
            },
            Err(_) => {},
        }
        i = i + 1;
    }
    out
}

/// Ranking comparison of two roadmap entries.
fn ranked_before_exec(a: &RoadmapEntry, b: &RoadmapEntry) -> (r: bool)
    ensures
        r == ranked_before(*a, *b),
{
    a.score > b.score || (a.score == b.score && a.index < b.index)
}

/// The top-`n` prioritized roadmap of a scan: the `n` best-ranked loaded
/// packages (all of them when fewer loaded), in ranking order; every
/// omitted loaded package ranks after every entry kept.
pub fn build_roadmap(results: &Vec<Result<u64, LoadError>>, top_n: usize) -> (out: Vec<
    RoadmapEntry,
>)
    requires
        results@.len() <= u64::MAX,
    ensures
        out@.len() == (if top_n <= spec_count_ok(results@, results@.len() as int) {
            top_n as int
        } else {
            spec_count_ok(results@, results@.len() as int)
        }),
        forall|p: int, q: int|
            0 <= p < q < out@.len() ==> ranked_before(#[trigger] out@[p], #[trigger] out@[q]),
        forall|p: int| 0 <= p < out@.len() ==> entry_of(results@, #[trigger] out@[p]),
        forall|j: int, p: int|
            #![trigger out@[p], results@[j]]
            0 <= j < results@.len() && results@[j] is Ok && !(exists|t: int|
                0 <= t < out@.len() && (#[trigger] out@[t]).index == j) && 0 <= p < out@.len()
                ==> ranked_before(
                out@[p],
                RoadmapEntry { score: results@[j]->Ok_0, index: j as u64 },
            ),
{
    let ranked = rank_loaded(results);
    let n = if top_n <= ranked.len() {
        top_n
    } else {
        ranked.len()
    };
    let mut out: Vec<RoadmapEntry> = Vec::new();
    let mut i: usize = 0;
    while i < n
        invariant
            0 <= i <= n <= ranked@.len(),
            out@.len() == i,
            forall|p: int| 0 <= p < i ==> out@[p] == ranked@[p],
        decreases n - i,
    {
        out.push(ranked[i]);
        i = i + 1;
    }
    proof {
        assert(out@ =~= ranked@.take(n as int));
        assert forall|j: int, p: int|
            #![trigger out@[p], results@[j]]
            0 <= j < results@.len() && results@[j] is Ok && !(exists|t: int|
                0 <= t < out@.len() && (#[trigger] out@[t]).index == j) && 0 <= p < out@.len()
            implies ranked_before(
            out@[p],
            RoadmapEntry { score: results@[j]->Ok_0, index: j as u64 },
        ) by {
            let q = choose|q: int| 0 <= q < ranked@.len() && (#[trigger] ranked@[q]).index == j;
            assert(entry_of(results@, ranked@[q]));
            assert(ranked@[q].score == results@[j]->Ok_0);
            if q < out@.len() {
                assert(out@[q].index == j);
            }
            assert(q >= out@.len());
            if p < q {
                assert(ranked_before(ranked@[p], ranked@[q]));
            }
        }
    }
    out
}

} // verus!
