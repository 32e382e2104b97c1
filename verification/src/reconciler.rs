//! Monitor config reconciler: diffs the persisted desired configuration of
//! each monitor against the content hash recorded when it was last applied,
//! and marks for re-application only the monitors whose effective
//! parameters changed. A monitor whose application fails keeps its old
//! recorded hash, so the next run retries it; a dry run reports the diff
//! and records nothing. Reading and writing the persisted files is
//! external; this module owns the diffing, the hashing and the bookkeeping.

use vstd::prelude::*;
use crate::options::{PlaybackProfile, ProxyParams};

verus! {

/// Desired playback configuration of one monitor.
#[derive(Debug, Clone, PartialEq, Eq)]
pub struct MonitorConfig {
    pub monitor_id: String,
    /// Plays a bare video when set; applies a scene package otherwise.
    pub video_mode: bool,
    /// Path bytes of the wallpaper package or video file.
    pub source: Vec<u8>,
    pub profile: PlaybackProfile,
    pub mute_audio: bool,
    pub keep_services: bool,
    pub display_fps: Option<u32>,
    pub proxy: ProxyParams,
}

/// What one reconciliation pass did, or would do, for one monitor.
#[derive(Debug, Clone, Copy, PartialEq, Eq, Structural)]
pub enum MonitorOutcome {
    /// Effective parameters match the recorded hash; nothing to do.
    Skipped,
    /// Dry run: the monitor's configuration would be re-applied.
    WouldApply,
    /// Re-applied and confirmed; the recorded hash was updated.
    Applied,
    /// Re-application failed; the recorded hash is unchanged so the next
    /// run retries this monitor.
    FailedApply,
}

/// The recorded last-applied hash of one monitor.
#[derive(Debug, Clone, PartialEq, Eq)]
pub struct AppliedRecord {
    pub monitor_id: String,
    pub hash: u64,
}

/// Last-applied bookkeeping: one record per monitor that was ever applied.
#[derive(Debug, Clone, PartialEq, Eq)]
pub struct AppliedState {
    pub records: Vec<AppliedRecord>,
}

/// One mixing step of the content hash.
pub open spec fn spec_mix(h: u64, v: u64) -> u64 {
    (h ^ v).wrapping_mul(0x100000001b3u64)
}

/// The hash's starting offset.
pub const HASH_OFFSET: u64 = 0xcbf29ce484222325;

/// The first `n` bytes of `s` folded into the hash.
pub open spec fn spec_hash_bytes(h: u64, s: Seq<u8>, n: int) -> u64
    decreases n,
{
    if n <= 0 {
        h
    } else {
        spec_mix(spec_hash_bytes(h, s, n - 1), s[n - 1] as u64)
    }
}

/// A stable code for each profile.
pub open spec fn spec_profile_code(p: PlaybackProfile) -> u64 {
    match p {
        PlaybackProfile::Performance => 0u64,
        PlaybackProfile::Balanced => 1u64,
        PlaybackProfile::Quality => 2u64,
    }
}

/// The content hash of a monitor's effective playback parameters: every
/// field that changes what playback looks like is folded in, so equal
/// hashes mean nothing to re-apply.
pub open spec fn spec_config_hash(c: MonitorConfig) -> u64 {
    let h0 = HASH_OFFSET;
    let h1 = spec_mix(h0, if c.video_mode { 1u64 } else { 0u64 });
    let h2 = spec_mix(h1, spec_profile_code(c.profile));
    let h3 = spec_mix(h2, if c.mute_audio { 1u64 } else { 0u64 });
    let h4 = spec_mix(h3, if c.keep_services { 1u64 } else { 0u64 });
    let h5 = spec_mix(
        h4,
        match c.display_fps {
            Some(f) => (f as u64 + 1) as u64,
            None => 0u64,
        },
    );
    let h6 = spec_mix(h5, c.proxy.width as u64);
    let h7 = spec_mix(h6, c.proxy.fps as u64);
    let h8 = spec_mix(h7, c.proxy.crf as u64);
    spec_hash_bytes(h8, c.source@, c.source@.len() as int)
}

/// Records carry pairwise distinct monitor ids.
pub open spec fn records_unique(records: Seq<AppliedRecord>) -> bool {
    forall|i: int, j: int|
        0 <= i < j < records.len() ==> records[i].monitor_id@ != records[j].monitor_id@
}

/// Some record carries monitor id `n`.
pub open spec fn records_have(records: Seq<AppliedRecord>, n: Seq<char>) -> bool {
    exists|i: int| 0 <= i < records.len() && records[i].monitor_id@ == n
}

/// The hash recorded for monitor `n`, if any.
pub open spec fn hash_at(records: Seq<AppliedRecord>, n: Seq<char>) -> u64 {
    records[choose|i: int| 0 <= i < records.len() && records[i].monitor_id@ == n].hash
}

/// The mapping from monitor id to last-applied hash.
pub open spec fn records_view(records: Seq<AppliedRecord>) -> Map<Seq<char>, u64> {
    Map::new(|n: Seq<char>| records_have(records, n), |n: Seq<char>| hash_at(records, n))
}

/// The recorded hash in a mapping, `None` for a monitor never applied.
pub open spec fn map_hash(m: Map<Seq<char>, u64>, n: Seq<char>) -> Option<u64> {
    if m.contains_key(n) {
        Some(m[n])
    } else {
        None
    }
}

/// A monitor's effective parameters differ from what was last applied.
pub open spec fn spec_changed(m: Map<Seq<char>, u64>, c: MonitorConfig) -> bool {
    map_hash(m, c.monitor_id@) != Some(spec_config_hash(c))
}

/// What one pass decides for one monitor against the recorded state:
/// unchanged monitors are skipped; changed ones are re-applied — reported
/// only as "would apply" under a dry run — and a failed application is
/// recorded as a failure, not as applied.
pub open spec fn spec_outcome(m: Map<Seq<char>, u64>, c: MonitorConfig, ok: bool, dry_run: bool) -> MonitorOutcome {
    if !spec_changed(m, c) {
        MonitorOutcome::Skipped
    } else if dry_run {
        MonitorOutcome::WouldApply
    } else if ok {
        MonitorOutcome::Applied
    } else {
        MonitorOutcome::FailedApply
    }
}

/// Computes the content hash of a monitor's effective parameters.
pub fn content_hash(c: &MonitorConfig) -> (r: u64)
    ensures
        r == spec_config_hash(*c),
{
    let mut h: u64 = HASH_OFFSET;
    h = (h ^ (if c.video_mode { 1u64 } else { 0u64 })).wrapping_mul(0x100000001b3u64);
    let pc: u64 = match c.profile {
        PlaybackProfile::Performance => 0,
        PlaybackProfile::Balanced => 1,
        PlaybackProfile::Quality => 2,
    };
    h = (h ^ pc).wrapping_mul(0x100000001b3u64);
    h = (h ^ (if c.mute_audio { 1u64 } else { 0u64 })).wrapping_mul(0x100000001b3u64);
    h = (h ^ (if c.keep_services { 1u64 } else { 0u64 })).wrapping_mul(0x100000001b3u64);
    let fps_code: u64 = match c.display_fps {
        Some(f) => f as u64 + 1,
        None => 0,
    };
    h = (h ^ fps_code).wrapping_mul(0x100000001b3u64);
    h = (h ^ (c.proxy.width as u64)).wrapping_mul(0x100000001b3u64);
    h = (h ^ (c.proxy.fps as u64)).wrapping_mul(0x100000001b3u64);
    h = (h ^ (c.proxy.crf as u64)).wrapping_mul(0x100000001b3u64);
    let mut i: usize = 0;
    while i < c.source.len()
        invariant
            0 <= i <= c.source@.len(),
            h == spec_hash_bytes(spec_config_hash_prefix(*c), c.source@, i as int),
        decreases c.source@.len() - i,
    {
        h = (h ^ (c.source[i] as u64)).wrapping_mul(0x100000001b3u64);
        i = i + 1;
    }
    h
}

/// The hash of everything but the source path, the state the byte fold
/// starts from.
pub open spec fn spec_config_hash_prefix(c: MonitorConfig) -> u64 {
    let h0 = HASH_OFFSET;
    let h1 = spec_mix(h0, if c.video_mode { 1u64 } else { 0u64 });
    let h2 = spec_mix(h1, spec_profile_code(c.profile));
    let h3 = spec_mix(h2, if c.mute_audio { 1u64 } else { 0u64 });
    let h4 = spec_mix(h3, if c.keep_services { 1u64 } else { 0u64 });
    let h5 = spec_mix(
        h4,
        match c.display_fps {
            Some(f) => (f as u64 + 1) as u64,
            None => 0u64,
        },
    );
    let h6 = spec_mix(h5, c.proxy.width as u64);
    let h7 = spec_mix(h6, c.proxy.fps as u64);
    spec_mix(h7, c.proxy.crf as u64)
}

impl AppliedState {
    /// The bookkeeping invariant: one record per monitor id.
    pub open spec fn wf(self) -> bool {
        records_unique(self.records@)
    }

    /// The mapping this state denotes.
    pub open spec fn view(self) -> Map<Seq<char>, u64> {
        records_view(self.records@)
    }

    /// Empty bookkeeping: no monitor was ever applied.
    pub fn new() -> (r: AppliedState)
        ensures
            r.wf(),
            r@ == Map::<Seq<char>, u64>::empty(),
    {
        let r = AppliedState { records: Vec::new() };
        proof {
            assert(r@ =~= Map::<Seq<char>, u64>::empty());
        }
        r
    }

    /// Index of the record for `monitor_id`, if any.
    fn find(&self, monitor_id: &String) -> (r: Option<usize>)
        ensures
            (match r {
                Some(i) => i < self.records@.len() && self.records@[i as int].monitor_id@
                    == monitor_id@,
                None => !records_have(self.records@, monitor_id@),
            }),
    {
        let mut i: usize = 0;
        while i < self.records.len()
            invariant
                0 <= i <= self.records@.len(),
                forall|k: int| 0 <= k < i ==> self.records@[k].monitor_id@ != monitor_id@,
            decreases self.records@.len() - i,
        {
            if self.records[i].monitor_id == *monitor_id {
                return Some(i);
            }
            i = i + 1;
        }
        None
    }

    /// The hash recorded for `monitor_id`, if it was ever applied.
    pub fn recorded_hash(&self, monitor_id: &String) -> (r: Option<u64>)
        requires
            self.wf(),
        ensures
            r == map_hash(self@, monitor_id@),
    {
        proof {
            lemma_records_view(self.records@, monitor_id@);
        }
        match self.find(monitor_id) {
            Some(i) => Some(self.records[i].hash),
            None => None,
        }
    }

    /// Records `hash` as last applied for `monitor_id`.
    fn record(&mut self, monitor_id: &String, hash: u64)
        requires
            old(self).wf(),
        ensures
            final(self).wf(),
            final(self)@ == old(self)@.insert(monitor_id@, hash),
    {
        proof {
            lemma_records_view(old(self).records@, monitor_id@);
        }
        let ghost old_records = self.records@;
        match self.find(monitor_id) {
            Some(i) => {
                let nm = clone_id(monitor_id);
                self.records[i] = AppliedRecord { monitor_id: nm, hash };
                proof {
                    let e = self.records@;
                    assert forall|n: Seq<char>| true implies #[trigger] records_have(e, n)
                        == records_have(old_records, n) by {
                        if records_have(old_records, n) {
                            let k = choose|k: int|
                                0 <= k < old_records.len() && old_records[k].monitor_id@ == n;
                            assert(e[k].monitor_id@ == n);
                        }
                        if records_have(e, n) {
                            let k = choose|k: int| 0 <= k < e.len() && e[k].monitor_id@ == n;
                            assert(old_records[k].monitor_id@ == n);
                        }
                    }
                    assert forall|p: int, q: int|
                        0 <= p < q < e.len() implies e[p].monitor_id@ != e[q].monitor_id@ by {
                        assert(old_records[p].monitor_id@ != old_records[q].monitor_id@);
                    }
                    assert(self@ =~= old(self)@.insert(monitor_id@, hash)) by {
                        assert forall|n: Seq<char>| records_have(e, n) implies hash_at(e, n) == (
                        if n == monitor_id@ {
                            hash
                        } else {
                            hash_at(old_records, n)
                        }) by {
                            let k = choose|k: int| 0 <= k < e.len() && e[k].monitor_id@ == n;
                            if n == monitor_id@ {
                                assert(k == i) by {
                                    if k != i {
                                        assert(old_records[k].monitor_id@ == n);
                                        assert(old_records[i as int].monitor_id@ == n);
                                    }
                                }
                            } else {
                                assert(k != i);
                                assert(old_records[k].monitor_id@ == n);
                                lemma_hash_at_index(old_records, k);
                                lemma_hash_at_index(e, k);
                            }
                        }
                    }
                }
            },
            None => {
                let nm = clone_id(monitor_id);
                self.records.push(AppliedRecord { monitor_id: nm, hash });
                proof {
                    let e = self.records@;
                    assert(e.len() == old_records.len() + 1);
                    assert(e[e.len() - 1].monitor_id@ == monitor_id@);
                    assert(e[e.len() - 1].hash == hash);
                    assert(forall|p: int| 0 <= p < old_records.len() ==> e[p] == old_records[p]);
                    assert forall|p: int, q: int|
                        0 <= p < q < e.len() implies e[p].monitor_id@ != e[q].monitor_id@ by {
                        if q < old_records.len() {
                            assert(old_records[p].monitor_id@ != old_records[q].monitor_id@);
                        } else {
                            assert(e[q].monitor_id@ == monitor_id@);
                            assert(e[p] == old_records[p]);
                        }
                    }
                    assert(self@ =~= old(self)@.insert(monitor_id@, hash)) by {
                        assert forall|n: Seq<char>| records_have(e, n) implies hash_at(e, n) == (
                        if n == monitor_id@ {
                            hash
                        } else {
                            hash_at(old_records, n)
                        }) by {
                            let k = choose|k: int| 0 <= k < e.len() && e[k].monitor_id@ == n;
                            if n == monitor_id@ {
                                assert(k == e.len() - 1) by {
                                    if k < e.len() - 1 {
                                        assert(!records_have(old_records, monitor_id@));
                                        assert(old_records[k].monitor_id@ == n);
                                    }
                                }
                            } else {
                                assert(k < old_records.len());
                                lemma_hash_at_index(old_records, k);
                                lemma_hash_at_index(e, k);
                            }
                        }
                        assert forall|n: Seq<char>| records_have(old_records, n) || n
                            == monitor_id@ implies records_have(e, n) by {
                            if n == monitor_id@ {
                                assert(e[e.len() - 1].monitor_id@ == n);
                            } else {
                                let k = choose|k: int|
                                    0 <= k < old_records.len() && old_records[k].monitor_id@ == n;
                                assert(e[k].monitor_id@ == n);
                            }
                        }
                        assert forall|n: Seq<char>| records_have(e, n) implies (records_have(
                            old_records,
                            n,
                        ) || n == monitor_id@) by {
                            let k = choose|k: int| 0 <= k < e.len() && e[k].monitor_id@ == n;
                            if k < old_records.len() {
                                assert(old_records[k].monitor_id@ == n);
                            }
                        }
                    }
                }
            },
        }
    }

    /// Reconciles all persisted configs: for each monitor, in the order
    /// given, its effective-parameter hash is compared with the recorded
    /// one; unchanged monitors are skipped, changed ones are re-applied by
    /// the external supervisor whose per-monitor success `outcomes[k]`
    /// reports. The recorded hash is updated only on confirmed success, so
    /// a failed monitor is retried by the next run. A dry run reports the
    /// diff and records nothing. A monitor absent from `configs` is never
    /// touched.
    pub fn apply_configs(
        &mut self,
        configs: &Vec<MonitorConfig>,
        outcomes: &Vec<bool>,
        dry_run: bool,
    ) -> (results: Vec<MonitorOutcome>)
        requires
            old(self).wf(),
            outcomes@.len() == configs@.len(),
            forall|i: int, j: int|
                0 <= i < j < configs@.len() ==> configs@[i].monitor_id@ != configs@[j].monitor_id@,
        ensures
            final(self).wf(),
            results@.len() == configs@.len(),
            forall|k: int|
                0 <= k < configs@.len() ==> #[trigger] results@[k] == spec_outcome(
                    old(self)@,
                    configs@[k],
                    outcomes@[k],
                    dry_run,
                ),
            dry_run ==> final(self)@ == old(self)@,
            forall|k: int|
                0 <= k < configs@.len() && results@[k] == MonitorOutcome::Applied ==> map_hash(
                    final(self)@,
                    #[trigger] configs@[k].monitor_id@,
                ) == Some(spec_config_hash(configs@[k])),
            forall|k: int|
                0 <= k < configs@.len() && results@[k] != MonitorOutcome::Applied ==> map_hash(
                    final(self)@,
                    #[trigger] configs@[k].monitor_id@,
                ) == map_hash(old(self)@, configs@[k].monitor_id@),
            forall|n: Seq<char>|
                !(exists|k: int| 0 <= k < configs@.len() && #[trigger] configs@[k].monitor_id@
                    == n) ==> map_hash(final(self)@, n) == map_hash(old(self)@, n),
    {
        let mut results: Vec<MonitorOutcome> = Vec::new();
        let mut k: usize = 0;
        while k < configs.len()
            invariant
                self.wf(),
                outcomes@.len() == configs@.len(),
                forall|i: int, j: int|
                    0 <= i < j < configs@.len() ==> configs@[i].monitor_id@
                        != configs@[j].monitor_id@,
                0 <= k <= configs@.len(),
                results@.len() == k,
                forall|t: int|
                    0 <= t < k ==> #[trigger] results@[t] == spec_outcome(
                        old(self)@,
                        configs@[t],
                        outcomes@[t],
                        dry_run,
                    ),
                dry_run ==> self@ == old(self)@,
                forall|t: int|
                    0 <= t < k && results@[t] == MonitorOutcome::Applied ==> map_hash(
                        self@,
                        #[trigger] configs@[t].monitor_id@,
                    ) == Some(spec_config_hash(configs@[t])),
                forall|t: int|
                    0 <= t < k && results@[t] != MonitorOutcome::Applied ==> map_hash(
                        self@,
                        #[trigger] configs@[t].monitor_id@,
                    ) == map_hash(old(self)@, configs@[t].monitor_id@),
                forall|n: Seq<char>|
                    !(exists|t: int| 0 <= t < k && #[trigger] configs@[t].monitor_id@ == n)
                        ==> map_hash(self@, n) == map_hash(old(self)@, n),
            decreases configs@.len() - k,
        {
            let cfg = &configs[k];
            let new_hash = content_hash(cfg);
            let recorded = self.recorded_hash(&cfg.monitor_id);
            let changed: bool = match recorded {
                Some(h) => h != new_hash,
                None => true,
            };
            proof {
                assert(map_hash(self@, cfg.monitor_id@) == map_hash(old(self)@, cfg.monitor_id@));
                assert(changed == spec_changed(old(self)@, *cfg));
            }
            let outcome: MonitorOutcome = if !changed {
                MonitorOutcome::Skipped
            } else if dry_run {
                MonitorOutcome::WouldApply
            } else if outcomes[k] {
                self.record(&cfg.monitor_id, new_hash);
                MonitorOutcome::Applied
            } else {
                MonitorOutcome::FailedApply
            };
            results.push(outcome);
            k = k + 1;
        }
        results
    }
}

/// `hash_at` looks through to any record index carrying the id, ids being
/// unique.
proof fn lemma_hash_at_index(records: Seq<AppliedRecord>, i: int)
    requires
        records_unique(records),
        0 <= i < records.len(),
    ensures
        records_have(records, records[i].monitor_id@),
        hash_at(records, records[i].monitor_id@) == records[i].hash,
{
    let n = records[i].monitor_id@;
    assert(records_have(records, n));
    let k = choose|k: int| 0 <= k < records.len() && records[k].monitor_id@ == n;
    if k != i {
        assert(records[k].monitor_id@ == records[i].monitor_id@);
    }
}

/// The denoted mapping agrees with `hash_at` on every id.
proof fn lemma_records_view(records: Seq<AppliedRecord>, n: Seq<char>)
    ensures
        records_view(records).contains_key(n) == records_have(records, n),
        records_have(records, n) ==> map_hash(records_view(records), n) == Some(
            hash_at(records, n),
        ),
        !records_have(records, n) ==> map_hash(records_view(records), n) is None,
{
}

/// Clones a monitor id.
fn clone_id(s: &String) -> (r: String)
    ensures
        r@ == s@,
{
    s.clone()
}

/// A per-monitor failure of one reconciliation pass, carrying the
/// offending monitor id.
#[derive(Debug, Clone, PartialEq, Eq)]
pub enum ReconcileError {
    ApplyFailed(String),
}

/// The monitor ids whose outcome is `FailedApply`, in pass order.
pub open spec fn spec_failed_monitors(
    configs: Seq<MonitorConfig>,
    results: Seq<MonitorOutcome>,
) -> Seq<Seq<char>>
    decreases configs.len(),
{
    if configs.len() == 0 {
        Seq::empty()
    } else {
        let rest = spec_failed_monitors(configs.drop_last(), results.drop_last());
        if results.last() is FailedApply {
            rest.push(configs.last().monitor_id@)
        } else {
            rest
        }
    }
}

/// Collects the failures of one reconciliation pass, in the order given:
/// one error per monitor whose re-application failed, carrying its id.
/// Such a monitor stands in neither the applied nor the skipped set; its
/// recorded hash is untouched, so the next run retries it.
pub fn collect_apply_failures(
    configs: &Vec<MonitorConfig>,
    results: &Vec<MonitorOutcome>,
) -> (errs: Vec<ReconcileError>)
    requires
        results@.len() == configs@.len(),
    ensures
        errs@.len() == spec_failed_monitors(configs@, results@).len(),
        forall|k: int|
            0 <= k < errs@.len() ==> (match #[trigger] errs@[k] {
                ReconcileError::ApplyFailed(n) => n@ == spec_failed_monitors(
                    configs@,
                    results@,
                )[k],
            }),
{
    let mut errs: Vec<ReconcileError> = Vec::new();
    let mut i: usize = 0;
    proof {
        assert(configs@.take(0) =~= Seq::<MonitorConfig>::empty());
    }
    while i < configs.len()
        invariant
            0 <= i <= configs@.len(),
            results@.len() == configs@.len(),
            errs@.len() == spec_failed_monitors(
                configs@.take(i as int),
                results@.take(i as int),
            ).len(),
            forall|k: int|
                0 <= k < errs@.len() ==> (match #[trigger] errs@[k] {
                    ReconcileError::ApplyFailed(n) => n@ == spec_failed_monitors(
                        configs@.take(i as int),
                        results@.take(i as int),
                    )[k],
                }),
        decreases configs@.len() - i,
    {
        proof {
            assert(configs@.take(i as int + 1).drop_last() =~= configs@.take(i as int));
            assert(results@.take(i as int + 1).drop_last() =~= results@.take(i as int));
            assert(configs@.take(i as int + 1).last() == configs@[i as int]);
            assert(results@.take(i as int + 1).last() == results@[i as int]);
        }
        if matches!(results[i], MonitorOutcome::FailedApply) {
            errs.push(ReconcileError::ApplyFailed(clone_id(&configs[i].monitor_id)));
        }
        i = i + 1;
    }
    proof {
        assert(configs@.take(configs@.len() as int) =~= configs@);
        assert(results@.take(configs@.len() as int) =~= results@);
    }
    errs
}

/// Reconciliation touches only what changed: a monitor whose recorded hash
/// still matches is skipped and never re-applied, while a changed monitor
/// is the one the supervisor is invoked for — reported applied on success,
/// failed (with its hash kept for retry) otherwise.
pub proof fn lemma_reconcile_touches_only_changed(
    m: Map<Seq<char>, u64>,
    unchanged: MonitorConfig,
    changed: MonitorConfig,
    ok: bool,
)
    requires
        !spec_changed(m, unchanged),
        spec_changed(m, changed),
    ensures
        spec_outcome(m, unchanged, ok, false) == MonitorOutcome::Skipped,
        spec_outcome(m, changed, true, false) == MonitorOutcome::Applied,
        spec_outcome(m, changed, false, false) == MonitorOutcome::FailedApply,
        spec_outcome(m, changed, ok, false) != MonitorOutcome::Skipped,
{
}

} // verus!
