//! Service orchestrator: a finite state machine per named OS service,
//! driven by batch start/stop operations. Issuing the actual start/stop and
//! probing readiness are external capabilities; the orchestrator takes each
//! probe's verdict as an input and owns every state transition. A service
//! already at its target converges without a redundant action; a probe
//! timeout marks the one service `Failed` and never blocks the rest of the
//! batch; a dry run reports the diff and mutates nothing. Holding the state
//! behind `&mut self` gives each call exclusive access.

use vstd::prelude::*;

verus! {

/// Last observed state of one named service.
#[derive(Debug, Clone, Copy, PartialEq, Eq, Structural)]
pub enum ServiceState {
    Unknown,
    Stopped,
    Starting,
    Running,
    Stopping,
    Failed,
}

/// One verdict of a readiness probe: the service reached its target within
/// the bounded timeout, or the timeout elapsed first.
#[derive(Debug, Clone, Copy, PartialEq, Eq, Structural)]
pub enum ProbeVerdict {
    Converged,
    TimedOut,
}

/// What one batch operation did, or would do, for one requested name.
#[derive(Debug, Clone, Copy, PartialEq, Eq, Structural)]
pub enum ServiceOutcome {
    /// Dry run: the service would change state.
    WouldChange,
    /// Already at the target; no action was (or would be) issued.
    AlreadyConverged,
    /// An action was issued and the probe confirmed the target state.
    Changed,
    /// An action was issued and the probe timed out; the service is Failed.
    Failed,
}

/// A service name with its last observed state and transition time.
#[derive(Debug, Clone, PartialEq, Eq)]
pub struct ServiceEntry {
    pub name: String,
    pub state: ServiceState,
    pub last_transition_ms: u64,
}

/// Process-wide orchestration state: the mapping from service name to last
/// observed state. Initialized empty; mutated only by the operations here.
#[derive(Debug, Clone, PartialEq, Eq)]
pub struct OrchestrationState {
    pub entries: Vec<ServiceEntry>,
}

/// Entry names are pairwise distinct.
pub open spec fn entries_unique(entries: Seq<ServiceEntry>) -> bool {
    forall|i: int, j: int|
        0 <= i < j < entries.len() ==> entries[i].name@ != entries[j].name@
}

/// Some entry carries name `n`.
pub open spec fn entries_have(entries: Seq<ServiceEntry>, n: Seq<char>) -> bool {
    exists|i: int| 0 <= i < entries.len() && entries[i].name@ == n
}

/// The state recorded for name `n`; `Unknown` when no entry carries it.
pub open spec fn state_at(entries: Seq<ServiceEntry>, n: Seq<char>) -> ServiceState {
    if entries_have(entries, n) {
        entries[choose|i: int| 0 <= i < entries.len() && entries[i].name@ == n].state
    } else {
        ServiceState::Unknown
    }
}

/// The state mapping a sequence of entries denotes.
pub open spec fn view_of(entries: Seq<ServiceEntry>) -> Map<Seq<char>, ServiceState> {
    Map::new(|n: Seq<char>| entries_have(entries, n), |n: Seq<char>| state_at(entries, n))
}

/// The state a mapping records for `n`, `Unknown` when unmapped.
pub open spec fn map_state(m: Map<Seq<char>, ServiceState>, n: Seq<char>) -> ServiceState {
    if m.contains_key(n) {
        m[n]
    } else {
        ServiceState::Unknown
    }
}

/// One step of a stop batch on the state mapping: only a `Running` service
/// is acted on, moving through `Stopping` to `Stopped`, or to `Failed` when
/// its probe times out; everything else converges untouched.
pub open spec fn spec_stop_one(
    m: Map<Seq<char>, ServiceState>,
    n: Seq<char>,
    verdict: ProbeVerdict,
) -> Map<Seq<char>, ServiceState> {
    if map_state(m, n) is Running {
        m.insert(
            n,
            if verdict is Converged {
                ServiceState::Stopped
            } else {
                ServiceState::Failed
            },
        )
    } else {
        m
    }
}

/// The outcome a stop batch reports for one name against the state mapping
/// it finds.
pub open spec fn spec_stop_outcome(
    m: Map<Seq<char>, ServiceState>,
    n: Seq<char>,
    verdict: ProbeVerdict,
    dry_run: bool,
) -> ServiceOutcome {
    if !(map_state(m, n) is Running) {
        ServiceOutcome::AlreadyConverged
    } else if dry_run {
        ServiceOutcome::WouldChange
    } else if verdict is Converged {
        ServiceOutcome::Changed
    } else {
        ServiceOutcome::Failed
    }
}

/// One step of a start batch: only a service not yet `Running` is acted on,
/// moving through `Starting` to `Running`, or to `Failed` on probe timeout;
/// a service already `Running` converges with no redundant start.
pub open spec fn spec_start_one(
    m: Map<Seq<char>, ServiceState>,
    n: Seq<char>,
    verdict: ProbeVerdict,
) -> Map<Seq<char>, ServiceState> {
    if map_state(m, n) is Running {
        m
    } else {
        m.insert(
            n,
            if verdict is Converged {
                ServiceState::Running
            } else {
                ServiceState::Failed
            },
        )
    }
}

/// The outcome a start batch reports for one name against the state mapping
/// it finds.
pub open spec fn spec_start_outcome(
    m: Map<Seq<char>, ServiceState>,
    n: Seq<char>,
    verdict: ProbeVerdict,
    dry_run: bool,
) -> ServiceOutcome {
    if map_state(m, n) is Running {
        ServiceOutcome::AlreadyConverged
    } else if dry_run {
        ServiceOutcome::WouldChange
    } else if verdict is Converged {
        ServiceOutcome::Changed
    } else {
        ServiceOutcome::Failed
    }
}

/// The state mapping after a stop batch over a prefix of the names, each
/// name seeing the state its predecessors left.
pub open spec fn spec_stop_batch(
    m: Map<Seq<char>, ServiceState>,
    names: Seq<Seq<char>>,
    verdicts: Seq<ProbeVerdict>,
) -> Map<Seq<char>, ServiceState>
    decreases names.len(),
{
    if names.len() == 0 {
        m
    } else {
        spec_stop_one(
            spec_stop_batch(m, names.drop_last(), verdicts.drop_last()),
            names.last(),
            verdicts.last(),
        )
    }
}

/// The state mapping after a start batch over a prefix of the names.
pub open spec fn spec_start_batch(
    m: Map<Seq<char>, ServiceState>,
    names: Seq<Seq<char>>,
    verdicts: Seq<ProbeVerdict>,
) -> Map<Seq<char>, ServiceState>
    decreases names.len(),
{
    if names.len() == 0 {
        m
    } else {
        spec_start_one(
            spec_start_batch(m, names.drop_last(), verdicts.drop_last()),
            names.last(),
            verdicts.last(),
        )
    }
}

/// The names of a request, as character sequences.
pub open spec fn names_view(names: Seq<String>) -> Seq<Seq<char>> {
    names.map_values(|s: String| s@)
}

impl OrchestrationState {
    /// The orchestration invariant: one entry per service name.
    pub open spec fn wf(self) -> bool {
        entries_unique(self.entries@)
    }

    /// The state mapping this orchestration state denotes.
    pub open spec fn view(self) -> Map<Seq<char>, ServiceState> {
        view_of(self.entries@)
    }

    /// An empty orchestration state: every service `Unknown`.
    pub fn new() -> (r: OrchestrationState)
        ensures
            r.wf(),
            r@ == Map::<Seq<char>, ServiceState>::empty(),
    {
        let r = OrchestrationState { entries: Vec::new() };
        proof {
            assert(r@ =~= Map::<Seq<char>, ServiceState>::empty());
        }
        r
    }

    /// Index of the entry carrying `name`, if any.
    fn find(&self, name: &String) -> (r: Option<usize>)
        ensures
            (match r {
                Some(i) => i < self.entries@.len() && self.entries@[i as int].name@ == name@,
                None => !entries_have(self.entries@, name@),
            }),
    {
        let mut i: usize = 0;
        while i < self.entries.len()
            invariant
                0 <= i <= self.entries@.len(),
                forall|k: int| 0 <= k < i ==> self.entries@[k].name@ != name@,
            decreases self.entries@.len() - i,
        {
            if self.entries[i].name == *name {
                return Some(i);
            }
            i = i + 1;
        }
        None
    }

    /// The last observed state of `name`, `Unknown` when never seen.
    pub fn state_of(&self, name: &String) -> (r: ServiceState)
        requires
            self.wf(),
        ensures
            r == map_state(self@, name@),
    {
        proof {
            lemma_view_state(self.entries@, name@);
        }
        match self.find(name) {
            Some(i) => self.entries[i].state,
            None => ServiceState::Unknown,
        }
    }

    /// Records `state` for `name` at time `now_ms`, updating the entry in
    /// place or appending a new one.
    fn record(&mut self, name: &String, state: ServiceState, now_ms: u64)
        requires
            old(self).wf(),
        ensures
            final(self).wf(),
            final(self)@ == old(self)@.insert(name@, state),
    {
        proof {
            lemma_view_state(old(self).entries@, name@);
        }
        let ghost old_entries = self.entries@;
        match self.find(name) {
            Some(i) => {
                let nm = clone_string(name);
                self.entries[i] = ServiceEntry { name: nm, state, last_transition_ms: now_ms };
                proof {
                    let e = self.entries@;
                    assert forall|n: Seq<char>| true implies #[trigger] entries_have(e, n)
                        == entries_have(old_entries, n) by {
                        if entries_have(old_entries, n) {
                            let k = choose|k: int|
                                0 <= k < old_entries.len() && old_entries[k].name@ == n;
                            assert(e[k].name@ == n);
                        }
                        if entries_have(e, n) {
                            let k = choose|k: int| 0 <= k < e.len() && e[k].name@ == n;
                            assert(old_entries[k].name@ == n);
                        }
                    }
                    assert forall|p: int, q: int|
                        0 <= p < q < e.len() implies e[p].name@ != e[q].name@ by {
                        assert(old_entries[p].name@ != old_entries[q].name@);
                    }
                    assert(self@ =~= old(self)@.insert(name@, state)) by {
                        assert forall|n: Seq<char>| entries_have(e, n) implies state_at(e, n)
                            == (if n == name@ {
                            state
                        } else {
                            state_at(old_entries, n)
                        }) by {
                            let k = choose|k: int| 0 <= k < e.len() && e[k].name@ == n;
                            if n == name@ {
                                assert(k == i) by {
                                    if k != i {
                                        assert(old_entries[k].name@ == n);
                                        assert(old_entries[i as int].name@ == n);
                                    }
                                }
                            } else {
                                assert(k != i);
                                assert(old_entries[k].name@ == n);
                                lemma_state_at_index(old_entries, k);
                                lemma_state_at_index(e, k);
                            }
                        }
                    }
                }
            },
            None => {
                let nm = clone_string(name);
                self.entries.push(ServiceEntry { name: nm, state, last_transition_ms: now_ms });
                proof {
                    let e = self.entries@;
                    assert(e.len() == old_entries.len() + 1);
                    assert(e[e.len() - 1].name@ == name@);
                    assert(e[e.len() - 1].state == state);
                    assert(forall|p: int| 0 <= p < old_entries.len() ==> e[p] == old_entries[p]);
                    assert forall|p: int, q: int|
                        0 <= p < q < e.len() implies e[p].name@ != e[q].name@ by {
                        if q < old_entries.len() {
                            assert(old_entries[p].name@ != old_entries[q].name@);
                        } else {
                            assert(e[q].name@ == name@);
                            assert(e[p] == old_entries[p]);
                        }
                    }
                    assert(self@ =~= old(self)@.insert(name@, state)) by {
                        assert forall|n: Seq<char>| entries_have(e, n) implies state_at(e, n)
                            == (if n == name@ {
                            state
                        } else {
                            state_at(old_entries, n)
                        }) by {
                            let k = choose|k: int| 0 <= k < e.len() && e[k].name@ == n;
                            if n == name@ {
                                assert(k == e.len() - 1) by {
                                    if k < e.len() - 1 {
                                        assert(!entries_have(old_entries, name@));
                                        assert(old_entries[k].name@ == n);
                                    }
                                }
                            } else {
                                assert(k < old_entries.len());
                                lemma_state_at_index(old_entries, k);
                                lemma_state_at_index(e, k);
                            }
                        }
                        assert forall|n: Seq<char>| entries_have(old_entries, n) || n == name@
                            implies entries_have(e, n) by {
                            if n == name@ {
                                assert(e[e.len() - 1].name@ == n);
                            } else {
                                let k = choose|k: int|
                                    0 <= k < old_entries.len() && old_entries[k].name@ == n;
                                assert(e[k].name@ == n);
                            }
                        }
                        assert forall|n: Seq<char>| entries_have(e, n) implies (entries_have(
                            old_entries,
                            n,
                        ) || n == name@) by {
                            let k = choose|k: int| 0 <= k < e.len() && e[k].name@ == n;
                            if k < old_entries.len() {
                                assert(old_entries[k].name@ == n);
                            }
                        }
                    }
                }
            },
        }
    }

    /// Stops the named services, in the order given. For each name: a
    /// service currently `Running` is stopped — through `Stopping`, to
    /// `Stopped` when its readiness probe confirms within the bounded
    /// timeout, to `Failed` when it times out — and any other state
    /// converges with no action. One service's failure never blocks the
    /// remaining names. With `dry_run` the diff is computed and reported
    /// and the state is left untouched. `verdicts[k]` is the probe's
    /// verdict for `names[k]`, supplied by the external prober.
    pub fn stop_services(
        &mut self,
        names: &Vec<String>,
        verdicts: &Vec<ProbeVerdict>,
        dry_run: bool,
        now_ms: u64,
    ) -> (outcomes: Vec<ServiceOutcome>)
        requires
            old(self).wf(),
            verdicts@.len() == names@.len(),
        ensures
            final(self).wf(),
            dry_run ==> final(self)@ == old(self)@,
            !dry_run ==> final(self)@ == spec_stop_batch(
                old(self)@,
                names_view(names@),
                verdicts@,
            ),
            outcomes@.len() == names@.len(),
            forall|k: int|
                0 <= k < names@.len() ==> #[trigger] outcomes@[k] == spec_stop_outcome(
                    (if dry_run {
                        old(self)@
                    } else {
                        spec_stop_batch(
                            old(self)@,
                            names_view(names@).take(k),
                            verdicts@.take(k),
                        )
                    }),
                    names@[k]@,
                    verdicts@[k],
                    dry_run,
                ),
    {
        let mut outcomes: Vec<ServiceOutcome> = Vec::new();
        let mut k: usize = 0;
        proof {
            assert(names_view(names@).take(0) =~= Seq::<Seq<char>>::empty());
            assert(verdicts@.take(0) =~= Seq::<ProbeVerdict>::empty());
        }
        while k < names.len()
            invariant
                self.wf(),
                verdicts@.len() == names@.len(),
                0 <= k <= names@.len(),
                dry_run ==> self@ == old(self)@,
                !dry_run ==> self@ == spec_stop_batch(
                    old(self)@,
                    names_view(names@).take(k as int),
                    verdicts@.take(k as int),
                ),
                outcomes@.len() == k,
                forall|t: int|
                    0 <= t < k ==> #[trigger] outcomes@[t] == spec_stop_outcome(
                        (if dry_run {
                            old(self)@
                        } else {
                            spec_stop_batch(
                                old(self)@,
                                names_view(names@).take(t),
                                verdicts@.take(t),
                            )
                        }),
                        names@[t]@,
                        verdicts@[t],
                        dry_run,
                    ),
            decreases names@.len() - k,
        {
            let name = &names[k];
            let cur = self.state_of(name);
            let verdict = verdicts[k];
            let outcome: ServiceOutcome = if !matches!(cur, ServiceState::Running) {
                ServiceOutcome::AlreadyConverged
            } else if dry_run {
                ServiceOutcome::WouldChange
            } else {
                // transition Running -> Stopping, issue the stop, poll;
                // the probe's verdict resolves Stopping into the final state
                match verdict {
                    ProbeVerdict::Converged => {
                        self.record(name, ServiceState::Stopped, now_ms);
                        ServiceOutcome::Changed
                    },
                    ProbeVerdict::TimedOut => {
                        self.record(name, ServiceState::Failed, now_ms);
                        ServiceOutcome::Failed
                    },
                }
            };
            outcomes.push(outcome);
            proof {
                let nv = names_view(names@);
                assert(nv.take(k as int + 1).drop_last() =~= nv.take(k as int));
                assert(verdicts@.take(k as int + 1).drop_last() =~= verdicts@.take(k as int));
                assert(nv.take(k as int + 1).last() == names@[k as int]@);
                assert(verdicts@.take(k as int + 1).last() == verdicts@[k as int]);
            }
            k = k + 1;
        }
        proof {
            assert(names_view(names@).take(names@.len() as int) =~= names_view(names@));
            assert(verdicts@.take(names@.len() as int) =~= verdicts@);
        }
        outcomes
    }

    /// Starts the named services, in the order given. For each name: a
    /// service already `Running` converges with no redundant start action;
    /// any other state is started — through `Starting`, to `Running` once
    /// the readiness probe confirms the service accepts work, to `Failed`
    /// on timeout. One service's failure never blocks the remaining names.
    /// With `dry_run` the diff is computed and reported and the state is
    /// left untouched.
    pub fn start_services(
        &mut self,
        names: &Vec<String>,
        verdicts: &Vec<ProbeVerdict>,
        dry_run: bool,
        now_ms: u64,
    ) -> (outcomes: Vec<ServiceOutcome>)
        requires
            old(self).wf(),
            verdicts@.len() == names@.len(),
        ensures
            final(self).wf(),
            dry_run ==> final(self)@ == old(self)@,
            !dry_run ==> final(self)@ == spec_start_batch(
                old(self)@,
                names_view(names@),
                verdicts@,
            ),
            outcomes@.len() == names@.len(),
            forall|k: int|
                0 <= k < names@.len() ==> #[trigger] outcomes@[k] == spec_start_outcome(
                    (if dry_run {
                        old(self)@
                    } else {
                        spec_start_batch(
                            old(self)@,
                            names_view(names@).take(k),
                            verdicts@.take(k),
                        )
                    }),
                    names@[k]@,
                    verdicts@[k],
                    dry_run,
                ),
    {
        let mut outcomes: Vec<ServiceOutcome> = Vec::new();
        let mut k: usize = 0;
        proof {
            assert(names_view(names@).take(0) =~= Seq::<Seq<char>>::empty());
            assert(verdicts@.take(0) =~= Seq::<ProbeVerdict>::empty());
        }
        while k < names.len()
            invariant
                self.wf(),
                verdicts@.len() == names@.len(),
                0 <= k <= names@.len(),
                dry_run ==> self@ == old(self)@,
                !dry_run ==> self@ == spec_start_batch(
                    old(self)@,
                    names_view(names@).take(k as int),
                    verdicts@.take(k as int),
                ),
                outcomes@.len() == k,
                forall|t: int|
                    0 <= t < k ==> #[trigger] outcomes@[t] == spec_start_outcome(
                        (if dry_run {
                            old(self)@
                        } else {
                            spec_start_batch(
                                old(self)@,
                                names_view(names@).take(t),
                                verdicts@.take(t),
                            )
                        }),
                        names@[t]@,
                        verdicts@[t],
                        dry_run,
                    ),
            decreases names@.len() - k,
        {
            let name = &names[k];
            let cur = self.state_of(name);
            let verdict = verdicts[k];
            let outcome: ServiceOutcome = if matches!(cur, ServiceState::Running) {
                ServiceOutcome::AlreadyConverged
            } else if dry_run {
                ServiceOutcome::WouldChange
            } else {
                // transition to Starting, issue the start, poll until the
                // probe confirms the service accepts work or times out
                match verdict {
                    ProbeVerdict::Converged => {
                        self.record(name, ServiceState::Running, now_ms);
                        ServiceOutcome::Changed
                    },
                    ProbeVerdict::TimedOut => {
                        self.record(name, ServiceState::Failed, now_ms);
                        ServiceOutcome::Failed
                    },
                }
            };
            outcomes.push(outcome);
            proof {
                let nv = names_view(names@);
                assert(nv.take(k as int + 1).drop_last() =~= nv.take(k as int));
                assert(verdicts@.take(k as int + 1).drop_last() =~= verdicts@.take(k as int));
                assert(nv.take(k as int + 1).last() == names@[k as int]@);
                assert(verdicts@.take(k as int + 1).last() == verdicts@[k as int]);
            }
            k = k + 1;
        }
        proof {
            assert(names_view(names@).take(names@.len() as int) =~= names_view(names@));
            assert(verdicts@.take(names@.len() as int) =~= verdicts@);
        }
        outcomes
    }
}

/// `state_at` looks through to any entry index carrying the name, names
/// being unique.
proof fn lemma_state_at_index(entries: Seq<ServiceEntry>, i: int)
    requires
        entries_unique(entries),
        0 <= i < entries.len(),
    ensures
        state_at(entries, entries[i].name@) == entries[i].state,
{
    let n = entries[i].name@;
    assert(entries_have(entries, n));
    let k = choose|k: int| 0 <= k < entries.len() && entries[k].name@ == n;
    if k != i {
        assert(entries[k].name@ == entries[i].name@);
    }
}

/// The denoted mapping agrees with `state_at` on every name.
proof fn lemma_view_state(entries: Seq<ServiceEntry>, n: Seq<char>)
    ensures
        map_state(view_of(entries), n) == state_at(entries, n),
        view_of(entries).contains_key(n) == entries_have(entries, n),
{
}

/// Clones a service name.
fn clone_string(s: &String) -> (r: String)
    ensures
        r@ == s@,
{
    s.clone()
}

/// A per-service failure of one batch, carrying the offending name.
#[derive(Debug, Clone, PartialEq, Eq)]
pub enum OrchestrationError {
    /// A stop's readiness probe did not confirm within the bounded timeout.
    ServiceTimeout(String),
    /// A started service never confirmed it accepts work.
    ServiceFailed(String),
}

/// The names whose outcome is `Failed`, in batch order.
pub open spec fn spec_failed_names(names: Seq<String>, outcomes: Seq<ServiceOutcome>) -> Seq<
    Seq<char>,
>
    decreases names.len(),
{
    if names.len() == 0 {
        Seq::empty()
    } else {
        let rest = spec_failed_names(names.drop_last(), outcomes.drop_last());
        if outcomes.last() is Failed {
            rest.push(names.last()@)
        } else {
            rest
        }
    }
}

/// Collects the failures of one batch, in the order given: one error per
/// name whose probe failed, carrying that name — a timeout for a stop
/// batch, a failed confirmation for a start batch. Partial failure is
/// collected and reported, never fatal to the whole batch.
pub fn collect_failures(
    names: &Vec<String>,
    outcomes: &Vec<ServiceOutcome>,
    stopping: bool,
) -> (errs: Vec<OrchestrationError>)
    requires
        outcomes@.len() == names@.len(),
    ensures
        errs@.len() == spec_failed_names(names@, outcomes@).len(),
        forall|k: int|
            0 <= k < errs@.len() ==> (match #[trigger] errs@[k] {
                OrchestrationError::ServiceTimeout(n) => stopping && n@ == spec_failed_names(
                    names@,
                    outcomes@,
                )[k],
                OrchestrationError::ServiceFailed(n) => !stopping && n@ == spec_failed_names(
                    names@,
                    outcomes@,
                )[k],
            }),
{
    let mut errs: Vec<OrchestrationError> = Vec::new();
    let mut i: usize = 0;
    proof {
        assert(names@.take(0) =~= Seq::<String>::empty());
    }
    while i < names.len()
        invariant
            0 <= i <= names@.len(),
            outcomes@.len() == names@.len(),
            errs@.len() == spec_failed_names(names@.take(i as int), outcomes@.take(i as int)).len(),
            forall|k: int|
                0 <= k < errs@.len() ==> (match #[trigger] errs@[k] {
                    OrchestrationError::ServiceTimeout(n) => stopping && n@ == spec_failed_names(
                        names@.take(i as int),
                        outcomes@.take(i as int),
                    )[k],
                    OrchestrationError::ServiceFailed(n) => !stopping && n@ == spec_failed_names(
                        names@.take(i as int),
                        outcomes@.take(i as int),
                    )[k],
                }),
        decreases names@.len() - i,
    {
        proof {
            assert(names@.take(i as int + 1).drop_last() =~= names@.take(i as int));
            assert(outcomes@.take(i as int + 1).drop_last() =~= outcomes@.take(i as int));
            assert(names@.take(i as int + 1).last() == names@[i as int]);
            assert(outcomes@.take(i as int + 1).last() == outcomes@[i as int]);
        }
        if matches!(outcomes[i], ServiceOutcome::Failed) {
            let n = clone_string(&names[i]);
            if stopping {
                errs.push(OrchestrationError::ServiceTimeout(n));
            } else {
                errs.push(OrchestrationError::ServiceFailed(n));
            }
        }
        i = i + 1;
    }
    proof {
        assert(names@.take(names@.len() as int) =~= names@);
        assert(outcomes@.take(names@.len() as int) =~= outcomes@);
    }
    errs
}

/// Cross-service independence: a batch start or stop touches only the
/// services it names — every other service's state is exactly what it was.
pub proof fn lemma_batch_touches_only_named(
    m: Map<Seq<char>, ServiceState>,
    names: Seq<Seq<char>>,
    verdicts: Seq<ProbeVerdict>,
    n: Seq<char>,
)
    requires
        verdicts.len() == names.len(),
        forall|i: int| 0 <= i < names.len() ==> names[i] != n,
    ensures
        map_state(spec_stop_batch(m, names, verdicts), n) == map_state(m, n),
        map_state(spec_start_batch(m, names, verdicts), n) == map_state(m, n),
    decreases names.len(),
{
    if names.len() > 0 {
        assert(forall|i: int|
            0 <= i < names.drop_last().len() ==> names.drop_last()[i] != n);
        lemma_batch_touches_only_named(m, names.drop_last(), verdicts.drop_last(), n);
        assert(names.last() != n);
    }
}

/// Starting an already-running service is idempotent: with `x` recorded
/// `Running`, a start batch of `[x]` leaves the whole state mapping
/// unchanged and reports `x` as already converged — twice in a row gives
/// the same, with no redundant start action either time.
pub proof fn lemma_start_idempotent_when_running(
    m: Map<Seq<char>, ServiceState>,
    x: Seq<char>,
    verdict: ProbeVerdict,
    verdict2: ProbeVerdict,
)
    requires
        map_state(m, x) is Running,
    ensures
        spec_start_batch(m, seq![x], seq![verdict]) == m,
        spec_start_outcome(m, x, verdict, false) == ServiceOutcome::AlreadyConverged,
        spec_start_batch(
            spec_start_batch(m, seq![x], seq![verdict]),
            seq![x],
            seq![verdict2],
        ) == m,
        spec_start_outcome(
            spec_start_batch(m, seq![x], seq![verdict]),
            x,
            verdict2,
            false,
        ) == ServiceOutcome::AlreadyConverged,
{
    assert(seq![x].drop_last() =~= Seq::<Seq<char>>::empty());
    assert(seq![verdict].drop_last() =~= Seq::<ProbeVerdict>::empty());
    assert(seq![verdict2].drop_last() =~= Seq::<ProbeVerdict>::empty());
    assert(spec_start_batch(m, seq![x].drop_last(), seq![verdict].drop_last()) == m);
    let m1 = spec_start_batch(m, seq![x], seq![verdict]);
    assert(m1 == spec_start_one(m, x, verdict));
    assert(m1 == m);
    assert(spec_start_batch(m1, seq![x].drop_last(), seq![verdict2].drop_last()) == m1);
    let m2 = spec_start_batch(m1, seq![x], seq![verdict2]);
    assert(m2 == spec_start_one(m1, x, verdict2));
    assert(m2 == m);
}

} // verus!
