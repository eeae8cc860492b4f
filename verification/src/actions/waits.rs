//! Waits for analyses.
use crate::actions::analysis::{
    collect_under_all, set_under_all, AnalysisQueue, AnalysisStorage, IsolatedInfo, PathKey,
};
use crate::actions::context::{
    AnalysisCoverageSpec, AnalysisProgressKind, AnalysisStateWaitDefinition, AnalysisWaitKind,
    InitActionContext,
};
use crate::collections::{keys_of, Keyed, VecMap, VecSet};
use crate::effects::{AnalysisStateResponse, Effect, EffectView, Outbox};
use crate::path::CanonPath;
use vstd::prelude::*;

verus! {

/// The devices that a wait for these paths covers.
pub open spec fn devices_awaited(
    analysis: AnalysisStorage,
    kind: AnalysisProgressKind,
    paths: Set<PathKey>,
) -> Set<PathKey> {
    match kind {
        AnalysisProgressKind::Isolated => Set::empty(),
        AnalysisProgressKind::Device => paths,
        AnalysisProgressKind::DeviceDependencies => set_under_all(
            analysis.device_triggers@,
            paths,
        ),
    }
}

/// The files on their own that a wait for these paths covers: the paths, and
/// what the devices import that it covers. A wait for the work on the devices
/// that the paths set off is a wait for all work on files on their own, and
/// needs no imports.
pub open spec fn files_awaited(
    analysis: AnalysisStorage,
    kind: AnalysisProgressKind,
    wait_kind: AnalysisWaitKind,
    paths: Set<PathKey>,
) -> Set<PathKey> {
    if kind == AnalysisProgressKind::DeviceDependencies && wait_kind == AnalysisWaitKind::Work {
        paths
    } else {
        paths.union(
            set_under_all(analysis.all_dependencies@, devices_awaited(analysis, kind, paths)),
        )
    }
}

/// Whether a wait is over.
pub open spec fn is_over(
    analysis: AnalysisStorage,
    queue: AnalysisQueue,
    kind: AnalysisProgressKind,
    wait_kind: AnalysisWaitKind,
    coverage: AnalysisCoverageSpec,
) -> bool {
    match (coverage, wait_kind) {
        (AnalysisCoverageSpec::Paths(paths), AnalysisWaitKind::Work) => {
            let paths = keys_of(paths@).to_set();
            &&& kind == AnalysisProgressKind::DeviceDependencies ==> queue.isolated_jobs@
                == Set::<PathKey>::empty()
            &&& queue.isolated_jobs@.disjoint(files_awaited(analysis, kind, wait_kind, paths))
            &&& queue.device_jobs@.disjoint(devices_awaited(analysis, kind, paths))
        },
        (AnalysisCoverageSpec::Paths(paths), AnalysisWaitKind::Existence) => {
            let paths = keys_of(paths@).to_set();
            &&& files_awaited(analysis, kind, wait_kind, paths).subset_of(
                analysis.isolated_analysis@.dom(),
            )
            &&& devices_awaited(analysis, kind, paths).subset_of(analysis.device_analysis@)
        },
        (AnalysisCoverageSpec::All, AnalysisWaitKind::Work) => {
            &&& queue.isolated_jobs@ == Set::<PathKey>::empty()
            &&& kind != AnalysisProgressKind::Isolated ==> queue.device_jobs@ == Set::<
                PathKey,
            >::empty()
        },
        // A wait for the existence of all is one for the existence of
        // anything.
        (AnalysisCoverageSpec::All, AnalysisWaitKind::Existence) => {
            &&& analysis.isolated_analysis@ != Map::<PathKey, IsolatedInfo>::empty()
            &&& kind != AnalysisProgressKind::Isolated ==> analysis.device_analysis@ != Set::<
                PathKey,
            >::empty()
        },
    }
}

/// Whether the analyses of one path exist that are waited for.
pub open spec fn path_achieved(
    analysis: AnalysisStorage,
    kind: AnalysisProgressKind,
    path: PathKey,
) -> bool {
    &&& analysis.isolated_analysis@.contains_key(path)
    &&& match kind {
        AnalysisProgressKind::Isolated => true,
        AnalysisProgressKind::Device => analysis.device_analysis@.contains(path),
        AnalysisProgressKind::DeviceDependencies => exists|device: PathKey| #[trigger]
            analysis.triggers_of(path).contains(device) && analysis.device_analysis@.contains(
                device,
            ),
    }
}

/// Whether the analyses exist that are waited for.
pub open spec fn achieved(
    analysis: AnalysisStorage,
    kind: AnalysisProgressKind,
    coverage: AnalysisCoverageSpec,
) -> bool {
    match coverage {
        AnalysisCoverageSpec::Paths(paths) => forall|i: int|
            0 <= i < paths@.len() ==> path_achieved(analysis, kind, (#[trigger] paths@[i]).key()),
        AnalysisCoverageSpec::All => if kind == AnalysisProgressKind::Isolated {
            analysis.isolated_analysis@ != Map::<PathKey, IsolatedInfo>::empty()
        } else {
            analysis.device_analysis@ != Set::<PathKey>::empty()
        },
    }
}

/// What a wait that is over came to.
pub open spec fn outcome(
    analysis: AnalysisStorage,
    kind: AnalysisProgressKind,
    coverage: AnalysisCoverageSpec,
) -> AnalysisStateResponse {
    if achieved(analysis, kind, coverage) {
        AnalysisStateResponse::Achieved
    } else {
        AnalysisStateResponse::Satisfied
    }
}

impl AnalysisStateWaitDefinition {
    /// Whether this wait is over.
    pub open spec fn over(&self, ctx: InitActionContext) -> bool {
        is_over(
            ctx.analysis,
            ctx.analysis_queue,
            self.progress_kind,
            self.wait_kind,
            self.coverage,
        )
    }

    /// The answer to whoever waits.
    pub open spec fn answer(&self, ctx: InitActionContext) -> EffectView {
        EffectView::AnswerWait {
            waiter: self.response,
            response: outcome(ctx.analysis, self.progress_kind, self.coverage),
        }
    }
}

/// The answers to the waits that are over among the first `n`.
pub open spec fn answers(
    waits: Seq<AnalysisStateWaitDefinition>,
    ctx: InitActionContext,
    n: int,
) -> Seq<EffectView>
    decreases n,
{
    if n <= 0 {
        Seq::empty()
    } else if waits[n - 1].over(ctx) {
        answers(waits, ctx, n - 1).push(waits[n - 1].answer(ctx))
    } else {
        answers(waits, ctx, n - 1)
    }
}

/// One more wait, one more step of the filter.
proof fn lemma_filter_step(
    s: Seq<AnalysisStateWaitDefinition>,
    p: spec_fn(AnalysisStateWaitDefinition) -> bool,
    i: int,
)
    requires
        0 <= i < s.len(),
    ensures
        s.take(i + 1).filter(p) == (if p(s[i]) {
            s.take(i).filter(p).push(s[i])
        } else {
            s.take(i).filter(p)
        }),
{
    reveal(Seq::filter);
    assert(s.take(i + 1).drop_last() =~= s.take(i));
    assert(s.take(i + 1).last() == s[i]);
}

/// The empty filter.
proof fn lemma_filter_start(
    s: Seq<AnalysisStateWaitDefinition>,
    p: spec_fn(AnalysisStateWaitDefinition) -> bool,
)
    ensures
        s.take(0).filter(p) == Seq::<AnalysisStateWaitDefinition>::empty(),
{
    reveal(Seq::filter);
    assert(s.take(0).filter(p) =~= Seq::<AnalysisStateWaitDefinition>::empty());
}

impl InitActionContext {
    /// Takes a wait up.
    pub fn add_state_wait(&mut self, def: AnalysisStateWaitDefinition)
        ensures
            *final(self) == (InitActionContext {
                active_waits: final(self).active_waits,
                ..*old(self)
            }),
            final(self).active_waits@ == old(self).active_waits@.push(def),
    {
        self.active_waits.push(def);
    }

    /// Asks everybody who waits whether they still do.
    pub fn ping_waits(&self, out: &mut Outbox)
        ensures
            final(out)@ == old(out)@ + self.active_waits@.map_values(
                |w: AnalysisStateWaitDefinition|
                    EffectView::AnswerWait {
                        waiter: w.response,
                        response: AnalysisStateResponse::Ping,
                    },
            ),
    {
        let ghost before = out@;
        let ghost all = self.active_waits@.map_values(
            |w: AnalysisStateWaitDefinition|
                EffectView::AnswerWait {
                    waiter: w.response,
                    response: AnalysisStateResponse::Ping,
                },
        );
        let mut i: usize = 0;
        assert(out@ =~= before + all.take(0));
        while i < self.active_waits.len()
            invariant
                i <= self.active_waits@.len(),
                all == self.active_waits@.map_values(
                    |w: AnalysisStateWaitDefinition|
                        EffectView::AnswerWait {
                            waiter: w.response,
                            response: AnalysisStateResponse::Ping,
                        },
                ),
                out@ == before + all.take(i as int),
            decreases self.active_waits@.len() - i,
        {
            out.push(
                Effect::AnswerWait {
                    waiter: self.active_waits[i].response,
                    response: AnalysisStateResponse::Ping,
                },
            );
            assert(all.take(i as int + 1) =~= all.take(i as int).push(all[i as int]));
            assert(out@ =~= before + all.take(i as int + 1));
            i += 1;
        }
        assert(all.take(i as int) =~= all);
    }

    /// Drops the waits of those who cannot be reached any more.
    pub fn retain_live_waits(&mut self, unreachable: &VecSet<u64>)
        ensures
            *final(self) == (InitActionContext {
                active_waits: final(self).active_waits,
                ..*old(self)
            }),
            final(self).active_waits@ == old(self).active_waits@.filter(
                |w: AnalysisStateWaitDefinition| !unreachable@.contains(w.response),
            ),
    {
        let ghost before = *self;
        let ghost all = self.active_waits@;
        let ghost p = |w: AnalysisStateWaitDefinition| !unreachable@.contains(w.response);
        let mut kept: Vec<AnalysisStateWaitDefinition> = Vec::new();
        let mut rest: Vec<AnalysisStateWaitDefinition> = Vec::new();
        std::mem::swap(&mut rest, &mut self.active_waits);
        let ghost mut done: int = 0;
        proof {
            lemma_filter_start(all, p);
            assert(all.skip(0) =~= all);
        }
        while rest.len() > 0
            invariant
                0 <= done <= all.len(),
                rest@ == all.skip(done),
                p == (|w: AnalysisStateWaitDefinition| !unreachable@.contains(w.response)),
                kept@ == all.take(done).filter(p),
            decreases rest@.len(),
        {
            let wait = rest.remove(0);
            proof {
                assert(wait == all[done]);
                lemma_filter_step(all, p, done);
                assert(rest@ =~= all.skip(done + 1));
                done = done + 1;
            }
            if !unreachable.contains(&wait.response) {
                kept.push(wait);
            }
        }
        assert(all.take(done) =~= all);
        self.active_waits = kept;
    }

    /// Begins a wait: gives the outcome if it is over already, and else takes
    /// it up, for `waiter` to be answered later.
    pub fn wait_for_state(
        &mut self,
        progress_kind: AnalysisProgressKind,
        wait_kind: AnalysisWaitKind,
        coverage: AnalysisCoverageSpec,
        waiter: u64,
    ) -> (response: Option<AnalysisStateResponse>)
        ensures
            response == (if is_over(
                old(self).analysis,
                old(self).analysis_queue,
                progress_kind,
                wait_kind,
                coverage,
            ) {
                Some(outcome(old(self).analysis, progress_kind, coverage))
            } else {
                None
            }),
            *final(self) == (InitActionContext {
                active_waits: final(self).active_waits,
                ..*old(self)
            }),
            final(self).active_waits@ == (if response is Some {
                old(self).active_waits@
            } else {
                old(self).active_waits@.push(
                    AnalysisStateWaitDefinition {
                        progress_kind,
                        coverage,
                        wait_kind,
                        response: waiter,
                    },
                )
            }),
    {
        let wait = AnalysisStateWaitDefinition {
            progress_kind,
            coverage,
            wait_kind,
            response: waiter,
        };
        if self.check_wait(&wait) {
            Some(self.check_wait_satisfied(&wait))
        } else {
            self.add_state_wait(wait);
            None
        }
    }

    /// Whether a wait is over.
    pub fn check_wait(&self, wait: &AnalysisStateWaitDefinition) -> (over: bool)
        ensures
            over == wait.over(*self),
    {
        let queue = &self.analysis_queue;
        let analysis = &self.analysis;
        match &wait.coverage {
            AnalysisCoverageSpec::Paths(paths) => {
                let ghost wanted = keys_of(paths@).to_set();
                let mut wait_done = true;
                let mut isolated_paths = VecSet::of(paths);
                let mut device_paths: VecSet<CanonPath> = VecSet::new();
                match wait.progress_kind {
                    AnalysisProgressKind::Device => {
                        device_paths = isolated_paths.copy();
                        let extra_paths = collect_under_all(
                            &analysis.all_dependencies,
                            &isolated_paths,
                        );
                        isolated_paths.add_all(extra_paths.as_vec());
                    },
                    AnalysisProgressKind::DeviceDependencies => {
                        device_paths = collect_under_all(
                            &analysis.device_triggers,
                            &isolated_paths,
                        );
                        if wait.wait_kind == AnalysisWaitKind::Work {
                            wait_done = queue.isolated_jobs.is_empty();
                        } else {
                            let extra_paths = collect_under_all(
                                &analysis.all_dependencies,
                                &device_paths,
                            );
                            isolated_paths.add_all(extra_paths.as_vec());
                        }
                    },
                    AnalysisProgressKind::Isolated => {
                        assert(isolated_paths@.union(
                            set_under_all(analysis.all_dependencies@, Set::empty()),
                        ) =~= isolated_paths@);
                    },
                }
                assert(device_paths@ == devices_awaited(
                    *analysis,
                    wait.progress_kind,
                    wanted,
                ));
                assert(isolated_paths@ == files_awaited(
                    *analysis,
                    wait.progress_kind,
                    wait.wait_kind,
                    wanted,
                ));
                match wait.wait_kind {
                    AnalysisWaitKind::Work => wait_done && !queue.isolated_jobs.meets(
                        &isolated_paths,
                    ) && !queue.device_jobs.meets(&device_paths),
                    AnalysisWaitKind::Existence => wait_done && all_analysed(
                        &analysis.isolated_analysis,
                        &isolated_paths,
                    ) && device_paths.is_subset(&analysis.device_analysis),
                }
            },
            AnalysisCoverageSpec::All => match wait.wait_kind {
                AnalysisWaitKind::Work => queue.isolated_jobs.is_empty() && (
                wait.progress_kind == AnalysisProgressKind::Isolated
                    || queue.device_jobs.is_empty()),
                AnalysisWaitKind::Existence => !analysis.isolated_analysis.is_empty() && (
                wait.progress_kind == AnalysisProgressKind::Isolated
                    || !analysis.device_analysis.is_empty()),
            },
        }
    }

    /// Whether the analyses of one path exist that are waited for.
    fn check_path(&self, kind: AnalysisProgressKind, path: &CanonPath) -> (b: bool)
        ensures
            b == path_achieved(self.analysis, kind, path.key()),
    {
        if !self.analysis.isolated_analysis.contains_key(path) {
            return false;
        }
        match kind {
            AnalysisProgressKind::Isolated => true,
            AnalysisProgressKind::Device => self.analysis.device_analysis.contains(path),
            AnalysisProgressKind::DeviceDependencies => {
                match self.analysis.device_triggers.get(path) {
                    Some(devices) => {
                        assert(self.analysis.triggers_of(path.key()) == devices@);
                        let b = devices.meets(&self.analysis.device_analysis);
                        proof {
                            if b {
                                assert(exists|device: PathKey|
                                    devices@.contains(device)
                                        && self.analysis.device_analysis@.contains(device));
                            }
                        }
                        b
                    },
                    None => false,
                }
            },
        }
    }

    /// What a wait that is over came to.
    pub fn check_wait_satisfied(
        &self,
        wait: &AnalysisStateWaitDefinition,
    ) -> (response: AnalysisStateResponse)
        ensures
            response == outcome(self.analysis, wait.progress_kind, wait.coverage),
    {
        let analysis = &self.analysis;
        let all_there = match &wait.coverage {
            AnalysisCoverageSpec::Paths(paths) => {
                let mut so_far = true;
                let mut i: usize = 0;
                while i < paths.len() && so_far
                    invariant
                        i <= paths@.len(),
                        so_far ==> forall|j: int|
                            0 <= j < i ==> path_achieved(
                                self.analysis,
                                wait.progress_kind,
                                (#[trigger] paths@[j]).key(),
                            ),
                        !so_far ==> i > 0 && !path_achieved(
                            self.analysis,
                            wait.progress_kind,
                            paths@[i - 1].key(),
                        ),
                    decreases paths@.len() - i,
                {
                    so_far = self.check_path(wait.progress_kind, &paths[i]);
                    i += 1;
                }
                so_far
            },
            AnalysisCoverageSpec::All => if wait.progress_kind == AnalysisProgressKind::Isolated {
                !analysis.isolated_analysis.is_empty()
            } else {
                !analysis.device_analysis.is_empty()
            },
        };
        if all_there {
            AnalysisStateResponse::Achieved
        } else {
            AnalysisStateResponse::Satisfied
        }
    }

    /// Answers the waits that are over, in the order in which they were taken
    /// up, and keeps the others.
    pub fn check_state_waits(&mut self, out: &mut Outbox)
        ensures
            *final(self) == (InitActionContext {
                active_waits: final(self).active_waits,
                ..*old(self)
            }),
            final(self).active_waits@ == old(self).active_waits@.filter(
                |w: AnalysisStateWaitDefinition| !w.over(*old(self)),
            ),
            final(out)@ == old(out)@ + answers(
                old(self).active_waits@,
                *old(self),
                old(self).active_waits@.len() as int,
            ),
    {
        let ghost before = *self;
        let ghost all = self.active_waits@;
        let ghost p = |w: AnalysisStateWaitDefinition| !w.over(before);
        let ghost sent = out@;
        let mut kept: Vec<AnalysisStateWaitDefinition> = Vec::new();
        let mut rest: Vec<AnalysisStateWaitDefinition> = Vec::new();
        std::mem::swap(&mut rest, &mut self.active_waits);
        let ghost mut done: int = 0;
        proof {
            lemma_filter_start(all, p);
            assert(all.skip(0) =~= all);
            assert(out@ =~= sent + answers(all, before, 0));
        }
        while rest.len() > 0
            invariant
                0 <= done <= all.len(),
                rest@ == all.skip(done),
                self.analysis == before.analysis,
                self.analysis_queue == before.analysis_queue,
                *self == (InitActionContext { active_waits: self.active_waits, ..before }),
                p == (|w: AnalysisStateWaitDefinition| !w.over(before)),
                kept@ == all.take(done).filter(p),
                out@ == sent + answers(all, before, done),
            decreases rest@.len(),
        {
            let wait = rest.remove(0);
            proof {
                assert(wait == all[done]);
                lemma_filter_step(all, p, done);
                assert(rest@ =~= all.skip(done + 1));
                done = done + 1;
            }
            if self.check_wait(&wait) {
                let response = self.check_wait_satisfied(&wait);
                out.push(Effect::AnswerWait { waiter: wait.response, response });
                assert(out@ =~= sent + answers(all, before, done));
            } else {
                kept.push(wait);
            }
        }
        assert(all.take(done) =~= all);
        self.active_waits = kept;
    }
}

/// Whether all of the paths have been analysed on their own.
fn all_analysed(
    analysed: &VecMap<CanonPath, IsolatedInfo>,
    paths: &VecSet<CanonPath>,
) -> (b: bool)
    ensures
        b == paths@.subset_of(analysed@.dom()),
{
    let items = paths.as_vec();
    let mut i: usize = 0;
    while i < items.len()
        invariant
            i <= items@.len(),
            items@ == paths.members(),
            forall|j: int| 0 <= j < i ==> analysed@.contains_key((#[trigger] items@[j]).key()),
        decreases items@.len() - i,
    {
        if !analysed.contains_key(&items[i]) {
            assert(paths.keys()[i as int] == items@[i as int].key());
            assert(paths@.contains(items@[i as int].key()));
            return false;
        }
        i += 1;
    }
    assert forall|k: PathKey| paths@.contains(k) implies analysed@.dom().contains(k) by {
        let j = choose|j: int| 0 <= j < paths.keys().len() && paths.keys()[j] == k;
        assert(items@[j].key() == k);
    }
    true
}

/// What somebody who waits makes of an answer: being asked whether they still
/// wait is no reason to stop.
pub fn ends_wait(response: AnalysisStateResponse) -> (ends: bool)
    ensures
        ends == (response != AnalysisStateResponse::Ping),
{
    match response {
        AnalysisStateResponse::Ping => false,
        _ => true,
    }
}

} // verus!
