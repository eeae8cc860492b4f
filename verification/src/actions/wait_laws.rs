//! What holds of waits, told by what exists and what is under way.
use crate::actions::analysis::{
    set_under, set_under_all, AnalysisQueue, AnalysisStorage, IsolatedInfo, PathKey,
};
use crate::actions::context::{
    AnalysisCoverageSpec, AnalysisProgressKind, AnalysisStateWaitDefinition, AnalysisWaitKind,
    InitActionContext,
};
use crate::actions::waits::{achieved, answers, files_awaited, is_over, outcome, path_achieved};
use crate::collections::{keys_of, Keyed, VecSet};
use crate::effects::{AnalysisStateResponse, EffectView};
use crate::path::CanonPath;
use vstd::prelude::*;

verus! {

/// A key is among those of a list if and only if some path of the list has it.
proof fn lemma_listed(list: Seq<CanonPath>, k: PathKey)
    ensures
        keys_of(list).to_set().contains(k) <==> exists|i: int|
            0 <= i < list.len() && (#[trigger] list[i])@.components == k,
{
    if keys_of(list).to_set().contains(k) {
        let i = choose|i: int| 0 <= i < keys_of(list).len() && keys_of(list)[i] == k;
        assert(list[i]@.components == k);
    }
    if exists|i: int| 0 <= i < list.len() && (#[trigger] list[i])@.components == k {
        let i = choose|i: int| 0 <= i < list.len() && (#[trigger] list[i])@.components == k;
        assert(keys_of(list)[i] == k);
    }
}

/// What is under listed paths is what is under one of them.
proof fn lemma_under_listed(
    map: Map<PathKey, VecSet<CanonPath>>,
    list: Seq<CanonPath>,
    k: PathKey,
)
    ensures
        set_under_all(map, keys_of(list).to_set()).contains(k) <==> exists|i: int|
            0 <= i < list.len() && map.contains_key((#[trigger] list[i])@.components)
                && map[list[i]@.components]@.contains(k),
{
    let keys = keys_of(list).to_set();
    if set_under_all(map, keys).contains(k) {
        let p = choose|p: PathKey| #[trigger] keys.contains(p) && set_under(map, p).contains(k);
        lemma_listed(list, p);
        let i = choose|i: int| 0 <= i < list.len() && (#[trigger] list[i])@.components == p;
        assert(map.contains_key(list[i]@.components));
    }
    if exists|i: int|
        0 <= i < list.len() && map.contains_key((#[trigger] list[i])@.components)
            && map[list[i]@.components]@.contains(k) {
        let i = choose|i: int|
            0 <= i < list.len() && map.contains_key((#[trigger] list[i])@.components)
                && map[list[i]@.components]@.contains(k);
        lemma_listed(list, list[i]@.components);
        assert(keys.contains(list[i]@.components));
    }
}

/// Waiting for the work on files on their own is over when none of them is being
/// worked on, and not before.
pub proof fn work_on_files(analysis: AnalysisStorage, queue: AnalysisQueue, paths: Vec<CanonPath>)
    ensures
        is_over(
            analysis,
            queue,
            AnalysisProgressKind::Isolated,
            AnalysisWaitKind::Work,
            AnalysisCoverageSpec::Paths(paths),
        ) <==> forall|i: int|
            0 <= i < paths@.len() ==> !queue.isolated_jobs@.contains(
                (#[trigger] paths@[i])@.components,
            ),
{
    let set = keys_of(paths@).to_set();
    let none = Set::<PathKey>::empty();
    assert(set_under_all(analysis.all_dependencies@, none) =~= none);
    assert(set.union(none) =~= set);
    assert forall|k: PathKey| set.contains(k) <==> exists|i: int|
        0 <= i < paths@.len() && (#[trigger] paths@[i])@.components == k by {
        lemma_listed(paths@, k);
    }
    assert forall|i: int| 0 <= i < paths@.len() implies set.contains(
        (#[trigger] paths@[i])@.components,
    ) by {}
}

/// Waiting for the work on devices is over when none of them is being worked on,
/// neither as a device nor as a file on its own, nor is anything that one of them
/// imports; and not before.
pub proof fn work_on_devices(
    analysis: AnalysisStorage,
    queue: AnalysisQueue,
    paths: Vec<CanonPath>,
)
    ensures
        is_over(
            analysis,
            queue,
            AnalysisProgressKind::Device,
            AnalysisWaitKind::Work,
            AnalysisCoverageSpec::Paths(paths),
        ) <==> {
            &&& forall|i: int|
                0 <= i < paths@.len() ==> !queue.isolated_jobs@.contains(
                    (#[trigger] paths@[i])@.components,
                ) && !queue.device_jobs@.contains(paths@[i]@.components)
            &&& forall|i: int, d: PathKey|
                0 <= i < paths@.len() && analysis.all_dependencies@.contains_key(
                    (#[trigger] paths@[i])@.components,
                ) && analysis.all_dependencies@[paths@[i]@.components]@.contains(d)
                    ==> !#[trigger] queue.isolated_jobs@.contains(d)
        },
{
    let set = keys_of(paths@).to_set();
    let more = set_under_all(analysis.all_dependencies@, set);
    assert forall|k: PathKey| set.contains(k) <==> exists|i: int|
        0 <= i < paths@.len() && (#[trigger] paths@[i])@.components == k by {
        lemma_listed(paths@, k);
    }
    assert forall|k: PathKey| more.contains(k) <==> exists|i: int|
        0 <= i < paths@.len() && analysis.all_dependencies@.contains_key(
            (#[trigger] paths@[i])@.components,
        ) && analysis.all_dependencies@[paths@[i]@.components]@.contains(k) by {
        lemma_under_listed(analysis.all_dependencies@, paths@, k);
    }
    assert forall|i: int| 0 <= i < paths@.len() implies set.contains(
        (#[trigger] paths@[i])@.components,
    ) by {}
}

/// Waiting for the work on the devices that files set off is over when no file on
/// its own is being worked on, and none of these devices; and not before.
pub proof fn work_on_dependants(
    analysis: AnalysisStorage,
    queue: AnalysisQueue,
    paths: Vec<CanonPath>,
)
    ensures
        is_over(
            analysis,
            queue,
            AnalysisProgressKind::DeviceDependencies,
            AnalysisWaitKind::Work,
            AnalysisCoverageSpec::Paths(paths),
        ) <==> {
            &&& forall|k: PathKey| !#[trigger] queue.isolated_jobs@.contains(k)
            &&& forall|i: int, d: PathKey|
                0 <= i < paths@.len() && analysis.device_triggers@.contains_key(
                    (#[trigger] paths@[i])@.components,
                ) && analysis.device_triggers@[paths@[i]@.components]@.contains(d)
                    ==> !#[trigger] queue.device_jobs@.contains(d)
        },
{
    let set = keys_of(paths@).to_set();
    let devices = set_under_all(analysis.device_triggers@, set);
    assert forall|k: PathKey| devices.contains(k) <==> exists|i: int|
        0 <= i < paths@.len() && analysis.device_triggers@.contains_key(
            (#[trigger] paths@[i])@.components,
        ) && analysis.device_triggers@[paths@[i]@.components]@.contains(k) by {
        lemma_under_listed(analysis.device_triggers@, paths@, k);
    }
    if forall|k: PathKey| !#[trigger] queue.isolated_jobs@.contains(k) {
        assert(queue.isolated_jobs@ =~= Set::<PathKey>::empty());
    }
}

/// Waiting for files to exist is over when each has been analysed on its own.
pub proof fn existence_of_files(
    analysis: AnalysisStorage,
    queue: AnalysisQueue,
    paths: Vec<CanonPath>,
)
    ensures
        is_over(
            analysis,
            queue,
            AnalysisProgressKind::Isolated,
            AnalysisWaitKind::Existence,
            AnalysisCoverageSpec::Paths(paths),
        ) <==> forall|i: int|
            0 <= i < paths@.len() ==> analysis.isolated_analysis@.contains_key(
                (#[trigger] paths@[i])@.components,
            ),
{
    let set = keys_of(paths@).to_set();
    let none = Set::<PathKey>::empty();
    assert(set_under_all(analysis.all_dependencies@, none) =~= none);
    assert(set.union(none) =~= set);
    assert forall|k: PathKey| set.contains(k) <==> exists|i: int|
        0 <= i < paths@.len() && (#[trigger] paths@[i])@.components == k by {
        lemma_listed(paths@, k);
    }
    assert forall|i: int| 0 <= i < paths@.len() implies set.contains(
        (#[trigger] paths@[i])@.components,
    ) by {}
}

/// Waiting for devices to exist is over when each has been analysed, as a device
/// and on its own, and so has all that it imports on its own.
pub proof fn existence_of_devices(
    analysis: AnalysisStorage,
    queue: AnalysisQueue,
    paths: Vec<CanonPath>,
)
    ensures
        is_over(
            analysis,
            queue,
            AnalysisProgressKind::Device,
            AnalysisWaitKind::Existence,
            AnalysisCoverageSpec::Paths(paths),
        ) <==> {
            &&& forall|i: int|
                0 <= i < paths@.len() ==> analysis.isolated_analysis@.contains_key(
                    (#[trigger] paths@[i])@.components,
                ) && analysis.device_analysis@.contains(paths@[i]@.components)
            &&& forall|i: int, d: PathKey|
                0 <= i < paths@.len() && analysis.all_dependencies@.contains_key(
                    (#[trigger] paths@[i])@.components,
                ) && analysis.all_dependencies@[paths@[i]@.components]@.contains(d)
                    ==> #[trigger] analysis.isolated_analysis@.contains_key(d)
        },
{
    let set = keys_of(paths@).to_set();
    let more = set_under_all(analysis.all_dependencies@, set);
    assert forall|k: PathKey| set.contains(k) <==> exists|i: int|
        0 <= i < paths@.len() && (#[trigger] paths@[i])@.components == k by {
        lemma_listed(paths@, k);
    }
    assert forall|k: PathKey| more.contains(k) <==> exists|i: int|
        0 <= i < paths@.len() && analysis.all_dependencies@.contains_key(
            (#[trigger] paths@[i])@.components,
        ) && analysis.all_dependencies@[paths@[i]@.components]@.contains(k) by {
        lemma_under_listed(analysis.all_dependencies@, paths@, k);
    }
    assert forall|i: int| 0 <= i < paths@.len() implies set.contains(
        (#[trigger] paths@[i])@.components,
    ) by {}
    assert forall|k: PathKey|
        #[trigger] analysis.isolated_analysis@.contains_key(k)
            <==> analysis.isolated_analysis@.dom().contains(k) by {}
}

/// Waiting for the devices that files set off to exist is over when each of the
/// files has been analysed on its own, each of these devices as a device, and all
/// that one of these devices imports on its own.
pub proof fn existence_of_dependants(
    analysis: AnalysisStorage,
    queue: AnalysisQueue,
    paths: Vec<CanonPath>,
)
    ensures
        is_over(
            analysis,
            queue,
            AnalysisProgressKind::DeviceDependencies,
            AnalysisWaitKind::Existence,
            AnalysisCoverageSpec::Paths(paths),
        ) <==> {
            &&& forall|i: int|
                0 <= i < paths@.len() ==> analysis.isolated_analysis@.contains_key(
                    (#[trigger] paths@[i])@.components,
                )
            &&& forall|i: int, d: PathKey|
                0 <= i < paths@.len() && analysis.device_triggers@.contains_key(
                    (#[trigger] paths@[i])@.components,
                ) && analysis.device_triggers@[paths@[i]@.components]@.contains(d)
                    ==> #[trigger] analysis.device_analysis@.contains(d)
            &&& forall|i: int, d: PathKey, f: PathKey|
                0 <= i < paths@.len() && analysis.device_triggers@.contains_key(
                    (#[trigger] paths@[i])@.components,
                ) && analysis.device_triggers@[paths@[i]@.components]@.contains(d)
                    && analysis.all_dependencies@.contains_key(d)
                    && #[trigger] analysis.all_dependencies@[d]@.contains(f)
                    ==> analysis.isolated_analysis@.contains_key(f)
        },
{
    let set = keys_of(paths@).to_set();
    let devices = set_under_all(analysis.device_triggers@, set);
    let more = set_under_all(analysis.all_dependencies@, devices);
    assert forall|k: PathKey| set.contains(k) <==> exists|i: int|
        0 <= i < paths@.len() && (#[trigger] paths@[i])@.components == k by {
        lemma_listed(paths@, k);
    }
    assert forall|k: PathKey| devices.contains(k) <==> exists|i: int|
        0 <= i < paths@.len() && analysis.device_triggers@.contains_key(
            (#[trigger] paths@[i])@.components,
        ) && analysis.device_triggers@[paths@[i]@.components]@.contains(k) by {
        lemma_under_listed(analysis.device_triggers@, paths@, k);
    }
    assert forall|i: int| 0 <= i < paths@.len() implies set.contains(
        (#[trigger] paths@[i])@.components,
    ) by {}
    let kind = AnalysisProgressKind::DeviceDependencies;
    let over = is_over(
        analysis,
        queue,
        kind,
        AnalysisWaitKind::Existence,
        AnalysisCoverageSpec::Paths(paths),
    );
    if over {
        assert forall|i: int, d: PathKey, f: PathKey|
            0 <= i < paths@.len() && analysis.device_triggers@.contains_key(
                (#[trigger] paths@[i])@.components,
            ) && analysis.device_triggers@[paths@[i]@.components]@.contains(d)
                && analysis.all_dependencies@.contains_key(d)
                && #[trigger] analysis.all_dependencies@[d]@.contains(f) implies
            analysis.isolated_analysis@.contains_key(f) by {
            assert(devices.contains(d));
            assert(set_under(analysis.all_dependencies@, d).contains(f));
            assert(more.contains(f));
            assert(files_awaited(analysis, kind, AnalysisWaitKind::Existence, set).contains(f));
        }
        assert forall|i: int| 0 <= i < paths@.len() implies
            analysis.isolated_analysis@.contains_key((#[trigger] paths@[i])@.components) by {
            assert(files_awaited(analysis, kind, AnalysisWaitKind::Existence, set).contains(
                paths@[i]@.components,
            ));
        }
    } else {
        if (forall|i: int|
            0 <= i < paths@.len() ==> analysis.isolated_analysis@.contains_key(
                (#[trigger] paths@[i])@.components,
            )) && (forall|i: int, d: PathKey, f: PathKey|
            0 <= i < paths@.len() && analysis.device_triggers@.contains_key(
                (#[trigger] paths@[i])@.components,
            ) && analysis.device_triggers@[paths@[i]@.components]@.contains(d)
                && analysis.all_dependencies@.contains_key(d)
                && #[trigger] analysis.all_dependencies@[d]@.contains(f)
                ==> analysis.isolated_analysis@.contains_key(f)) {
            assert forall|f: PathKey| files_awaited(
                analysis,
                kind,
                AnalysisWaitKind::Existence,
                set,
            ).contains(f) implies analysis.isolated_analysis@.dom().contains(f) by {
                if more.contains(f) {
                    let d = choose|d: PathKey| #[trigger]
                        devices.contains(d) && set_under(
                            analysis.all_dependencies@,
                            d,
                        ).contains(f);
                    assert(analysis.all_dependencies@[d]@.contains(f));
                }
            }
        }
    }
}

/// Waiting for all work is over when no file on its own is being worked on and, if
/// devices are waited for, no device; waiting for anything to exist when some file
/// has been analysed on its own and, if devices are waited for, some device.
pub proof fn waiting_for_all(
    analysis: AnalysisStorage,
    queue: AnalysisQueue,
    kind: AnalysisProgressKind,
)
    ensures
        is_over(analysis, queue, kind, AnalysisWaitKind::Work, AnalysisCoverageSpec::All) <==> (
        forall|k: PathKey| !#[trigger] queue.isolated_jobs@.contains(k)) && (kind
            == AnalysisProgressKind::Isolated || forall|k: PathKey|
            !#[trigger] queue.device_jobs@.contains(k)),
        is_over(analysis, queue, kind, AnalysisWaitKind::Existence, AnalysisCoverageSpec::All)
            <==> (exists|k: PathKey| #[trigger] analysis.isolated_analysis@.contains_key(k)) && (
        kind == AnalysisProgressKind::Isolated || exists|k: PathKey| #[trigger]
            analysis.device_analysis@.contains(k)),
{
    if forall|k: PathKey| !#[trigger] queue.isolated_jobs@.contains(k) {
        assert(queue.isolated_jobs@ =~= Set::<PathKey>::empty());
    }
    if forall|k: PathKey| !#[trigger] queue.device_jobs@.contains(k) {
        assert(queue.device_jobs@ =~= Set::<PathKey>::empty());
    }
    if forall|k: PathKey| !#[trigger] analysis.isolated_analysis@.contains_key(k) {
        assert(analysis.isolated_analysis@ =~= Map::<PathKey, IsolatedInfo>::empty());
    }
    if forall|k: PathKey| !#[trigger] analysis.device_analysis@.contains(k) {
        assert(analysis.device_analysis@ =~= Set::<PathKey>::empty());
    }
}

/// What is waited for of one path exists if and only if it has been analysed on its
/// own and, if devices are waited for, as a device; if the devices that it sets off
/// are, at least one of them has.
pub proof fn what_is_waited_for_of_a_path(
    analysis: AnalysisStorage,
    kind: AnalysisProgressKind,
    p: PathKey,
)
    ensures
        path_achieved(analysis, kind, p) ==> analysis.isolated_analysis@.contains_key(p),
        path_achieved(analysis, AnalysisProgressKind::Isolated, p)
            <==> analysis.isolated_analysis@.contains_key(p),
        path_achieved(analysis, AnalysisProgressKind::Device, p)
            <==> analysis.isolated_analysis@.contains_key(p) && analysis.device_analysis@.contains(
            p,
        ),
        path_achieved(analysis, AnalysisProgressKind::DeviceDependencies, p)
            <==> analysis.isolated_analysis@.contains_key(p)
            && analysis.device_triggers@.contains_key(p) && exists|d: PathKey|
            #[trigger] analysis.device_triggers@[p]@.contains(d)
                && analysis.device_analysis@.contains(d),
{
    if analysis.device_triggers@.contains_key(p) {
        assert(analysis.triggers_of(p) == analysis.device_triggers@[p]@);
    }
}

/// A wait that is over has come to what was waited for if and only if that exists
/// of each path. For all files one analysis of the kind is enough. What was waited
/// for, work or existence, plays no part.
pub proof fn what_a_wait_comes_to(
    analysis: AnalysisStorage,
    kind: AnalysisProgressKind,
    paths: Vec<CanonPath>,
)
    ensures
        outcome(analysis, kind, AnalysisCoverageSpec::Paths(paths))
            == AnalysisStateResponse::Achieved <==> forall|i: int|
            0 <= i < paths@.len() ==> path_achieved(
                analysis,
                kind,
                (#[trigger] paths@[i])@.components,
            ),
        outcome(analysis, kind, AnalysisCoverageSpec::All) == AnalysisStateResponse::Achieved
            <==> (if kind == AnalysisProgressKind::Isolated {
            exists|k: PathKey| #[trigger] analysis.isolated_analysis@.contains_key(k)
        } else {
            exists|k: PathKey| #[trigger] analysis.device_analysis@.contains(k)
        }),
        outcome(analysis, kind, AnalysisCoverageSpec::Paths(paths))
            == AnalysisStateResponse::Achieved || outcome(
            analysis,
            kind,
            AnalysisCoverageSpec::Paths(paths),
        ) == AnalysisStateResponse::Satisfied,
        outcome(analysis, kind, AnalysisCoverageSpec::All) == AnalysisStateResponse::Achieved
            || outcome(analysis, kind, AnalysisCoverageSpec::All)
            == AnalysisStateResponse::Satisfied,
{
    let coverage = AnalysisCoverageSpec::Paths(paths);
    if achieved(analysis, kind, coverage) {
        assert forall|i: int| 0 <= i < paths@.len() implies path_achieved(
            analysis,
            kind,
            (#[trigger] paths@[i])@.components,
        ) by {
            assert(coverage->Paths_0@[i] == paths@[i]);
            assert(path_achieved(analysis, kind, coverage->Paths_0@[i].key()));
        }
    } else {
        let i = choose|i: int|
            0 <= i < paths@.len() && !path_achieved(analysis, kind, (#[trigger] paths@[i]).key());
        assert(!path_achieved(analysis, kind, paths@[i]@.components));
    }
    if forall|k: PathKey| !#[trigger] analysis.isolated_analysis@.contains_key(k) {
        assert(analysis.isolated_analysis@ =~= Map::<PathKey, IsolatedInfo>::empty());
    }
    if forall|k: PathKey| !#[trigger] analysis.device_analysis@.contains(k) {
        assert(analysis.device_analysis@ =~= Set::<PathKey>::empty());
    }
}

/// Looking at waits answers exactly those that are over, each with what it came to,
/// to whoever waits.
pub proof fn waits_that_are_over_are_answered(
    waits: Seq<AnalysisStateWaitDefinition>,
    ctx: InitActionContext,
    i: int,
)
    requires
        0 <= i < waits.len(),
        is_over(
            ctx.analysis,
            ctx.analysis_queue,
            waits[i].progress_kind,
            waits[i].wait_kind,
            waits[i].coverage,
        ),
    ensures
        answers(waits, ctx, waits.len() as int).contains(
            EffectView::AnswerWait {
                waiter: waits[i].response,
                response: outcome(ctx.analysis, waits[i].progress_kind, waits[i].coverage),
            },
        ),
{
    lemma_answered(waits, ctx, waits.len() as int, i);
}

/// A wait among the first that is over is answered.
proof fn lemma_answered(
    waits: Seq<AnalysisStateWaitDefinition>,
    ctx: InitActionContext,
    n: int,
    i: int,
)
    requires
        0 <= i < n <= waits.len(),
        waits[i].over(ctx),
    ensures
        answers(waits, ctx, n).contains(waits[i].answer(ctx)),
    decreases n,
{
    let now = answers(waits, ctx, n);
    let before = answers(waits, ctx, n - 1);
    if i == n - 1 {
        assert(now[before.len() as int] == waits[i].answer(ctx));
    } else {
        lemma_answered(waits, ctx, n - 1, i);
        let j = choose|j: int| 0 <= j < before.len() && before[j] == waits[i].answer(ctx);
        assert(now[j] == waits[i].answer(ctx));
    }
}

/// And no wait is answered that is not over.
pub proof fn only_waits_that_are_over_are_answered(
    waits: Seq<AnalysisStateWaitDefinition>,
    ctx: InitActionContext,
    n: int,
    k: int,
) -> (i: int)
    requires
        0 <= n <= waits.len(),
        0 <= k < answers(waits, ctx, n).len(),
    ensures
        0 <= i < n,
        is_over(
            ctx.analysis,
            ctx.analysis_queue,
            waits[i].progress_kind,
            waits[i].wait_kind,
            waits[i].coverage,
        ),
        answers(waits, ctx, n)[k] == (EffectView::AnswerWait {
            waiter: waits[i].response,
            response: outcome(ctx.analysis, waits[i].progress_kind, waits[i].coverage),
        }),
        answers(waits, ctx, n).len() <= n,
    decreases n,
{
    let before = answers(waits, ctx, n - 1);
    if k < before.len() {
        let i = only_waits_that_are_over_are_answered(waits, ctx, n - 1, k);
        i
    } else {
        if before.len() > 0 {
            let _ = only_waits_that_are_over_are_answered(waits, ctx, n - 1, 0);
        }
        n - 1
    }
}

} // verus!
