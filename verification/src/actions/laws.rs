//! What holds of every action.
use crate::actions::analysis::{set_under_all, AnalysisQueue, AnalysisStorage, PathKey};
use crate::actions::compile_info::{
    has_command, includes, includes_read, is_among, CompileCommand, ConfigFiles,
};
use crate::actions::config_change::{
    config_change_effects, lint_config_changed, lint_reissue, LintReissueRequirement,
};
use crate::actions::context::{
    AnalysisCoverageSpec, AnalysisProgressKind, AnalysisStateWaitDefinition, AnalysisWaitKind,
    CompilationInfoStorage, ContextKey, InitActionContext, Workspace,
};
use crate::actions::contexts::{
    checked_active, contexts_chosen, device_info, in_active_context, infos_for, is_core_file,
    wants_context,
};
use crate::actions::jobs::{notifier_begun, progress_begun};
use crate::actions::notifications::{
    active_after_choice, closed, devices_named, folders_taken, opened, ChangeActiveContextsParams,
    FileRef,
};
use crate::actions::report::{errors_in, found_in, from_source, GatheredErrors};
use crate::actions::waits::{
    answers, devices_awaited, files_awaited, is_over, outcome, path_achieved,
};
use crate::collections::{keys_of, Keyed};
use crate::config::{same_place, ConfigView, DeviceContextMode};
use crate::effects::{AnalysisStateResponse, EffectView};
use crate::errors::SourcedView;
use crate::lint::config::{default_lint_cfg, with_one_indentation, LintCfg};
use vstd::prelude::*;

verus! {

/// For all files, waiting for devices and waiting for the devices that the
/// files set off is the same.
pub proof fn waiting_for_all_devices_is_one_thing(
    analysis: AnalysisStorage,
    queue: AnalysisQueue,
    wait_kind: AnalysisWaitKind,
)
    ensures
        is_over(
            analysis,
            queue,
            AnalysisProgressKind::Device,
            wait_kind,
            AnalysisCoverageSpec::All,
        ) == is_over(
            analysis,
            queue,
            AnalysisProgressKind::DeviceDependencies,
            wait_kind,
            AnalysisCoverageSpec::All,
        ),
        outcome(analysis, AnalysisProgressKind::Device, AnalysisCoverageSpec::All) == outcome(
            analysis,
            AnalysisProgressKind::DeviceDependencies,
            AnalysisCoverageSpec::All,
        ),
{
}

/// When nothing is under way, every wait for work is over.
pub proof fn idleness_ends_waits_for_work(
    analysis: AnalysisStorage,
    queue: AnalysisQueue,
    kind: AnalysisProgressKind,
    coverage: AnalysisCoverageSpec,
)
    requires
        queue.is_idle(),
    ensures
        is_over(analysis, queue, kind, AnalysisWaitKind::Work, coverage),
{
}

/// Waiting for devices includes waiting for their files on their own: when the
/// first is over, so is the second.
pub proof fn devices_include_their_files(
    analysis: AnalysisStorage,
    queue: AnalysisQueue,
    kind: AnalysisProgressKind,
    wait_kind: AnalysisWaitKind,
    coverage: AnalysisCoverageSpec,
)
    requires
        is_over(analysis, queue, kind, wait_kind, coverage),
    ensures
        is_over(analysis, queue, AnalysisProgressKind::Isolated, wait_kind, coverage),
{
    if coverage is Paths {
        let paths = keys_of(coverage->Paths_0@).to_set();
        let none = Set::<PathKey>::empty();
        assert(set_under_all(analysis.all_dependencies@, none) =~= none);
        let own = files_awaited(analysis, AnalysisProgressKind::Isolated, wait_kind, paths);
        assert(own =~= paths);
        assert(paths.subset_of(files_awaited(analysis, kind, wait_kind, paths)));
    }
}

/// A wait for the work on the devices that files set off is over only when no
/// work is left on any file on its own.
pub proof fn dependants_wait_for_all_files(
    analysis: AnalysisStorage,
    queue: AnalysisQueue,
    coverage: AnalysisCoverageSpec,
)
    requires
        is_over(
            analysis,
            queue,
            AnalysisProgressKind::DeviceDependencies,
            AnalysisWaitKind::Work,
            coverage,
        ),
    ensures
        queue.isolated_jobs@ == Set::<PathKey>::empty(),
{
}

/// A wait for the existence of analyses that is over has come to what was
/// waited for, unless it is one for the devices that certain files set off: of
/// those there may be none.
pub proof fn existing_is_achieved(
    analysis: AnalysisStorage,
    queue: AnalysisQueue,
    kind: AnalysisProgressKind,
    coverage: AnalysisCoverageSpec,
)
    requires
        is_over(analysis, queue, kind, AnalysisWaitKind::Existence, coverage),
        kind == AnalysisProgressKind::DeviceDependencies ==> coverage is All,
    ensures
        outcome(analysis, kind, coverage) == AnalysisStateResponse::Achieved,
{
    if coverage is Paths {
        let list = coverage->Paths_0@;
        let paths = keys_of(list).to_set();
        assert forall|i: int| 0 <= i < list.len() implies path_achieved(
            analysis,
            kind,
            (#[trigger] list[i]).key(),
        ) by {
            assert(keys_of(list)[i] == list[i].key());
            assert(paths.contains(list[i].key()));
            assert(files_awaited(analysis, kind, AnalysisWaitKind::Existence, paths).contains(
                list[i].key(),
            ));
            if kind == AnalysisProgressKind::Device {
                assert(devices_awaited(analysis, kind, paths).contains(list[i].key()));
            }
        }
    }
}

/// Once waits have been looked at, looking again answers nothing until an
/// analysis is done or started.
pub proof fn waits_are_answered_once(before: InitActionContext, after: InitActionContext)
    requires
        after == (InitActionContext { active_waits: after.active_waits, ..before }),
        after.active_waits@ == before.active_waits@.filter(
            |w: AnalysisStateWaitDefinition| !w.over(before),
        ),
    ensures
        answers(after.active_waits@, after, after.active_waits@.len() as int) == Seq::<
            EffectView,
        >::empty(),
{
    let p = |w: AnalysisStateWaitDefinition| !w.over(before);
    let kept = after.active_waits@;
    assert forall|i: int| 0 <= i < kept.len() implies !(#[trigger] kept[i]).over(after) by {
        before.active_waits@.lemma_filter_pred(p, i);
    }
    lemma_nothing_over(kept, after, kept.len() as int);
}

/// Where no wait is over, none is answered.
proof fn lemma_nothing_over(
    waits: Seq<AnalysisStateWaitDefinition>,
    ctx: InitActionContext,
    n: int,
)
    requires
        0 <= n <= waits.len(),
        forall|i: int| 0 <= i < waits.len() ==> !(#[trigger] waits[i]).over(ctx),
    ensures
        answers(waits, ctx, n) == Seq::<EffectView>::empty(),
    decreases n,
{
    if n > 0 {
        lemma_nothing_over(waits, ctx, n - 1);
        assert(!waits[n - 1].over(ctx));
    }
}

/// A folder that was removed is gone, unless it was added again at once.
pub proof fn removed_folders_are_gone(
    before: InitActionContext,
    after: InitActionContext,
    added: Seq<Workspace>,
    removed: Seq<Workspace>,
    i: int,
)
    requires
        folders_taken(before, after, added, removed),
        0 <= i < after.workspace_roots@.len(),
        is_among(after.workspace_roots@[i], removed),
    ensures
        added.contains(after.workspace_roots@[i]),
{
    let p = |w: Workspace| !is_among(w, removed);
    let kept = before.workspace_roots@.filter(p);
    if i < kept.len() {
        before.workspace_roots@.lemma_filter_pred(p, i);
        assert(after.workspace_roots@[i] == kept[i]);
    } else {
        assert(after.workspace_roots@[i] == added[i - kept.len()]);
    }
}

/// Whether a device becomes an active context by itself is decided once: for
/// one that has been checked nothing changes.
pub proof fn contexts_are_decided_once(
    ctx: InitActionContext,
    active: Set<ContextKey>,
    checked: Set<ContextKey>,
    path: PathKey,
)
    ensures
        checked_active(ctx, active, checked.insert(ContextKey::Device(path)), path) == active,
{
}

/// No context becomes inactive because a device became known, and none but
/// that device becomes active.
pub proof fn checking_adds_only_the_device(
    ctx: InitActionContext,
    active: Set<ContextKey>,
    checked: Set<ContextKey>,
    path: PathKey,
    c: ContextKey,
)
    requires
        c != ContextKey::Device(path),
    ensures
        checked_active(ctx, active, checked, path).contains(c) == active.contains(c),
        active.subset_of(checked_active(ctx, active, checked, path)),
{
}

/// A device that depends on a file outside all active contexts is wanted where
/// any new file counts; one that depends on a file in an active context, core
/// files aside, is not wanted where only the first device counts.
pub proof fn modes_look_at_dependencies(
    analysis: AnalysisStorage,
    active: Set<ContextKey>,
    implicit_imports: Seq<Seq<char>>,
    path: PathKey,
    file: PathKey,
)
    requires
        analysis.dependencies_of(path).contains(file),
    ensures
        !in_active_context(analysis, active, file) ==> wants_context(
            DeviceContextMode::AnyNew,
            analysis,
            active,
            implicit_imports,
            path,
        ),
        in_active_context(analysis, active, file)
            && !is_core_file(implicit_imports, file) ==> !wants_context(
            DeviceContextMode::First,
            analysis,
            active,
            implicit_imports,
            path,
        ),
{
}

/// After contexts have been chosen for a file, the active ones among those for
/// the file are the chosen ones, and no other context has changed.
pub proof fn only_chosen_contexts_stay(
    analysis: AnalysisStorage,
    active: Set<ContextKey>,
    file: PathKey,
    chosen: Set<ContextKey>,
    device: PathKey,
)
    ensures
        analysis.triggers_of(file).contains(device) ==> contexts_chosen(
            analysis,
            active,
            file,
            chosen,
        ).contains(ContextKey::Device(device)) == chosen.contains(ContextKey::Device(device)),
        !analysis.triggers_of(file).contains(device) ==> contexts_chosen(
            analysis,
            active,
            file,
            chosen,
        ).contains(ContextKey::Device(device)) == active.contains(ContextKey::Device(device)),
{
}

/// Choosing the same contexts again changes nothing.
pub proof fn choosing_settles(
    analysis: AnalysisStorage,
    active: Set<ContextKey>,
    file: PathKey,
    chosen: Set<ContextKey>,
)
    ensures
        contexts_chosen(analysis, contexts_chosen(analysis, active, file, chosen), file, chosen)
            == contexts_chosen(analysis, active, file, chosen),
{
    let once = contexts_chosen(analysis, active, file, chosen);
    assert(contexts_chosen(analysis, once, file, chosen) =~= once);
}

/// A choice for all files makes the devices that it names the only active
/// contexts, whatever was active before.
pub proof fn choice_for_all_replaces(
    a: InitActionContext,
    b: InitActionContext,
    params: ChangeActiveContextsParams,
)
    requires
        params.uri is None,
    ensures
        active_after_choice(a, params) == devices_named(params.active_contexts@),
        active_after_choice(a, params) == active_after_choice(b, params),
{
}

/// What is known of the contexts of a file after they have been chosen says of
/// each device that an analysis of the file sets off that it is active if and
/// only if it was chosen.
pub proof fn choice_is_reported_back(
    analysis: AnalysisStorage,
    active: Set<ContextKey>,
    file: PathKey,
    chosen: Set<ContextKey>,
    info: (ContextKey, bool, bool),
)
    ensures
        infos_for(analysis, contexts_chosen(analysis, active, file, chosen), file).contains(info)
            <==> exists|device: PathKey|
            #[trigger] analysis.triggers_of(file).contains(device) && info == (
                ContextKey::Device(device),
                chosen.contains(ContextKey::Device(device)),
                analysis.device_analysis@.contains(device),
            ),
{
    let now = contexts_chosen(analysis, active, file, chosen);
    assert forall|device: PathKey| #[trigger]
        analysis.triggers_of(file).contains(device) implies device_info(analysis, now, device) == (
        ContextKey::Device(device),
        chosen.contains(ContextKey::Device(device)),
        analysis.device_analysis@.contains(device),
    ) by {}
}

/// Closing a file undoes opening it, unless it was open before.
pub proof fn closing_undoes_opening(
    before: InitActionContext,
    between: InitActionContext,
    after: InitActionContext,
    file: FileRef,
)
    requires
        opened(before, between, Some(file)),
        closed(between, after, Some(file)),
        !before.direct_opens@.contains(file.canon_path.key()),
    ensures
        after.direct_opens@ == before.direct_opens@,
        after.direct_opens.views() == before.direct_opens.views(),
{
    assert(after.direct_opens@ =~= before.direct_opens@);
    let k = file.canon_path.key();
    let opens = between.direct_opens;
    let n = before.direct_opens.views().len() as int;
    assert(opens.views() == before.direct_opens.views().push(file.canon_path@));
    assert(opens.views().len() == opens.members().len());
    assert(opens.keys()[n] == opens.members()[n].key());
    assert(opens.members()[n]@ == opens.views()[n]);
    assert(opens.keys()[n] == k);
    assert forall|i: int| 0 <= i < n implies #[trigger] opens.keys()[i] != k by {
        assert(opens.members()[i]@ == opens.views()[i]);
        assert(before.direct_opens.members()[i]@ == before.direct_opens.views()[i]);
        assert(before.direct_opens.keys()[i] == opens.keys()[i]);
        assert(before.direct_opens@.contains(before.direct_opens.keys()[i]));
    }
    assert(opens.keys().contains(k));
    assert(opens.keys().index_of(k) == n);
    assert(after.direct_opens.members() == opens.members().remove(n));
    assert forall|i: int| 0 <= i < n implies #[trigger] after.direct_opens.views()[i]
        == before.direct_opens.views()[i] by {
        assert(after.direct_opens.members()[i] == opens.members()[i]);
        assert(opens.members()[i]@ == opens.views()[i]);
    }
    assert(after.direct_opens.views() =~= before.direct_opens.views());
}

/// While a progress report goes on, none is begun.
pub proof fn progress_is_begun_once(notifier: Option<Seq<char>>, id: Seq<char>, other: Seq<char>)
    ensures
        notifier_begun(notifier, id) is Some,
        progress_begun(notifier_begun(notifier, id), other) == Seq::<EffectView>::empty(),
        notifier_begun(notifier_begun(notifier, id), other) == notifier_begun(notifier, id),
{
}

/// A configuration that stays as it is sets nothing off.
pub proof fn same_config_sets_nothing_off(
    ctx: InitActionContext,
    files: ConfigFiles,
    info: CompilationInfoStorage,
)
    ensures
        lint_reissue(ctx.config@, ctx.config@) == LintReissueRequirement::Nothing,
        config_change_effects(ctx, ctx.config@, files, info) == Seq::<EffectView>::empty(),
        lint_config_changed(ctx, ctx.config@, files.lint_cfg) == ctx.lint_config,
{
    assert(config_change_effects(ctx, ctx.config@, files, info) =~= Seq::<EffectView>::empty());
}

/// Whenever one of the settings changes that lint findings depend on, they are
/// at least reported anew.
pub proof fn lint_settings_are_heeded(old: ConfigView, new: ConfigView)
    requires
        old.linting_enabled != new.linting_enabled || old.suppress_imports != new.suppress_imports
            || old.lint_direct_only != new.lint_direct_only || !same_place(
            old.lint_cfg_path,
            new.lint_cfg_path,
        ),
    ensures
        lint_reissue(old, new).rank() >= LintReissueRequirement::ReReport.rank(),
{
}

/// With linting off no lint finding is reported, and where only open files
/// count none in a file that is not open.
pub proof fn hidden_lints_are_not_reported(
    ctx: InitActionContext,
    gathered: GatheredErrors,
    file: PathKey,
    e: SourcedView,
)
    requires
        errors_in(ctx, gathered, file).contains(e),
        !ctx.config.linting_enabled || (ctx.config.lint_direct_only
            && gathered.lint@.contains_key(file) && !ctx.direct_opens@.contains(
            gathered.lint@[file].canon_path.key(),
        )),
    ensures
        e.source == "dml"@,
{
    let all = errors_in(ctx, gathered, file);
    let i = choose|i: int| 0 <= i < all.len() && all[i] == e;
    let first = found_in(gathered.isolated@, file, "dml"@);
    if i < first.len() {
        assert(first[i] == e);
    } else {
        let second = found_in(gathered.device@, file, "dml"@);
        assert(second[i - first.len()] == e);
    }
}

/// Every error that is reported names its source: `dml`, or `dml-lint` where it
/// is a lint finding.
pub proof fn every_error_names_its_source(
    ctx: InitActionContext,
    gathered: GatheredErrors,
    file: PathKey,
    e: SourcedView,
)
    requires
        errors_in(ctx, gathered, file).contains(e),
    ensures
        e.source == "dml"@ || (e.source == "dml-lint"@ && gathered.lint@.contains_key(file)),
{
    let all = errors_in(ctx, gathered, file);
    let i = choose|i: int| 0 <= i < all.len() && all[i] == e;
    let first = found_in(gathered.isolated@, file, "dml"@);
    let second = found_in(gathered.device@, file, "dml"@);
    if i < first.len() {
        assert(first[i] == e);
    } else if i < first.len() + second.len() {
        assert(second[i - first.len()] == e);
    } else {
        let third = from_source(gathered.lint@[file].errors@, "dml-lint"@);
        assert(third[i - first.len() - second.len()] == e);
    }
}

/// What the compile information says does not depend on the order of its
/// entries, nor on repetitions.
pub proof fn entry_order_is_irrelevant(a: Seq<CompileCommand>, b: Seq<CompileCommand>)
    requires
        a.to_set() == b.to_set(),
    ensures
        includes_read(a) == includes_read(b),
{
    assert forall|device: PathKey| has_command(a, device) <==> has_command(b, device) by {
        if has_command(a, device) {
            lemma_command_moves(a, b, device);
        }
        if has_command(b, device) {
            lemma_command_moves(b, a, device);
        }
    }
    assert forall|device: PathKey, path: PathKey|
        includes(a, device, path) <==> includes(b, device, path) by {
        if includes(a, device, path) {
            lemma_include_moves(a, b, device, path);
        }
        if includes(b, device, path) {
            lemma_include_moves(b, a, device, path);
        }
    }
    assert forall|device: PathKey| #[trigger] includes_read(a).contains_key(device) implies
        includes_read(a)[device] =~= includes_read(b)[device] by {}
    assert(includes_read(a) =~= includes_read(b));
}

/// An entry for a device is one in any list that holds the same entries.
proof fn lemma_command_moves(a: Seq<CompileCommand>, b: Seq<CompileCommand>, device: PathKey)
    requires
        a.to_set() == b.to_set(),
        has_command(a, device),
    ensures
        has_command(b, device),
{
    let i = choose|i: int| 0 <= i < a.len() && (#[trigger] a[i]).is_for(device);
    assert(a.to_set().contains(a[i]));
    assert(b.contains(a[i]));
}

/// An include is one in any list that holds the same entries.
proof fn lemma_include_moves(
    a: Seq<CompileCommand>,
    b: Seq<CompileCommand>,
    device: PathKey,
    path: PathKey,
)
    requires
        a.to_set() == b.to_set(),
        includes(a, device, path),
    ensures
        includes(b, device, path),
{
    let i = choose|i: int|
        0 <= i < a.len() && (#[trigger] a[i]).is_for(device) && keys_of(
            a[i].includes@,
        ).contains(path);
    assert(a.to_set().contains(a[i]));
    assert(b.contains(a[i]));
}

/// The usual lint configuration already has all rules agree on the size of a
/// level, and so has any configuration once they do.
pub proof fn indentation_settles(cfg: LintCfg)
    ensures
        with_one_indentation(default_lint_cfg()) == default_lint_cfg(),
        with_one_indentation(with_one_indentation(cfg)) == with_one_indentation(cfg),
{
}

} // verus!
