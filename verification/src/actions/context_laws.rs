//! What holds of device contexts, told by what is stored of files and devices.
use crate::actions::analysis::{AnalysisStorage, PathKey};
use crate::actions::context::{ContextKey, ContextView, InitActionContext};
use crate::actions::contexts::{
    active_after_check, all_info_marks, all_infos, contexts_chosen, contexts_chosen_marks,
    in_active_context, info_marks, infos_for, is_core_file, stays, views_after_check, wants_context,
};
use crate::actions::notifications::{
    active_after_choice, active_marks_after_choice, choice_taken, device_marks, devices_named,
    ChangeActiveContextsParams, ContextDefinitionKindParam,
};
use crate::collections::add_marks;
use crate::config::DeviceContextMode;
use crate::path::PathView;
use crate::text::texts;
use vstd::prelude::*;

verus! {

/// Where any new file counts, a device is not wanted if each file that it depends
/// on sets off a device that is an active context, whatever has been analysed;
/// and it is wanted if one of these files sets off none.
pub proof fn covered_files_bring_no_context(
    analysis: AnalysisStorage,
    active: Set<ContextKey>,
    implicit_imports: Seq<Seq<char>>,
    path: PathKey,
)
    ensures
        wants_context(DeviceContextMode::AnyNew, analysis, active, implicit_imports, path)
            <==> analysis.device_dependencies@.contains_key(path) && exists|f: PathKey|
            #[trigger] analysis.device_dependencies@[path]@.contains(f) && forall|d: PathKey|
                analysis.device_triggers@.contains_key(f)
                    && analysis.device_triggers@[f]@.contains(d) ==> !(#[trigger] active.contains(ContextKey::Device(d))),
{
    let mode = DeviceContextMode::AnyNew;
    if wants_context(mode, analysis, active, implicit_imports, path) {
        let f = choose|f: PathKey| #[trigger]
            analysis.dependencies_of(path).contains(f) && !in_active_context(analysis, active, f);
        assert(analysis.device_dependencies@[path]@.contains(f));
        assert forall|d: PathKey|
            analysis.device_triggers@.contains_key(f) && analysis.device_triggers@[f]@.contains(
                d,
            ) implies !(#[trigger] active.contains(ContextKey::Device(d))) by {
            assert(analysis.triggers_of(f).contains(d));
        }
    }
    if analysis.device_dependencies@.contains_key(path) && exists|f: PathKey|
        #[trigger] analysis.device_dependencies@[path]@.contains(f) && forall|d: PathKey|
            analysis.device_triggers@.contains_key(f) && analysis.device_triggers@[f]@.contains(d)
                ==> !(#[trigger] active.contains(ContextKey::Device(d))) {
        let f = choose|f: PathKey|
            #[trigger] analysis.device_dependencies@[path]@.contains(f) && forall|d: PathKey|
                analysis.device_triggers@.contains_key(f)
                    && analysis.device_triggers@[f]@.contains(d) ==> !(#[trigger] active.contains(ContextKey::Device(d)));
        assert(analysis.dependencies_of(path).contains(f));
        if in_active_context(analysis, active, f) {
            let d = choose|d: PathKey| #[trigger]
                analysis.triggers_of(f).contains(d) && active.contains(ContextKey::Device(d));
            assert(active.contains(ContextKey::Device(d)));
        }
    }
}

/// Where only the first device counts, a device is not wanted if a file that it
/// depends on sets off a device that is an active context and does not go by
/// the name of a core file; and it is wanted if there is no such file.
pub proof fn first_device_shares_no_file(
    analysis: AnalysisStorage,
    active: Set<ContextKey>,
    implicit_imports: Seq<Seq<char>>,
    path: PathKey,
)
    requires
        forall|i: int|
            0 <= i < implicit_imports.len() ==> {
                let name = #[trigger] implicit_imports[i];
                name != "/"@ && name != "."@ && name != ".."@
            },
    ensures
        wants_context(DeviceContextMode::First, analysis, active, implicit_imports, path) <==> !(
        analysis.device_dependencies@.contains_key(path) && exists|f: PathKey, d: PathKey|
            {
                &&& #[trigger] analysis.device_dependencies@[path]@.contains(f)
                &&& f.len() == 0 || !implicit_imports.contains(f.last())
                &&& analysis.device_triggers@.contains_key(f)
                &&& analysis.device_triggers@[f]@.contains(d)
                &&& #[trigger] active.contains(ContextKey::Device(d))
            }),
{
    let mode = DeviceContextMode::First;
    assert forall|f: PathKey| is_core_file(implicit_imports, f) <==> f.len() > 0
        && implicit_imports.contains(f.last()) by {
        if f.len() > 0 && implicit_imports.contains(f.last()) {
            let i = choose|i: int|
                0 <= i < implicit_imports.len() && implicit_imports[i] == f.last();
            assert(implicit_imports[i] != "/"@);
        }
    }
    if !wants_context(mode, analysis, active, implicit_imports, path) {
        let f = choose|f: PathKey| #[trigger]
            analysis.dependencies_of(path).contains(f) && !is_core_file(implicit_imports, f)
                && in_active_context(analysis, active, f);
        let d = choose|d: PathKey| #[trigger]
            analysis.triggers_of(f).contains(d) && active.contains(ContextKey::Device(d));
        assert(analysis.device_dependencies@[path]@.contains(f));
        assert(active.contains(ContextKey::Device(d)));
    }
    if analysis.device_dependencies@.contains_key(path) && exists|f: PathKey, d: PathKey|
        {
            &&& #[trigger] analysis.device_dependencies@[path]@.contains(f)
            &&& f.len() == 0 || !implicit_imports.contains(f.last())
            &&& analysis.device_triggers@.contains_key(f)
            &&& analysis.device_triggers@[f]@.contains(d)
            &&& #[trigger] active.contains(ContextKey::Device(d))
        } {
        let (f, d) = choose|f: PathKey, d: PathKey|
            {
                &&& #[trigger] analysis.device_dependencies@[path]@.contains(f)
                &&& f.len() == 0 || !implicit_imports.contains(f.last())
                &&& analysis.device_triggers@.contains_key(f)
                &&& analysis.device_triggers@[f]@.contains(d)
                &&& #[trigger] active.contains(ContextKey::Device(d))
            };
        assert(analysis.dependencies_of(path).contains(f));
        assert(analysis.triggers_of(f).contains(d));
        assert(in_active_context(analysis, active, f));
    }
}

/// Where devices of one module count, a device is wanted if and only if a device
/// with known dependencies lies in a directory at or above it, or the other way
/// round.
pub proof fn devices_of_one_module(
    analysis: AnalysisStorage,
    active: Set<ContextKey>,
    implicit_imports: Seq<Seq<char>>,
    path: PathKey,
)
    requires
        path.len() > 0 && path.last() != "/"@,
        forall|d: PathKey| #[trigger]
            analysis.device_dependencies@.contains_key(d) ==> d.len() > 0 && d.last() != "/"@,
    ensures
        wants_context(DeviceContextMode::SameModule, analysis, active, implicit_imports, path)
            <==> exists|d: PathKey| #[trigger]
            analysis.device_dependencies@.contains_key(d) && (d.drop_last().is_prefix_of(path)
                || path.drop_last().is_prefix_of(d)),
{
    assert forall|a: PathKey, b: PathKey|
        #[trigger] a.is_prefix_of(b) <==> a.len() <= b.len() && b.take(a.len() as int) == a by {
        assert(b.subrange(0, a.len() as int) =~= b.take(a.len() as int));
    }
}

/// A device is always wanted where all are, and never where none is.
pub proof fn always_and_never(
    analysis: AnalysisStorage,
    active: Set<ContextKey>,
    implicit_imports: Seq<Seq<char>>,
    path: PathKey,
)
    ensures
        wants_context(DeviceContextMode::Always, analysis, active, implicit_imports, path),
        !wants_context(DeviceContextMode::Never, analysis, active, implicit_imports, path),
{
}

/// Whether a device is wanted depends on which files set off and are needed by
/// which devices, and on nothing else that is stored.
pub proof fn analyses_do_not_matter(
    mode: DeviceContextMode,
    a: AnalysisStorage,
    b: AnalysisStorage,
    active: Set<ContextKey>,
    implicit_imports: Seq<Seq<char>>,
    path: PathKey,
)
    requires
        a.device_triggers == b.device_triggers,
        a.device_dependencies == b.device_dependencies,
    ensures
        wants_context(mode, a, active, implicit_imports, path) == wants_context(
            mode,
            b,
            active,
            implicit_imports,
            path,
        ),
{
    if wants_context(mode, a, active, implicit_imports, path) {
        lemma_same_way(mode, a, b, active, implicit_imports, path);
    }
    if wants_context(mode, b, active, implicit_imports, path) {
        lemma_same_way(mode, b, a, active, implicit_imports, path);
    }
}

/// What makes a device wanted makes it wanted wherever the same is stored.
proof fn lemma_same_way(
    mode: DeviceContextMode,
    a: AnalysisStorage,
    b: AnalysisStorage,
    active: Set<ContextKey>,
    implicit_imports: Seq<Seq<char>>,
    path: PathKey,
)
    requires
        a.device_triggers == b.device_triggers,
        a.device_dependencies == b.device_dependencies,
        wants_context(mode, a, active, implicit_imports, path),
    ensures
        wants_context(mode, b, active, implicit_imports, path),
{
    assert forall|f: PathKey| in_active_context(b, active, f) implies in_active_context(
        a,
        active,
        f,
    ) by {
        let d = choose|d: PathKey| #[trigger]
            b.triggers_of(f).contains(d) && active.contains(ContextKey::Device(d));
        assert(a.triggers_of(f).contains(d));
    }
    match mode {
        DeviceContextMode::AnyNew => {
            let f = choose|f: PathKey| #[trigger]
                a.dependencies_of(path).contains(f) && !in_active_context(a, active, f);
            assert(b.dependencies_of(path).contains(f));
        },
        DeviceContextMode::First => {
            assert forall|f: PathKey| #[trigger]
                b.dependencies_of(path).contains(f) && !is_core_file(
                    implicit_imports,
                    f,
                ) implies !in_active_context(b, active, f) by {
                assert(a.dependencies_of(path).contains(f));
            }
        },
        _ => {},
    }
}

/// A device that becomes known joins the active contexts if and only if it has
/// not been checked before and is wanted, under the path by which it is known;
/// and it counts as checked then.
pub proof fn wanted_devices_join(
    before: InitActionContext,
    after: InitActionContext,
    path: PathView,
    c: ContextKey,
)
    requires
        after.device_active_contexts@ == active_after_check(before, path.components),
        views_after_check(before, after, path),
    ensures
        after.device_active_contexts@.contains(c) <==> before.device_active_contexts@.contains(c)
            || (c == ContextKey::Device(path.components)
            && !before.previously_checked_contexts@.contains(c) && wants_context(
            before.config.new_device_context_mode,
            before.analysis,
            before.device_active_contexts@,
            before.implicit_imports@.map_values(|s: String| s@),
            path.components,
        )),
        !before.device_active_contexts@.contains(ContextKey::Device(path.components))
            && after.device_active_contexts@.contains(ContextKey::Device(path.components))
            ==> after.device_active_contexts.views() == before.device_active_contexts.views().push(
            ContextView::Device(path),
        ),
        after.device_active_contexts@ == before.device_active_contexts@
            ==> after.device_active_contexts.views() == before.device_active_contexts.views(),
        !before.previously_checked_contexts@.contains(ContextKey::Device(path.components))
            ==> after.previously_checked_contexts.views()
            == before.previously_checked_contexts.views().push(ContextView::Device(path)),
{
    assert(before.implicit_imports@.map_values(|s: String| s@) =~= texts(before.implicit_imports@));
}

/// After contexts have been chosen for a file, a device that the file sets off is
/// active if and only if it was chosen; every other context is active if and only
/// if it was before.
pub proof fn chosen_contexts_of_a_file(
    analysis: AnalysisStorage,
    active: Set<ContextKey>,
    file: PathKey,
    chosen: Set<ContextKey>,
    c: ContextKey,
)
    ensures
        contexts_chosen(analysis, active, file, chosen).contains(c) <==> (if c is Device
            && analysis.device_triggers@.contains_key(file)
            && analysis.device_triggers@[file]@.contains(c->Device_0) {
            chosen.contains(c)
        } else {
            active.contains(c)
        }),
{
}

/// Contexts that stay when others are chosen say what they said, in their order;
/// those that come in say what was chosen, and no other context comes in.
pub proof fn chosen_contexts_say_what_was_chosen(
    analysis: AnalysisStorage,
    active: Seq<(ContextKey, ContextView)>,
    file: PathKey,
    chosen_keys: Set<ContextKey>,
    chosen: Seq<(ContextKey, ContextView)>,
    i: int,
)
    requires
        0 <= i < contexts_chosen_marks(analysis, active, file, chosen_keys, chosen).len(),
    ensures
        ({
            let mark = contexts_chosen_marks(analysis, active, file, chosen_keys, chosen)[i];
            active.contains(mark) || (chosen.contains(mark) && mark.0 is Device
                && analysis.device_triggers@.contains_key(file)
                && analysis.device_triggers@[file]@.contains(mark.0->Device_0))
        }),
        chosen.len() == 0 && (forall|j: int|
            0 <= j < active.len() ==> !((#[trigger] active[j]).0 is Device)) ==>
            contexts_chosen_marks(analysis, active, file, chosen_keys, chosen) == active,
{
    let known = analysis.triggers_of(file);
    let p = |m: (ContextKey, ContextView)| stays(known, chosen_keys, m.0);
    let q = |m: (ContextKey, ContextView)| crate::actions::contexts::activates(known, m.0);
    let first = active.filter(p);
    let second = chosen.filter(q);
    let all = contexts_chosen_marks(analysis, active, file, chosen_keys, chosen);
    lemma_added(first, second, i);
    if first.contains(all[i]) {
        active.lemma_filter_contains_rev(p, all[i]);
    } else {
        let j = choose|j: int| 0 <= j < second.len() && second[j] == all[i];
        chosen.lemma_filter_contains_rev(q, all[i]);
        chosen.lemma_filter_pred(q, j);
    }
    if chosen.len() == 0 && (forall|j: int|
        0 <= j < active.len() ==> !((#[trigger] active[j]).0 is Device)) {
        lemma_filter_all(active, p);
        chosen.lemma_filter_len(q);
        assert(second.len() == 0);
    }
}

/// A filter that everything passes changes nothing.
proof fn lemma_filter_all<A>(s: Seq<A>, p: spec_fn(A) -> bool)
    requires
        forall|i: int| 0 <= i < s.len() ==> p(#[trigger] s[i]),
    ensures
        s.filter(p) == s,
    decreases s.len(),
{
    reveal(Seq::filter);
    if s.len() > 0 {
        let rest = s.drop_last();
        assert forall|i: int| 0 <= i < rest.len() implies p(#[trigger] rest[i]) by {
            assert(rest[i] == s[i]);
        }
        lemma_filter_all(rest, p);
        assert(p(s[s.len() - 1]));
        assert(s =~= rest.push(s.last()));
    } else {
        assert(s.filter(p) =~= s);
    }
}

/// What is there after marks were added was there before or was added.
proof fn lemma_added<K, W>(before: Seq<(K, W)>, more: Seq<(K, W)>, i: int)
    requires
        0 <= i < add_marks(before, more).len(),
    ensures
        before.contains(add_marks(before, more)[i]) || more.contains(add_marks(before, more)[i]),
    decreases more.len(),
{
    let all = add_marks(before, more);
    if more.len() == 0 {
        assert(all == before);
    } else {
        let part = add_marks(before, more.drop_last());
        if i < part.len() {
            lemma_added(before, more.drop_last(), i);
            assert(all[i] == part[i]);
            if more.drop_last().contains(part[i]) {
                let j = choose|j: int|
                    0 <= j < more.drop_last().len() && more.drop_last()[j] == part[i];
                assert(more[j] == part[i]);
            }
        } else {
            assert(all[i] == more[more.len() - 1]);
        }
    }
}

/// What is known of the contexts of a file: of each device that the file sets off
/// whether it is active and whether an analysis of it exists, and of nothing
/// else.
pub proof fn infos_of_a_file(
    analysis: AnalysisStorage,
    active: Set<ContextKey>,
    file: PathKey,
    c: ContextKey,
    is_active: bool,
    is_ready: bool,
)
    ensures
        infos_for(analysis, active, file).contains((c, is_active, is_ready)) <==> c is Device
            && analysis.device_triggers@.contains_key(file)
            && analysis.device_triggers@[file]@.contains(c->Device_0) && is_active
            == active.contains(c) && is_ready == analysis.device_analysis@.contains(c->Device_0),
        all_infos(analysis, active).contains((c, is_active, is_ready)) <==> exists|f: PathKey|
            #[trigger] infos_for(analysis, active, f).contains((c, is_active, is_ready)),
{
    if c is Device {
        assert(analysis.triggers_of(file).contains(c->Device_0) <==>
            analysis.device_triggers@.contains_key(file)
            && analysis.device_triggers@[file]@.contains(c->Device_0));
    }
}

/// What is told of a device names it as it is stored, and no device is told of
/// that no file sets off.
pub proof fn infos_name_the_devices(
    analysis: AnalysisStorage,
    active: Set<ContextKey>,
    devices: Seq<PathView>,
    i: int,
)
    requires
        0 <= i < devices.len(),
    ensures
        info_marks(analysis, active, devices).len() == devices.len(),
        info_marks(analysis, active, devices)[i].0 == (
            ContextKey::Device(devices[i].components),
            active.contains(ContextKey::Device(devices[i].components)),
            analysis.device_analysis@.contains(devices[i].components),
        ),
        info_marks(analysis, active, devices)[i].1 == (
            ContextView::Device(devices[i]),
            active.contains(ContextKey::Device(devices[i].components)),
            analysis.device_analysis@.contains(devices[i].components),
        ),
{
}

/// The client's choice, by what it names: the devices whose documents can be
/// found. For all documents it replaces what was active; for one it replaces what
/// that one sets off; for one that cannot be found nothing changes.
pub proof fn clients_choose_devices(
    ctx: InitActionContext,
    params: ChangeActiveContextsParams,
    device: PathKey,
)
    ensures
        ({
            let c = ContextKey::Device(device);
            let named = exists|i: int|
                0 <= i < params.active_contexts@.len() && ((
                #[trigger] params.active_contexts@[i]) matches ContextDefinitionKindParam::Device(
                    uri,
                ) && uri.canon_path matches Some(p) && p@.components == device);
            &&& params.uri is None ==> (active_after_choice(ctx, params).contains(c) <==> named)
            &&& (params.uri is Some && params.uri->0.canon_path is None) ==> active_after_choice(
                ctx,
                params,
            ) == ctx.device_active_contexts@
            &&& (params.uri is Some && params.uri->0.canon_path is Some) ==> ({
                let file = params.uri->0.canon_path->0@.components;
                active_after_choice(ctx, params).contains(c) <==> (if
                    ctx.analysis.device_triggers@.contains_key(file)
                        && ctx.analysis.device_triggers@[file]@.contains(device) {
                    named
                } else {
                    ctx.device_active_contexts@.contains(c)
                })
            })
        }),
        !devices_named(params.active_contexts@).contains(ContextKey::Simulated(device)),
{
    let c = ContextKey::Device(device);
    let contexts = params.active_contexts@;
    if devices_named(contexts).contains(c) {
        let i = choose|i: int|
            0 <= i < contexts.len() && (#[trigger] contexts[i]).context_key() == Some(c);
        assert(contexts[i] is Device);
    }
    if exists|i: int|
        0 <= i < contexts.len() && ((#[trigger] contexts[i]) matches ContextDefinitionKindParam::Device(
            uri,
        ) && uri.canon_path matches Some(p) && p@.components == device) {
        let i = choose|i: int|
            0 <= i < contexts.len() && ((#[trigger] contexts[i]) matches ContextDefinitionKindParam::Device(
                uri,
            ) && uri.canon_path matches Some(p) && p@.components == device);
        assert(contexts[i].context_key() == Some(c));
    }
}

/// What the client chooses is known by the path that its document was found
/// under.
pub proof fn chosen_devices_are_named_as_found(
    contexts: Seq<ContextDefinitionKindParam>,
    i: int,
)
    requires
        0 <= i < device_marks(contexts).len(),
    ensures
        exists|j: int|
            0 <= j < contexts.len() && ((#[trigger] contexts[j]) matches ContextDefinitionKindParam::Device(
                uri,
            ) && uri.canon_path matches Some(p) && device_marks(contexts)[i] == (
                ContextKey::Device(p@.components),
                ContextView::Device(p@),
            )),
    decreases contexts.len(),
{
    let before = device_marks(contexts.drop_last());
    let last = contexts[contexts.len() - 1];
    if i < before.len() {
        chosen_devices_are_named_as_found(contexts.drop_last(), i);
        let part = contexts.drop_last();
        let j = choose|j: int|
            0 <= j < part.len() && ((#[trigger] part[j]) matches ContextDefinitionKindParam::Device(
                uri,
            ) && uri.canon_path matches Some(p) && before[i] == (
                ContextKey::Device(p@.components),
                ContextView::Device(p@),
            ));
        assert(contexts[j] == part[j]);
    } else {
        assert(last.context_mark() is Some);
        assert(last is Device);
    }
}

/// What is told of all contexts is told file by file.
pub proof fn infos_are_told_file_by_file(
    analysis: AnalysisStorage,
    active: Set<ContextKey>,
    n: int,
)
    requires
        0 <= n < analysis.device_triggers.entries().len(),
    ensures
        all_info_marks(analysis, active, 0).len() == 0,
        all_info_marks(analysis, active, n + 1) == add_marks(
            all_info_marks(analysis, active, n),
            info_marks(
                analysis,
                active,
                analysis.device_triggers.entries()[n].1.members().map_values(
                    |p: crate::path::CanonPath| p@,
                ),
            ),
        ),
{
    let set = analysis.device_triggers.entries()[n].1;
    assert(set.views() =~= set.members().map_values(|p: crate::path::CanonPath| p@));
}

/// What the active contexts say after a choice: for all documents what was chosen, for
/// one that can be found what was chosen for it, and else what they said.
pub proof fn a_choice_replaces_what_was_said(
    ctx: InitActionContext,
    params: ChangeActiveContextsParams,
)
    ensures
        params.uri is None ==> active_marks_after_choice(ctx, params) == device_marks(
            params.active_contexts@,
        ),
        params.uri is Some && params.uri->0.canon_path is None ==> active_marks_after_choice(
            ctx,
            params,
        ) == ctx.device_active_contexts.marks(),
        params.uri is Some && params.uri->0.canon_path is Some ==> active_marks_after_choice(
            ctx,
            params,
        ) == contexts_chosen_marks(
            ctx.analysis,
            ctx.device_active_contexts.marks(),
            params.uri->0.canon_path->0@.components,
            devices_named(params.active_contexts@),
            device_marks(params.active_contexts@),
        ),
{
}

/// Which contexts stay when others are chosen for a file, and which come in: a device
/// that the file sets off stays only if it was chosen, everything else stays; a chosen
/// device comes in if the file sets it off, and nothing else does.
pub proof fn what_stays_and_what_comes_in(
    analysis: AnalysisStorage,
    active: Seq<(ContextKey, ContextView)>,
    file: PathKey,
    chosen_keys: Set<ContextKey>,
    chosen: Seq<(ContextKey, ContextView)>,
)
    ensures
        ({
            let set_off = |c: ContextKey|
                c is Device && analysis.device_triggers@.contains_key(file)
                    && analysis.device_triggers@[file]@.contains(c->Device_0);
            contexts_chosen_marks(analysis, active, file, chosen_keys, chosen) == add_marks(
                active.filter(
                    |m: (ContextKey, ContextView)| !set_off(m.0) || chosen_keys.contains(m.0),
                ),
                chosen.filter(|m: (ContextKey, ContextView)| set_off(m.0)),
            )
        }),
{
    let set_off = |c: ContextKey|
        c is Device && analysis.device_triggers@.contains_key(file)
            && analysis.device_triggers@[file]@.contains(c->Device_0);
    let known = analysis.triggers_of(file);
    let p = |m: (ContextKey, ContextView)| stays(known, chosen_keys, m.0);
    let q = |m: (ContextKey, ContextView)| crate::actions::contexts::activates(known, m.0);
    let raw_p = |m: (ContextKey, ContextView)| !set_off(m.0) || chosen_keys.contains(m.0);
    let raw_q = |m: (ContextKey, ContextView)| set_off(m.0);
    assert forall|m: (ContextKey, ContextView)| #[trigger] p(m) == raw_p(m) by {}
    assert forall|m: (ContextKey, ContextView)| #[trigger] q(m) == raw_q(m) by {}
    assert(p =~= raw_p);
    assert(q =~= raw_q);
}

/// After a choice the active contexts are those that the choice leaves, saying what it
/// leaves them say; nothing else changes.
pub proof fn a_choice_changes_the_active_contexts_alone(
    before: InitActionContext,
    after: InitActionContext,
    params: ChangeActiveContextsParams,
)
    requires
        choice_taken(before, after, params),
    ensures
        after.device_active_contexts@ == active_after_choice(before, params),
        after.device_active_contexts.marks() == active_marks_after_choice(before, params),
        after.previously_checked_contexts == before.previously_checked_contexts,
        after.config == before.config,
        after.direct_opens == before.direct_opens,
        after.analysis == before.analysis,
{
}

} // verus!
