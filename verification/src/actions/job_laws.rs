//! What holds of starting analyses and of telling that they go on, told by what is
//! stored and configured.
use crate::actions::analysis::{AnalysisStorage, PathKey};
use crate::actions::context::{ContextKey, ContextView, InitActionContext};
use crate::actions::contexts::joins;
use crate::actions::jobs::{
    builtins, builtins_missed, builtins_warning, device_ready, device_started, lint_triggered,
    notifier_begun, nothing_started, progress_begun, ready_started, triggers_in_order, Started,
};
use crate::effects::EffectView;
use crate::path::{CanonPath, PathView};
use crate::server::message::MessageType;
use vstd::prelude::*;
use vstd::string::*;

verus! {

/// The client is told that an analysis starts if no report goes on, under the id
/// given, and that report goes on then; if one goes on it stays the one.
pub proof fn progress_begins_unless_it_goes_on(notifier: Option<Seq<char>>, id: Seq<char>)
    ensures
        notifier is None ==> notifier_begun(notifier, id) == Some(id) && progress_begun(
            notifier,
            id,
        ) == seq![EffectView::BeginProgress { id, title: "Analysing"@ }],
        notifier is Some ==> notifier_begun(notifier, id) == notifier && progress_begun(
            notifier,
            id,
        ).len() == 0,
{
}

/// A file is linted if linting is on and imports are not left alone; or they are,
/// and the client has the file open. It is linted under the path given, with the
/// lint configuration in force.
pub proof fn files_are_linted_when_wanted(ctx: InitActionContext, file: PathView, canon: PathKey)
    ensures
        !ctx.config.linting_enabled ==> lint_triggered(ctx, file, canon).len() == 0,
        ctx.config.suppress_imports && !ctx.direct_opens@.contains(canon) ==> lint_triggered(
            ctx,
            file,
            canon,
        ).len() == 0,
        ctx.config.linting_enabled && !ctx.config.suppress_imports ==> lint_triggered(
            ctx,
            file,
            canon,
        ) == seq![EffectView::LintAnalyze { path: file, cfg: ctx.lint_config }],
        ctx.config.linting_enabled && ctx.direct_opens@.contains(canon) ==> lint_triggered(
            ctx,
            file,
            canon,
        ) == seq![EffectView::LintAnalyze { path: file, cfg: ctx.lint_config }],
{
}

/// The user is told once that the built-in file is missing: if it has not been told
/// and no file of that name has been analysed.
pub proof fn builtins_are_missed_once(ctx: InitActionContext)
    ensures
        builtins_missed(ctx) <==> !ctx.has_notified_missing_builtins
            && !ctx.analysis.client_files@.contains(seq!["dml-builtins.dml"@]),
        builtins_warning() == (EffectView::ShowMessage {
            typ: MessageType::Warning,
            message: "Unable to find dml-builtins, various essential built-in templates, methods, and paramters will be unavailable and semantic analysis is likely to produce errors as a result"@,
        }),
{
}

/// A device is ready if all that it imports has been analysed, its file declares a
/// device, and its analysis, if there is one, is not newer than all that it depends
/// on.
pub proof fn devices_are_ready(analysis: AnalysisStorage, device: PathKey)
    ensures
        device_ready(analysis, device) ==> analysis.with_dependencies@.contains(device)
            && analysis.isolated_analysis@[device].is_device_file
            && !analysis.newer_than_dependencies@.contains(device),
        analysis.with_dependencies@.contains(device)
            && analysis.isolated_analysis@[device].is_device_file
            && !analysis.newer_than_dependencies@.contains(device) ==> device_ready(
            analysis,
            device,
        ),
{
}

/// Starting the analysis of a device begins the progress report if none goes on, and
/// then has the device analysed together with what it imports; the device counts as
/// checked, and joins the active contexts if it is to.
pub proof fn starting_a_device(
    ctx: InitActionContext,
    so_far: Started,
    device: PathView,
    id: Seq<char>,
)
    ensures
        ({
            let now = device_started(ctx, so_far, device, id);
            let dependencies = if ctx.analysis.all_dependencies@.contains_key(device.components) {
                ctx.analysis.all_dependencies@[device.components].members().map_values(
                    |p: CanonPath| p@,
                )
            } else {
                Seq::empty()
            };
            &&& now.effects.len() == so_far.effects.len() + (if so_far.notifier is None {
                2int
            } else {
                1int
            })
            &&& now.effects.take(so_far.effects.len() as int) == so_far.effects
            &&& now.effects.last() == (EffectView::EnqueueDevice { device, dependencies })
            &&& so_far.notifier is None ==> now.effects[so_far.effects.len() as int] == (
            EffectView::BeginProgress { id, title: "Analysing"@ }) && now.notifier == Some(id)
            &&& so_far.notifier is Some ==> now.notifier == so_far.notifier
            &&& now.checked == so_far.checked.insert(ContextKey::Device(device.components))
            &&& forall|c: ContextKey|
                #[trigger] now.active.contains(c) <==> so_far.active.contains(c) || (c
                    == ContextKey::Device(device.components) && joins(
                    ctx,
                    so_far.active,
                    so_far.checked,
                    device.components,
                ))
            &&& !so_far.active.contains(ContextKey::Device(device.components))
                && now.active.contains(ContextKey::Device(device.components)) ==> now.active_views
                == so_far.active_views.push(ContextView::Device(device))
        }),
{
    let now = device_started(ctx, so_far, device, id);
    assert(now.effects.take(so_far.effects.len() as int) =~= so_far.effects);
    if ctx.analysis.all_dependencies@.contains_key(device.components) {
        let set = ctx.analysis.all_dependencies@[device.components];
        assert(set.views() =~= set.members().map_values(|p: CanonPath| p@));
    }
}

/// Of the devices that a file sets off, in their order, exactly the ready ones are
/// started, one after the other.
pub proof fn ready_devices_are_started(
    ctx: InitActionContext,
    file: PathKey,
    n: int,
    id: Seq<char>,
)
    requires
        0 <= n < triggers_in_order(ctx.analysis, file).len(),
    ensures
        ({
            let devices = triggers_in_order(ctx.analysis, file);
            let before = ready_started(ctx, devices, n, id);
            let after = ready_started(ctx, devices, n + 1, id);
            &&& ctx.analysis.device_triggers@.contains_key(file)
            &&& devices.len() == ctx.analysis.device_triggers@[file].members().len()
            &&& devices[n] == ctx.analysis.device_triggers@[file].members()[n]@
            &&& device_ready(ctx.analysis, devices[n].components) ==> after == device_started(
                ctx,
                before,
                devices[n],
                id,
            )
            &&& !device_ready(ctx.analysis, devices[n].components) ==> after == before
        }),
        ready_started(ctx, triggers_in_order(ctx.analysis, file), 0, id) == nothing_started(ctx),
        nothing_started(ctx).effects.len() == 0,
        nothing_started(ctx).active == ctx.device_active_contexts@,
        nothing_started(ctx).active_views == ctx.device_active_contexts.views(),
        nothing_started(ctx).checked == ctx.previously_checked_contexts@,
        nothing_started(ctx).notifier is Some == ctx.current_notifier is Some,
        ctx.current_notifier is Some ==> nothing_started(ctx).notifier->0
            == ctx.current_notifier->0@,
{
}

/// A file that sets off no device has none started.
pub proof fn no_device_is_started_for_other_files(ctx: InitActionContext, file: PathKey)
    requires
        !ctx.analysis.device_triggers@.contains_key(file),
    ensures
        triggers_in_order(ctx.analysis, file).len() == 0,
{
}

/// A device joins the active contexts only if it has not been checked.
pub proof fn checked_devices_do_not_join(
    ctx: InitActionContext,
    active: Set<ContextKey>,
    checked: Set<ContextKey>,
    path: PathKey,
)
    ensures
        checked.contains(ContextKey::Device(path)) ==> !joins(ctx, active, checked, path),
        !checked.contains(ContextKey::Device(path)) ==> joins(ctx, active, checked, path)
            == crate::actions::contexts::wants_context(
            ctx.config.new_device_context_mode,
            ctx.analysis,
            active,
            ctx.implicit_imports@.map_values(|s: String| s@),
            path,
        ),
{
    assert(ctx.implicit_imports@.map_values(|s: String| s@) =~= crate::text::texts(
        ctx.implicit_imports@,
    ));
}

/// An empty storage holds nothing of any file.
pub proof fn an_empty_storage_holds_nothing(storage: AnalysisStorage, k: PathKey)
    requires
        storage.is_empty(),
    ensures
        !storage.isolated_analysis@.contains_key(k),
        !storage.device_analysis@.contains(k),
        !storage.lint_analysis@.contains(k),
        !storage.device_triggers@.contains_key(k),
        !storage.device_dependencies@.contains_key(k),
        !storage.all_dependencies@.contains_key(k),
        !storage.with_dependencies@.contains(k),
        !storage.newer_than_dependencies@.contains(k),
        !storage.client_files@.contains(k),
{
}

} // verus!
