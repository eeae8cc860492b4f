//! What holds of notifications, told by what comes with them, what is kept, and what
//! they set off.
use crate::actions::analysis::PathKey;
use crate::actions::client_requests::response_effects;
use crate::actions::compile_info::{compile_info_taken_over, is_among, ConfigFiles};
use crate::actions::config_change::{
    compile_info_changed, config_change_effects, lint_config_after, lint_config_changed,
};
use crate::actions::context::{InitActionContext, Workspace};
use crate::actions::file_watch::{is_watched, watchers_for, FileEvent};
use crate::actions::init::init_effects;
use crate::actions::notifications::{
    change_effects, changed, changes_of, choice_taken, close_effects, closed, configuration_effects,
    configuration_taken, debug_path, folders_taken, initialized_effects, initialized_taken,
    open_effects, opened, save_effects, settings_shown, watched_effects, watched_taken, with_config,
    ConfigSettings, ContentChange, FileRef, NotificationParams, SettingsShape,
};
use crate::actions::versions::{changes_after, version_order, VersionOrdering};
use crate::effects::{opt_path, ChangeView, EffectView};
use crate::path::{FilePath, PathView};
use crate::server::message::{kind_of, ClientRequestKind, ClientRequestView, IdView, MessageType};
use vstd::prelude::*;
use vstd::string::*;

verus! {

/// A version is in order if none of the file has been seen or it is later than the
/// last one, a duplicate if it is the same, and out of order if it is earlier. One
/// that is in order is the last one then; of other files nothing changes, and
/// nothing changes on account of one that is not in order.
pub proof fn versions_are_compared_by_file(
    changes: Map<PathKey, i32>,
    file: PathKey,
    version: i32,
    other: PathKey,
)
    ensures
        !changes.contains_key(file) ==> version_order(changes, file, version)
            == VersionOrdering::InOrder,
        changes.contains_key(file) && version > changes[file] ==> version_order(
            changes,
            file,
            version,
        ) == VersionOrdering::InOrder,
        changes.contains_key(file) && version == changes[file] ==> version_order(
            changes,
            file,
            version,
        ) == VersionOrdering::Duplicate,
        changes.contains_key(file) && version < changes[file] ==> version_order(
            changes,
            file,
            version,
        ) == VersionOrdering::OutOfOrder,
        version_order(changes, file, version) == VersionOrdering::InOrder ==> changes_after(
            changes,
            file,
            version,
        ).contains_key(file) && changes_after(changes, file, version)[file] == version,
        version_order(changes, file, version) != VersionOrdering::InOrder ==> changes_after(
            changes,
            file,
            version,
        ) == changes,
        other != file ==> changes_after(changes, file, version).contains_key(other)
            == changes.contains_key(other) && (changes.contains_key(other) ==> changes_after(
            changes,
            file,
            version,
        )[other] == changes[other]),
{
}

/// Opening a document: its file counts as open afterwards and so do those that did;
/// any version of it is in order next, and of other files none is forgotten; the
/// text is taken over first, errors are reported last, and the file is analysed
/// between, unless that waits until it is saved.
pub proof fn opening_a_document(
    before: InitActionContext,
    after: InitActionContext,
    file: FileRef,
    text: Seq<char>,
    other: PathKey,
    version: i32,
)
    requires
        opened(before, after, Some(file)),
    ensures
        after.direct_opens@.contains(other) <==> before.direct_opens@.contains(other) || other
            == file.canon_path@.components,
        version_order(after.prev_changes@, file.path@.components, version)
            == VersionOrdering::InOrder,
        other != file.path@.components ==> after.prev_changes@.contains_key(other)
            == before.prev_changes@.contains_key(other) && (before.prev_changes@.contains_key(other)
            ==> after.prev_changes@[other] == before.prev_changes@[other]),
        after.device_active_contexts == before.device_active_contexts,
        after.config == before.config,
        ({
            let effects = open_effects(before, Some(file), text);
            &&& effects[0] == (EffectView::SetFile { path: file.path@, text })
            &&& effects.last() is ReportErrors
            &&& before.config.analyse_on_save ==> effects.len() == 2
            &&& !before.config.analyse_on_save ==> effects.len() == 3 && effects[1] == (
            EffectView::IsolatedAnalyze { path: file.path@, context: None })
        }),
        opened(before, before, None),
        open_effects(before, None, text).len() == 0,
{
}

/// Closing a document: its file does not count as open, all others as before, and
/// errors are reported.
pub proof fn closing_a_document(
    before: InitActionContext,
    after: InitActionContext,
    file: FileRef,
    other: PathKey,
)
    requires
        closed(before, after, Some(file)),
    ensures
        after.direct_opens@.contains(other) <==> before.direct_opens@.contains(other) && other
            != file.canon_path@.components,
        after.prev_changes == before.prev_changes,
        after.config == before.config,
        close_effects(Some(file)) == seq![EffectView::ReportErrors],
        close_effects(None).len() == 0,
{
}

/// Changing a document: a change with a version in order is taken over, the file is
/// marked and then analysed, unless that waits until it is saved; a duplicate sets
/// nothing off; of one out of order the user is warned. A change without content
/// sets nothing off and changes nothing.
pub proof fn changing_a_document(
    before: InitActionContext,
    after: InitActionContext,
    file: FileRef,
    version: i32,
    content: Seq<ContentChange>,
)
    requires
        content.len() > 0,
        changed(before, after, Some(file), version, content),
    ensures
        !after.quiescent,
        after.direct_opens == before.direct_opens,
        ({
            let effects = change_effects(before, Some(file), version, content);
            let last = before.prev_changes@;
            let key = file.path@.components;
            let in_order = !last.contains_key(key) || version > last[key];
            &&& in_order ==> after.prev_changes@ == last.insert(key, version)
            &&& !in_order ==> after.prev_changes@ == last
            &&& in_order ==> effects[0] is ChangeFiles && effects[0]->ChangeFiles_changes.len()
                == content.len() && effects[1] == (EffectView::MarkFileDirty {
                path: file.canon_path@,
            })
            &&& in_order && before.config.analyse_on_save ==> effects.len() == 2
            &&& in_order && !before.config.analyse_on_save ==> effects.len() == 3 && effects[2] == (
            EffectView::IsolatedAnalyze { path: file.path@, context: None })
            &&& last.contains_key(key) && version == last[key] ==> effects.len() == 0
            &&& last.contains_key(key) && version < last[key] ==> effects == seq![
                EffectView::ShowMessage {
                    typ: MessageType::Warning,
                    message: "Out of order change in "@ + debug_path(file.path@.text),
                },
            ]
        }),
        change_effects(before, Some(file), version, Seq::empty()).len() == 0,
        changed(before, before, Some(file), version, Seq::empty()),
{
}

/// Each change of the content is taken over as it came: one of a range replaces that
/// range of the file, one without a range the whole file.
pub proof fn changes_are_taken_over_as_they_came(
    content: Seq<ContentChange>,
    file: PathView,
    i: int,
)
    requires
        0 <= i < content.len(),
    ensures
        changes_of(content, file).len() == content.len(),
        content[i].range is None ==> changes_of(content, file)[i] == (ChangeView::AddFile {
            file,
            text: content[i].text@,
        }),
        content[i].range is Some ==> {
            let change = changes_of(content, file)[i];
            let range = content[i].range->0;
            &&& change is ReplaceText
            &&& change->ReplaceText_text == content[i].text@
            &&& change->ReplaceText_span.file == file
            &&& change->ReplaceText_span.range.row_start.0 == range.start.line
            &&& change->ReplaceText_span.range.col_start.0 == range.start.character
            &&& change->ReplaceText_span.range.row_end.0 == range.end.line
            &&& change->ReplaceText_span.range.col_end.0 == range.end.character
            &&& change->ReplaceText_length is Some == content[i].range_length is Some
            &&& content[i].range_length is Some ==> change->ReplaceText_length->0
                == content[i].range_length->0
        },
{
}

/// What changing a document hands on are the changes of its content.
pub proof fn changed_content_is_handed_on(
    ctx: InitActionContext,
    file: FileRef,
    version: i32,
    content: Seq<ContentChange>,
)
    requires
        content.len() > 0,
        !ctx.prev_changes@.contains_key(file.path@.components)
            || ctx.prev_changes@[file.path@.components] < version,
    ensures
        change_effects(ctx, Some(file), version, content)[0] == (EffectView::ChangeFiles {
            changes: changes_of(content, file.path@),
        }),
{
}

/// Saving a document has its file analysed if that waits until it is saved.
pub proof fn saving_a_document(ctx: InitActionContext, path: FilePath)
    ensures
        save_effects(ctx, Some(path))[0] == (EffectView::FileSaved { path: path@ }),
        ctx.config.analyse_on_save ==> save_effects(ctx, Some(path)).len() == 2 && save_effects(
            ctx,
            Some(path),
        )[1] == (EffectView::IsolatedAnalyze { path: path@, context: None }),
        !ctx.config.analyse_on_save ==> save_effects(ctx, Some(path)).len() == 1,
        save_effects(ctx, None).len() == 0,
{
}

/// The files that the configuration names are read again if the compile information
/// is among the files that changed, told by its components; then what they hold is
/// in force, and nothing else changes.
pub proof fn watched_files_are_heeded(
    before: InitActionContext,
    after: InitActionContext,
    changes: Seq<FileEvent>,
    files: ConfigFiles,
    i: int,
)
    requires
        watched_taken(before, after, changes, files),
    ensures
        before.config.compile_info_path is Some && 0 <= i < changes.len() && changes[i].path is Some
            && changes[i].path->0@.components == before.config.compile_info_path->0@.components
            ==> compile_info_taken_over(before, files.compile_info, after.compilation_info)
            && after.lint_config == lint_config_after(before, files.lint_cfg) && watched_effects(
            before,
            changes,
            files,
            after.compilation_info,
        ) == init_effects(before, files, after.compilation_info),
        before.config.compile_info_path is None || (forall|j: int|
            0 <= j < changes.len() && (#[trigger] changes[j]).path is Some
                ==> changes[j].path->0@.components
                != before.config.compile_info_path->0@.components) ==> after == before
            && watched_effects(before, changes, files, after.compilation_info).len() == 0,
        after.config == before.config,
        after.direct_opens == before.direct_opens,
{
    if before.config.compile_info_path is Some && 0 <= i < changes.len() && changes[i].path is Some
        && changes[i].path->0@.components == before.config.compile_info_path->0@.components {
        assert(is_watched(before.config.compile_info_path->0@, opt_path(changes[i].path)));
    }
}

/// The client watches the compile information for the server, by its path, for all
/// kinds of changes.
pub proof fn the_compile_information_is_watched(pattern: Seq<char>)
    ensures
        watchers_for(pattern).len() == 1,
        watchers_for(pattern)[0].glob_pattern == pattern,
        watchers_for(pattern)[0].kind is None,
{
}

/// Settings that are null, or an object without entries, have the server ask for
/// them, and nothing else; all others are taken over at once.
pub proof fn empty_settings_are_asked_for(
    before: InitActionContext,
    after: InitActionContext,
    settings: ConfigSettings,
    files: ConfigFiles,
    id: IdView,
)
    requires
        configuration_taken(before, after, settings, files, id),
    ensures
        ({
            let effects = configuration_effects(
                before,
                settings,
                files,
                id,
                after.compilation_info,
            );
            let pull = settings.shape is Null || (settings.shape is Object
                && settings.shape->Object_0 == 0);
            &&& pull ==> effects == seq![
                EffectView::SendRequest {
                    id,
                    request: ClientRequestView::WorkspaceConfiguration {
                        section: "simics-modeling.dls"@,
                    },
                },
            ]
            &&& pull ==> after.config == before.config && after.outstanding_requests@.contains_key(
                id,
            ) && after.outstanding_requests@[id] == ClientRequestKind::WorkspaceConfiguration
            &&& !pull && settings.config is Ok ==> after.config == settings.config->Ok_0
                && compile_info_changed(
                with_config(before, settings.config->Ok_0),
                before.config@,
                files.compile_info,
                after.compilation_info,
            ) && after.lint_config == lint_config_changed(
                with_config(before, settings.config->Ok_0),
                before.config@,
                files.lint_cfg,
            )
            &&& !pull && settings.config is Err ==> after == before && effects == settings_shown(
                settings,
            )
            &&& !pull && settings.config is Ok ==> effects == settings_shown(settings)
                + config_change_effects(
                with_config(before, settings.config->Ok_0),
                before.config@,
                files,
                after.compilation_info,
            )
            &&& !pull ==> after.outstanding_requests == before.outstanding_requests
        }),
{
    if !(settings.shape is Null || (settings.shape is Object && settings.shape->Object_0 == 0))
        && settings.config is Err {
        assert(configuration_effects(before, settings, files, id, after.compilation_info)
            =~= settings_shown(settings));
    }
}

/// The context under another configuration differs in the configuration alone.
pub proof fn configurations_are_put_in_force(ctx: InitActionContext, config: crate::config::Config)
    ensures
        with_config(ctx, config).config == config,
        with_config(ctx, config).analysis == ctx.analysis,
        with_config(ctx, config).direct_opens == ctx.direct_opens,
        with_config(ctx, config).lint_config == ctx.lint_config,
        with_config(ctx, config).compilation_info == ctx.compilation_info,
        with_config(ctx, config).workspace_roots == ctx.workspace_roots,
        with_config(ctx, config).client_capabilities == ctx.client_capabilities,
{
}

/// What the server registers for once the client is initialized: changes of the
/// configuration, if the client tells of them, lets the server register for them
/// and lets it ask; and changes of the compile information, in any case.
pub proof fn the_server_registers(
    before: InitActionContext,
    after: InitActionContext,
    config_id: IdView,
    watch_id: IdView,
)
    requires
        initialized_taken(before, after, config_id, watch_id),
    ensures
        ({
            let effects = initialized_effects(before, config_id, watch_id);
            let pulls = before.client_capabilities.did_change_configuration.0
                && before.client_capabilities.did_change_configuration.1
                && before.client_capabilities.configuration;
            &&& effects.len() == (if pulls {
                2int
            } else {
                1int
            })
            &&& pulls ==> effects[0] == (EffectView::SendRequest {
                id: config_id,
                request: ClientRequestView::RegisterCapability {
                    id: "dls-config"@,
                    method: "workspace/didChangeConfiguration"@,
                    register_options: None,
                },
            })
            &&& effects.last() is SendRequest
            &&& effects.last()->SendRequest_id == watch_id
            &&& effects.last()->SendRequest_request is RegisterCapability
            &&& effects.last()->SendRequest_request->RegisterCapability_id == "dls-watch"@
            &&& effects.last()->SendRequest_request->RegisterCapability_method
                == "workspace/didChangeWatchedFiles"@
            &&& before.config.compile_info_path is None <==>
                effects.last()->SendRequest_request->RegisterCapability_register_options is None
            &&& before.config.compile_info_path is Some ==>
                effects.last()->SendRequest_request->RegisterCapability_register_options->0
                == watchers_for(before.config.compile_info_path->0@.text)
            &&& after.outstanding_requests@.contains_key(watch_id)
            &&& after.outstanding_requests@[watch_id] == ClientRequestKind::RegisterCapability
            &&& pulls ==> after.outstanding_requests@.contains_key(config_id)
            &&& after.config == before.config
        }),
{
}

/// A response is handed on if a request with its id has not been answered, to
/// whoever sent a request of that kind.
pub proof fn responses_go_to_their_requests(
    outstanding: Map<IdView, ClientRequestKind>,
    id: IdView,
    request: ClientRequestView,
)
    ensures
        outstanding.contains_key(id) ==> response_effects(outstanding, id) == seq![
            EffectView::HandleResponse { id, kind: outstanding[id] },
        ],
        !outstanding.contains_key(id) ==> response_effects(outstanding, id).len() == 0,
        request is RegisterCapability ==> kind_of(request) is RegisterCapability,
        request is WorkspaceConfiguration ==> kind_of(request) is WorkspaceConfiguration,
{
}

/// The folders that the client adds stand last, in their order; before them stand
/// those that it does not remove by URI and name, and no others.
pub proof fn folders_are_added_and_removed(
    before: InitActionContext,
    after: InitActionContext,
    added: Seq<Workspace>,
    removed: Seq<Workspace>,
    w: Workspace,
)
    requires
        folders_taken(before, after, added, removed),
    ensures
        ({
            let kept = after.workspace_roots@.len() - added.len();
            &&& 0 <= kept <= before.workspace_roots@.len()
            &&& after.workspace_roots@.skip(kept) == added
            &&& after.workspace_roots@.take(kept).contains(w) <==> before.workspace_roots@.contains(
                w,
            ) && !(exists|i: int|
                0 <= i < removed.len() && (#[trigger] removed[i]).uri@ == w.uri@ && removed[i].name@
                    == w.name@)
        }),
        after.config == before.config,
        after.compilation_info == before.compilation_info,
{
    let p = |x: Workspace| !is_among(x, removed);
    let kept = before.workspace_roots@.filter(p);
    before.workspace_roots@.lemma_filter_len(p);
    assert(after.workspace_roots@.skip(kept.len() as int) =~= added);
    assert(after.workspace_roots@.take(kept.len() as int) =~= kept);
    if kept.contains(w) {
        let i = choose|i: int| 0 <= i < kept.len() && kept[i] == w;
        before.workspace_roots@.lemma_filter_pred(p, i);
        before.workspace_roots@.lemma_filter_contains_rev(p, w);
    }
    if before.workspace_roots@.contains(w) && p(w) {
        let i = choose|i: int|
            0 <= i < before.workspace_roots@.len() && before.workspace_roots@[i] == w;
        before.workspace_roots@.lemma_filter_contains(p, i);
    }
}

/// A notification that needs a file fails, with nothing to say, exactly if the
/// document is none; a change without content needs none. One with settings fails
/// exactly if they are to be taken over and make no configuration. All others
/// succeed.
pub proof fn notifications_fail_without_a_file(params: NotificationParams)
    ensures
        params.result() is Err ==> params.result()->Err_0 is Empty,
        params is DidOpenTextDocument ==> (params.result() is Ok
            <==> params->DidOpenTextDocument_file is Some),
        params is DidCloseTextDocument ==> (params.result() is Ok
            <==> params->DidCloseTextDocument_file is Some),
        params is DidSaveTextDocument ==> (params.result() is Ok
            <==> params->DidSaveTextDocument_file is Some),
        params is DidChangeTextDocument ==> (params.result() is Ok
            <==> params->DidChangeTextDocument_file is Some
            || params->DidChangeTextDocument_content_changes@.len() == 0),
        params is DidChangeConfiguration ==> (params.result() is Ok
            <==> params->DidChangeConfiguration_settings.config is Ok
            || params->DidChangeConfiguration_settings.shape is Null
            || params->DidChangeConfiguration_settings.shape == SettingsShape::Object(0)),
        params is Initialized || params is Cancel || params is DidChangeWatchedFiles
            || params is DidChangeWorkspaceFolders || params is ChangeActiveContexts
            ==> params.result() is Ok,
{
}

/// Each notification does what belongs to it, and belongs to its method.
pub proof fn notifications_do_what_belongs_to_them(
    params: NotificationParams,
    before: InitActionContext,
    after: InitActionContext,
)
    requires
        params.taken(before, after),
    ensures
        params is Cancel ==> after == before && params.effects(before, after).len() == 0
            && params.method() is Cancel,
        params is DidSaveTextDocument ==> after == before && params.effects(before, after)
            == save_effects(before, params->DidSaveTextDocument_file) && params.method()
            is DidSaveTextDocument,
        params is DidOpenTextDocument ==> opened(before, after, params->DidOpenTextDocument_file)
            && params.effects(before, after) == open_effects(
            before,
            params->DidOpenTextDocument_file,
            params->DidOpenTextDocument_text@,
        ) && params.method() is DidOpenTextDocument,
        params is DidCloseTextDocument ==> closed(before, after, params->DidCloseTextDocument_file)
            && params.effects(before, after) == close_effects(params->DidCloseTextDocument_file)
            && params.method() is DidCloseTextDocument,
        params is DidChangeTextDocument ==> changed(
            before,
            after,
            params->DidChangeTextDocument_file,
            params->DidChangeTextDocument_version,
            params->DidChangeTextDocument_content_changes@,
        ) && params.effects(before, after) == change_effects(
            before,
            params->DidChangeTextDocument_file,
            params->DidChangeTextDocument_version,
            params->DidChangeTextDocument_content_changes@,
        ) && params.method() is DidChangeTextDocument,
        params is DidChangeConfiguration ==> configuration_taken(
            before,
            after,
            params->DidChangeConfiguration_settings,
            params->DidChangeConfiguration_files,
            params->DidChangeConfiguration_id@,
        ) && params.method() is DidChangeConfiguration,
        params is DidChangeWatchedFiles ==> watched_taken(
            before,
            after,
            params->DidChangeWatchedFiles_changes@,
            params->DidChangeWatchedFiles_files,
        ) && params.method() is DidChangeWatchedFiles,
        params is DidChangeWorkspaceFolders ==> folders_taken(
            before,
            after,
            params->DidChangeWorkspaceFolders_added@,
            params->DidChangeWorkspaceFolders_removed@,
        ) && params.effects(before, after).len() == 0 && params.method()
            is DidChangeWorkspaceFolders,
        params is ChangeActiveContexts ==> choice_taken(
            before,
            after,
            params->ChangeActiveContexts_params,
        ) && params.effects(before, after) == seq![EffectView::ReportErrors] && params.method()
            is ChangeActiveContexts,
        params is Initialized ==> initialized_taken(
            before,
            after,
            params->Initialized_config_id@,
            params->Initialized_watch_id@,
        ) && params.effects(before, after) == initialized_effects(
            before,
            params->Initialized_config_id@,
            params->Initialized_watch_id@,
        ) && params.method() is Initialized,
{
}

/// A document is the file that is watched if and only if it is a file and its path has
/// the same components.
pub proof fn watched_files_are_known_by_components(watched: PathView, path: PathView)
    ensures
        is_watched(watched, Some(path)) <==> path.components == watched.components,
        !is_watched(watched, None),
{
}

/// What is told about settings: unknown keys, then deprecated ones, then duplicated ones.
pub proof fn settings_are_told_about(settings: ConfigSettings)
    ensures
        settings_shown(settings) == crate::server::notify::unknown_configs_logged(
            settings.unknowns@.map_values(|s: String| s@),
        ) + crate::server::notify::deprecations_shown(settings.deprecated@)
            + crate::server::notify::duplicates_shown(settings.duplicated@),
{
    assert(settings.unknowns@.map_values(|s: String| s@) =~= crate::text::texts(
        settings.unknowns@,
    ));
}

} // verus!
