//! What holds of messages and events, told by what comes with them, what is kept, and
//! what they set off.
use crate::actions::client_requests::response_effects;
use crate::actions::compile_info::{
    compile_info_effects_in, info_read, ConfigFiles,
};
use crate::actions::config_change::lint_config_shown;
use crate::actions::context::{
    ClientCapabilities, CompilationInfo, ContextKey, InitActionContext, UninitActionContext,
    Workspace,
};
use crate::actions::contexts::active_after_check;
use crate::actions::init::{is_initialized, start_effects, ActionContext};
use crate::actions::jobs::{builtins_missed, builtins_warning, lint_triggered};
use crate::actions::analysis::PathKey;
use crate::config::{Config, DeviceContextMode};
use crate::effects::EffectView;
use crate::lint::config::{default_lint_cfg, with_one_indentation};
use crate::path::CanonPath;
use crate::server::caps::{introduction, TextDocumentSyncKind};
use crate::server::lifecycle::{
    found_analysed, initialize_effects, initialize_taken, InitializeParams,
};
use crate::server::message::{IdView, MessageType, ResponseErrorView, StandardError};
use crate::server::methods::{
    method_named, names_are_distinct, BlockingMethod, Method, NotificationMethod, RequestMethod,
};
use crate::server::notify::{
    deprecations_shown, duplicates_listed, duplicates_shown, lint_cfg_read, lint_reading_shown,
    quoted_keys, spelled, unknown_configs_logged, unknown_lint_fields_shown, DeprecatedKey,
    DuplicatedKey, LintCfgReading,
};
use crate::server::service::{
    event_effects, event_outcome, event_read, event_taken, failure_answer, idle_effects, idle_taken,
    imports_analysed, isolated_done_effects, isolated_done_taken, message_effects, message_outcome,
    message_taken, params_effects, params_taken, read_effects, MessageParams, RawMessage,
    ReadOutcome, ServerStateChange, ServerToHandle,
};
use crate::text::{joined, texts};
use vstd::prelude::*;
use vstd::string::*;

verus! {

/// The names that methods go by.
pub proof fn methods_go_by_these_names()
    ensures
        NotificationMethod::Initialized.name() == "initialized"@,
        NotificationMethod::DidOpenTextDocument.name() == "textDocument/didOpen"@,
        NotificationMethod::DidCloseTextDocument.name() == "textDocument/didClose"@,
        NotificationMethod::DidChangeTextDocument.name() == "textDocument/didChange"@,
        NotificationMethod::DidSaveTextDocument.name() == "textDocument/didSave"@,
        NotificationMethod::DidChangeConfiguration.name() == "workspace/didChangeConfiguration"@,
        NotificationMethod::DidChangeWatchedFiles.name() == "workspace/didChangeWatchedFiles"@,
        NotificationMethod::DidChangeWorkspaceFolders.name() == "workspace/didChangeWorkspaceFolders"@,
        NotificationMethod::Cancel.name() == "$/cancelRequest"@,
        NotificationMethod::ChangeActiveContexts.name() == "$/changeActiveContexts"@,
        BlockingMethod::Shutdown.name() == "shutdown"@,
        BlockingMethod::Initialize.name() == "initialize"@,
        RequestMethod::ExecuteCommand.name() == "workspace/executeCommand"@,
        RequestMethod::Formatting.name() == "textDocument/formatting"@,
        RequestMethod::RangeFormatting.name() == "textDocument/rangeFormatting"@,
        RequestMethod::ResolveCompletion.name() == "completionItem/resolve"@,
        RequestMethod::Rename.name() == "textDocument/rename"@,
        RequestMethod::CodeActionRequest.name() == "textDocument/codeAction"@,
        RequestMethod::DocumentHighlightRequest.name() == "textDocument/documentHighlight"@,
        RequestMethod::GotoImplementation.name() == "textDocument/implementation"@,
        RequestMethod::WorkspaceSymbolRequest.name() == "workspace/symbol"@,
        RequestMethod::DocumentSymbolRequest.name() == "textDocument/documentSymbol"@,
        RequestMethod::HoverRequest.name() == "textDocument/hover"@,
        RequestMethod::GotoDefinition.name() == "textDocument/definition"@,
        RequestMethod::GotoDeclaration.name() == "textDocument/declaration"@,
        RequestMethod::References.name() == "textDocument/references"@,
        RequestMethod::Completion.name() == "textDocument/completion"@,
        RequestMethod::CodeLensRequest.name() == "textDocument/codeLens"@,
        RequestMethod::GetKnownContextsRequest.name() == "$/getKnownContexts"@,
{
}

/// A method is known under its name, and under no other.
pub proof fn methods_are_known_by_name(m: Method, name: Seq<char>)
    ensures
        method_named(m.name()) == Some(m),
        method_named(name) == Some(m) ==> m.name() == name,
        (forall|k: Method| #[trigger] k.name() != name) ==> method_named(name) is None,
        m matches Method::Notification(n) ==> m.name() == n.name(),
        m matches Method::Blocking(n) ==> m.name() == n.name(),
        m matches Method::Request(n) ==> m.name() == n.name(),
{
    assert(exists|k: Method| k.name() == m.name());
    names_are_distinct(m, method_named(m.name())->0);
    if method_named(name) == Some(m) {
        assert(exists|k: Method| k.name() == name);
    }
}

/// What the server offers: going to declarations, definitions and implementations,
/// symbols, hovering, incremental changes of open documents, folders that may
/// change, and control over contexts. It offers nothing else.
pub proof fn what_the_server_offers(version: Seq<char>)
    ensures
        introduction(version).name == "DML Language Server"@,
        introduction(version).version == version,
        ({
            let caps = introduction(version).capabilities;
            &&& caps.declaration_provider == Some(true) && caps.definition_provider == Some(true)
            &&& caps.implementation_provider == Some(true) && caps.hover_provider == Some(true)
            &&& caps.document_symbol_provider == Some(true)
            &&& caps.workspace_symbol_provider == Some(true)
            &&& caps.experimental is Some && caps.experimental->0.context_control
            &&& caps.text_document_sync is Some
            &&& caps.text_document_sync->0.open_close == Some(true)
            &&& caps.text_document_sync->0.change == Some(TextDocumentSyncKind::Incremental)
            &&& caps.text_document_sync->0.save == Some(true)
            &&& caps.text_document_sync->0.will_save is None
            &&& caps.text_document_sync->0.will_save_wait_until is None
            &&& caps.workspace is Some && caps.workspace->0.file_operations is None
            &&& caps.workspace->0.workspace_folders is Some
            &&& caps.workspace->0.workspace_folders->0.supported == Some(true)
            &&& caps.workspace->0.workspace_folders->0.change_notifications == Some(true)
            &&& caps.call_hierarchy_provider is None && caps.diagnostic_provider is None
            &&& caps.document_link_provider is None && caps.inlay_hint_provider is None
            &&& caps.inline_value_provider is None && caps.linked_editing_range_provider is None
            &&& caps.moniker_provider is None && caps.position_encoding is None
            &&& caps.semantic_tokens_provider is None && caps.completion_provider is None
            &&& caps.type_definition_provider is None && caps.references_provider is None
            &&& caps.document_highlight_provider is None && caps.code_action_provider is None
            &&& caps.document_formatting_provider is None && caps.execute_command_provider is None
            &&& caps.rename_provider is None && caps.color_provider is None
            &&& caps.document_range_formatting_provider is None && caps.code_lens_provider is None
            &&& caps.document_on_type_formatting_provider is None
            &&& caps.signature_help_provider is None && caps.folding_range_provider is None
            &&& caps.selection_range_provider is None && caps.notebook_document_sync is None
        }),
{
}

/// How unknown configuration keys are logged: in one line, each in back quotes, with
/// a blank behind each, a blank before the first and commas between; and not at all
/// where there are none.
pub proof fn unknown_keys_are_logged(keys: Seq<Seq<char>>, key: Seq<char>)
    ensures
        unknown_configs_logged(Seq::empty()).len() == 0,
        unknown_configs_logged(seq![key]) == seq![
            EffectView::LogWarning {
                message: "Unknown DLS configuration:"@ + (" "@ + "`"@ + key + "` "@),
            },
        ],
        keys.len() > 0 ==> unknown_configs_logged(keys.push(key)).len() == 1
            && unknown_configs_logged(keys).len() == 1 && unknown_configs_logged(keys.push(key))[0]
            is LogWarning && unknown_configs_logged(keys)[0] is LogWarning
            && unknown_configs_logged(keys.push(key))[0]->LogWarning_message
            == unknown_configs_logged(keys)[0]->LogWarning_message + (","@ + "`"@ + key + "` "@),
{
    let one = seq![key];
    assert(quoted_keys(one, 0) =~= Seq::<char>::empty());
    assert(quoted_keys(one, 1) =~= " "@ + "`"@ + key + "` "@);
    if keys.len() > 0 {
        let n = keys.len() as int;
        lemma_quoted_prefix(keys, key, n);
        assert(quoted_keys(keys.push(key), n + 1) =~= quoted_keys(keys, n) + (","@ + "`"@ + key
            + "` "@));
        let head = "Unknown DLS configuration:"@;
        assert(head + quoted_keys(keys.push(key), n + 1) =~= head + quoted_keys(keys, n) + (","@
            + "`"@ + key + "` "@));
    }
}

/// The first keys are quoted alike whatever follows.
proof fn lemma_quoted_prefix(keys: Seq<Seq<char>>, key: Seq<char>, n: int)
    requires
        0 <= n <= keys.len(),
    ensures
        quoted_keys(keys.push(key), n) == quoted_keys(keys, n),
    decreases n,
{
    if n > 0 {
        lemma_quoted_prefix(keys, key, n - 1);
    }
}

/// The user is warned of each deprecated key, in order, with its notice where there
/// is one.
pub proof fn deprecated_keys_are_shown(keys: Seq<DeprecatedKey>, i: int)
    requires
        0 <= i < keys.len(),
    ensures
        deprecations_shown(keys).len() == keys.len(),
        keys[i].notice is None ==> deprecations_shown(keys)[i] == (EffectView::ShowMessage {
            typ: MessageType::Warning,
            message: "DLS configuration option `"@ + keys[i].key@ + "` is deprecated"@,
        }),
        keys[i].notice is Some ==> deprecations_shown(keys)[i] == (EffectView::ShowMessage {
            typ: MessageType::Warning,
            message: "DLS configuration option `"@ + keys[i].key@ + "` is deprecated"@ + (": "@
                + keys[i].notice->0@),
        }),
{
    let start = "DLS configuration option `"@ + keys[i].key@ + "` is deprecated"@;
    assert(start + Seq::<char>::empty() =~= start);
}

/// The user is warned once of all duplicated keys, each with the ways in which it
/// was written, if there are any.
pub proof fn duplicated_keys_are_shown(dups: Seq<DuplicatedKey>, n: int)
    ensures
        dups.len() == 0 ==> duplicates_shown(dups).len() == 0,
        dups.len() > 0 ==> duplicates_shown(dups) == seq![
            EffectView::ShowMessage {
                typ: MessageType::Warning,
                message: "Duplicated DLS configuration: "@ + duplicates_listed(
                    dups,
                    dups.len() as int,
                ),
            },
        ],
        duplicates_listed(dups, 0).len() == 0,
        0 <= n < dups.len() ==> duplicates_listed(dups, n + 1) == duplicates_listed(dups, n)
            + dups[n].key@ + ":"@ + spelled(
            dups[n].spellings@.map_values(|s: String| s@),
            dups[n].spellings@.len() as int,
        ) + "; "@,
{
    if 0 <= n < dups.len() {
        assert(dups[n].spellings@.map_values(|s: String| s@) =~= texts(dups[n].spellings@));
    }
}

/// How the spellings of a key are written: each with a comma and a blank behind it, a
/// blank before the first and a comma before each other one.
pub proof fn spellings_are_listed(spellings: Seq<Seq<char>>, n: int)
    requires
        0 <= n < spellings.len(),
    ensures
        spelled(spellings, 0).len() == 0,
        n == 0 ==> spelled(spellings, 1) == " "@ + spellings[0] + ", "@,
        n > 0 ==> spelled(spellings, n + 1) == spelled(spellings, n) + ","@ + spellings[n] + ", "@,
{
    if n == 0 {
        assert(spelled(spellings, 0) =~= Seq::<char>::empty());
        assert(spelled(spellings, 1) =~= " "@ + spellings[0] + ", "@);
    }
}

/// The user gets one error message that lists the fields of the lint configuration
/// that nothing knows, in the singular for one and in the plural for more; and none
/// where there are none, or where it could not be read.
pub proof fn unknown_lint_fields_are_shown(reading: LintCfgReading, unknowns: Seq<Seq<char>>)
    ensures
        unknowns.len() == 0 ==> unknown_lint_fields_shown(unknowns).len() == 0,
        unknowns.len() == 1 ==> unknown_lint_fields_shown(unknowns) == seq![
            EffectView::ShowMessage {
                typ: MessageType::Error,
                message: "Unknown lint configuration field"@ + ""@ + ": "@ + unknowns[0]
                    + ". These will be ignored."@,
            },
        ],
        unknowns.len() > 1 ==> unknown_lint_fields_shown(unknowns) == seq![
            EffectView::ShowMessage {
                typ: MessageType::Error,
                message: "Unknown lint configuration field"@ + "s"@ + ": "@ + joined(
                    unknowns,
                    ", "@,
                ) + ". These will be ignored."@,
            },
        ],
        reading is Err ==> lint_reading_shown(reading).len() == 0 && lint_cfg_read(reading) is None,
        reading is Ok ==> lint_reading_shown(reading) == unknown_lint_fields_shown(
            reading->Ok_0.1@.map_values(|s: String| s@),
        ) && lint_cfg_read(reading) == Some(with_one_indentation(reading->Ok_0.0)),
{
    if reading is Ok {
        assert(reading->Ok_0.1@.map_values(|s: String| s@) =~= texts(reading->Ok_0.1@));
    }
}

/// Where the server stands once it has been initialized: under the client's settings,
/// or its own configuration where there are none, with nothing open, nothing under
/// way, no context active, and nothing to be answered.
pub proof fn the_server_starts_afresh(
    ctx: InitActionContext,
    uninit: UninitActionContext,
    settings: Option<Config>,
    capabilities: ClientCapabilities,
    files: ConfigFiles,
    k: PathKey,
)
    requires
        is_initialized(ctx, uninit, settings, capabilities, files),
    ensures
        settings is Some ==> ctx.config@ == settings->0@,
        settings is None ==> ctx.config@ == uninit.config@,
        ctx.analysis == uninit.analysis,
        ctx.client_capabilities == capabilities,
        ctx.pid == uninit.pid,
        ctx.implicit_imports@.map_values(|s: String| s@) == uninit.implicit_imports@.map_values(
            |s: String| s@,
        ),
        !ctx.shut_down,
        !ctx.quiescent,
        !ctx.has_notified_missing_builtins,
        ctx.current_notifier is None,
        !ctx.direct_opens@.contains(k),
        !ctx.prev_changes@.contains_key(k),
        !ctx.device_active_contexts@.contains(ContextKey::Device(k)),
        !ctx.device_active_contexts@.contains(ContextKey::Simulated(k)),
        !ctx.previously_checked_contexts@.contains(ContextKey::Device(k)),
        !ctx.analysis_queue.isolated_jobs@.contains(k),
        !ctx.analysis_queue.device_jobs@.contains(k),
        !ctx.analysis_queue.lint_jobs@.contains(k),
        ctx.active_waits@.len() == 0,
        forall|id: IdView| !#[trigger] ctx.outstanding_requests@.contains_key(id),
        ctx.config.compile_info_path is Some && files.compile_info.commands is Ok ==> info_read(
            ctx.compilation_info,
            files.compile_info.commands->Ok_0@,
        ),
        ctx.config.compile_info_path is None || files.compile_info.commands is Err
            ==> !ctx.compilation_info@.contains_key(k),
        ctx.config.lint_cfg_path is None || files.lint_cfg is Err ==> ctx.lint_config
            == default_lint_cfg(),
        ctx.config.lint_cfg_path is Some && files.lint_cfg is Ok ==> ctx.lint_config
            == with_one_indentation(files.lint_cfg->Ok_0.0),
{
    assert(ctx.implicit_imports@.map_values(|s: String| s@) =~= texts(ctx.implicit_imports@));
    assert(uninit.implicit_imports@.map_values(|s: String| s@) =~= texts(uninit.implicit_imports@));
}

/// The folders that the server starts with: those that the client names; where it
/// names none, its root, under the name `root`; and else none.
pub proof fn folders_at_the_start(params: InitializeParams, folders: Seq<Workspace>)
    requires
        params.names_folders(folders),
    ensures
        params.workspace_folders is Some ==> folders == params.workspace_folders->0@,
        params.workspace_folders is None && params.root_uri is Some ==> folders.len() == 1
            && folders[0].uri@ == params.root_uri->0.uri@ && folders[0].name@ == "root"@
            && folders[0].path == params.root_uri->0.path,
        params.workspace_folders is None && params.root_uri is None ==> folders.len() == 0,
{
}

/// What initializing sets off, in order: the answer; what is told about the settings,
/// unknown keys before deprecated ones before duplicated ones; what taking over the
/// files sets off that the configuration names, with no folders known; and last that
/// the files are looked for that every file imports, in the folders known by then.
pub proof fn initializing_goes_step_by_step(
    id: IdView,
    params: InitializeParams,
    version: Seq<char>,
    after: InitActionContext,
)
    ensures
        ({
            let all = initialize_effects(id, params, version, after);
            let shown = unknown_configs_logged(params.unknowns@.map_values(|s: String| s@))
                + deprecations_shown(params.deprecated@) + duplicates_shown(params.duplicated@);
            let taken = start_effects(after, params.files);
            &&& all.len() == 1 + shown.len() + taken.len() + 1
            &&& all.subrange(1, 1 + shown.len() as int) == shown
            &&& all.subrange(1 + shown.len() as int, 1 + shown.len() as int + taken.len() as int) == taken
            &&& all.last() is AnalyzeBuiltins
            &&& all.last()->AnalyzeBuiltins_files == after.implicit_imports@.map_values(
                |s: String| s@,
            )
            &&& all.last()->AnalyzeBuiltins_resolver.paths == after.workspace_roots@.map_values(
                |w: Workspace| w.path->0@,
            )
            &&& all.last()->AnalyzeBuiltins_resolver.include_paths
                == after.compilation_info.entries().map_values(
                |e: (CanonPath, CompilationInfo)| (e.0@, e.1.include_paths.views()),
            )
            &&& after.config.compile_info_path is None ==> taken == lint_config_shown(
                after,
                params.files.lint_cfg,
            )
            &&& after.config.compile_info_path is Some ==> taken == compile_info_effects_in(
                after.client_capabilities.root,
                Seq::empty(),
                params.files.compile_info,
                after.compilation_info,
            ) + lint_config_shown(after, params.files.lint_cfg)
        }),
{
    let all = initialize_effects(id, params, version, after);
    let shown = params.settings_shown();
    let taken = start_effects(after, params.files);
    assert(params.unknowns@.map_values(|s: String| s@) =~= texts(params.unknowns@));
    assert(all.subrange(1, 1 + shown.len() as int) =~= shown);
    assert(all.subrange(1 + shown.len() as int, 1 + shown.len() as int + taken.len() as int) =~= taken);
    assert(after.implicit_imports@.map_values(|s: String| s@) =~= texts(after.implicit_imports@));
    assert(all.last()->AnalyzeBuiltins_resolver.paths =~= after.workspace_roots@.map_values(
        |w: Workspace| w.path->0@,
    ));
    assert(all.last()->AnalyzeBuiltins_resolver.include_paths
        =~= after.compilation_info.entries().map_values(
        |e: (CanonPath, CompilationInfo)| (e.0@, e.1.include_paths.views()),
    ));
    if after.config.compile_info_path is None {
        assert(taken =~= lint_config_shown(after, params.files.lint_cfg));
    }
}

/// Files that were found are analysed on no context, in order; those that were not
/// are passed over.
pub proof fn found_files_are_analysed(found: Seq<Option<CanonPath>>, n: int)
    requires
        0 <= n < found.len(),
    ensures
        found_analysed(found, 0).len() == 0,
        found[n] is Some ==> found_analysed(found, n + 1) == found_analysed(found, n).push(
            EffectView::IsolatedAnalyze { path: found[n]->0@, context: None },
        ),
        found[n] is None ==> found_analysed(found, n + 1) == found_analysed(found, n),
{
    if found[n] is Some {
        assert(found_analysed(found, n + 1) =~= found_analysed(found, n).push(
            EffectView::IsolatedAnalyze { path: found[n]->0@, context: None },
        ));
    } else {
        assert(found_analysed(found, n + 1) =~= found_analysed(found, n));
    }
}

/// Imports that were found are analysed under the context given, in order; those that
/// were not are passed over.
pub proof fn found_imports_are_analysed(
    imports: Seq<Option<CanonPath>>,
    context: Option<CanonPath>,
    n: int,
)
    requires
        0 <= n < imports.len(),
    ensures
        imports_analysed(imports, context, 0).len() == 0,
        imports[n] is None ==> imports_analysed(imports, context, n + 1) == imports_analysed(
            imports,
            context,
            n,
        ),
        imports[n] is Some && context is None ==> imports_analysed(imports, context, n + 1)
            == imports_analysed(imports, context, n).push(
            EffectView::IsolatedAnalyze { path: imports[n]->0@, context: None },
        ),
        imports[n] is Some && context is Some ==> imports_analysed(imports, context, n + 1)
            == imports_analysed(imports, context, n).push(
            EffectView::IsolatedAnalyze { path: imports[n]->0@, context: Some(context->0@) },
        ),
{
    let before = imports_analysed(imports, context, n);
    let now = imports_analysed(imports, context, n + 1);
    if imports[n] is None {
        assert(now =~= before);
    } else if context is None {
        assert(now =~= before.push(
            EffectView::IsolatedAnalyze { path: imports[n]->0@, context: None },
        ));
    } else {
        assert(now =~= before.push(
            EffectView::IsolatedAnalyze { path: imports[n]->0@, context: Some(context->0@) },
        ));
    }
}

/// The end of the analysis of a file: errors are reported first; then, unless imports
/// are left alone, its imports are analysed and the devices that depend on it; then it
/// is linted if it is to be; waits are looked at last.
pub proof fn the_end_of_an_analysis(
    ctx: InitActionContext,
    path: CanonPath,
    context: Option<CanonPath>,
    imports: Seq<Option<CanonPath>>,
)
    ensures
        ({
            let all = isolated_done_effects(ctx, path, context, imports);
            let own = imports_analysed(imports, context, imports.len() as int);
            let lint = lint_triggered(ctx, path@, path@.components);
            &&& all[0] is ReportErrors
            &&& all.last() is CheckStateWaits
            &&& ctx.config.suppress_imports ==> all.len() == 2 + lint.len() && all.subrange(
                1,
                1 + lint.len() as int,
            ) == lint
            &&& !ctx.config.suppress_imports ==> {
                &&& all.len() == 3 + own.len() + lint.len()
                &&& all.subrange(1, 1 + own.len() as int) == own
                &&& all[1 + own.len() as int] == (EffectView::TriggerDeviceAnalysis { path: path@ })
                &&& all.subrange(2 + own.len() as int, 2 + own.len() as int + lint.len() as int) == lint
            }
        }),
{
    let all = isolated_done_effects(ctx, path, context, imports);
    let own = imports_analysed(imports, context, imports.len() as int);
    let lint = lint_triggered(ctx, path@, path@.components);
    if ctx.config.suppress_imports {
        assert(all.subrange(1, 1 + lint.len() as int) =~= lint);
    } else {
        assert(all.subrange(1, 1 + own.len() as int) =~= own);
        assert(all.subrange(2 + own.len() as int, 2 + own.len() as int + lint.len() as int) =~= lint);
    }
}

/// The end of the analysis of a file has it checked whether the file becomes an active
/// context if it declares a device, unless that waits until its dependencies are
/// known; and changes nothing else.
pub proof fn devices_are_checked_early(
    before: InitActionContext,
    after: InitActionContext,
    path: CanonPath,
)
    requires
        isolated_done_taken(before, after, path),
    ensures
        ({
            let k = path@.components;
            let early = before.analysis.isolated_analysis@.contains_key(k)
                && before.analysis.isolated_analysis@[k].is_device_file
                && before.config.new_device_context_mode != DeviceContextMode::First;
            &&& early ==> after.device_active_contexts@ == active_after_check(before, k)
                && after.previously_checked_contexts@.contains(ContextKey::Device(k))
            &&& !early ==> after == before
        }),
        after.config == before.config,
        after.direct_opens == before.direct_opens,
        after.active_waits == before.active_waits,
{
}

/// The other events: the end of the analysis of a device has errors reported and waits
/// looked at, the end of linting has errors reported, a request for an analysis has
/// the file analysed under its context unless imports are left alone; a word to end
/// ends the server with its code. Nothing happens before initialization, and only
/// messages and the word to end can end the server.
pub proof fn events_set_off_what_they_should(
    ctx: InitActionContext,
    uninit: UninitActionContext,
    after: ActionContext,
    version: Seq<char>,
    event: ServerToHandle,
)
    ensures
        event is DeviceAnalysisDone ==> event_effects(
            ActionContext::Init(ctx),
            after,
            version,
            event,
        ) == seq![EffectView::ReportErrors, EffectView::CheckStateWaits],
        event is LinterDone ==> event_effects(ActionContext::Init(ctx), after, version, event)
            == seq![EffectView::ReportErrors],
        event is AnalysisRequest && !ctx.config.suppress_imports ==> event_effects(
            ActionContext::Init(ctx),
            after,
            version,
            event,
        ).len() == 1 && event_effects(ActionContext::Init(ctx), after, version, event)[0]
            is IsolatedAnalyze && event_effects(
            ActionContext::Init(ctx),
            after,
            version,
            event,
        )[0]->IsolatedAnalyze_path == event->AnalysisRequest_0@ && (event_effects(
            ActionContext::Init(ctx),
            after,
            version,
            event,
        )[0]->IsolatedAnalyze_context is Some <==> event->AnalysisRequest_1 is Some),
        event is ClientResponse ==> event_effects(ActionContext::Init(ctx), after, version, event)
            == response_effects(ctx.outstanding_requests@, event->ClientResponse_0@),
        event is IsolatedAnalysisDone ==> event_effects(
            ActionContext::Init(ctx),
            after,
            version,
            event,
        ) == isolated_done_effects(
            ctx,
            event->IsolatedAnalysisDone_0,
            event->IsolatedAnalysisDone_1,
            event->IsolatedAnalysisDone_2@,
        ),
        !(event is ClientMessage) ==> event_effects(
            ActionContext::Uninit(uninit),
            after,
            version,
            event,
        ).len() == 0,
        event is ExitCode ==> event_outcome(after, event) == (ServerStateChange::Break {
            exit_code: event->ExitCode_0,
        }),
        !(event is ClientMessage) && !(event is ExitCode) ==> event_outcome(after, event)
            is Continue,
        event is ClientMessage ==> event_outcome(after, event) == message_outcome(
            after,
            event->ClientMessage_0,
        ),
        !(event is ClientMessage) && event_taken(ActionContext::Uninit(uninit), after, event)
            ==> after == ActionContext::Uninit(uninit),
        (event is DeviceAnalysisDone || event is LinterDone || event is AnalysisRequest || event
            is ExitCode) && event_taken(ActionContext::Init(ctx), after, event) ==> after
            == ActionContext::Init(ctx),
{
}

/// How messages end the server: `exit` does, with code 0 in a server that was
/// initialized and asked to shut down, and else with code 1; parameters that are none
/// of a known method do, with code 101, unless the server was asked to shut down; no
/// other message does.
pub proof fn messages_end_the_server(ctx: ActionContext, msg: RawMessage)
    ensures
        ({
            let shut = ctx is Init && ctx->Init_0.shut_down;
            let known = exists|m: Method| #[trigger] m.name() == msg.method@;
            &&& msg.method@ == "exit"@ && shut ==> message_outcome(ctx, msg) == (
            ServerStateChange::Break { exit_code: 0 })
            &&& msg.method@ == "exit"@ && !shut ==> message_outcome(ctx, msg) == (
            ServerStateChange::Break { exit_code: 1 })
            &&& msg.method@ != "exit"@ && !shut && known && msg.params is Err ==> message_outcome(
                ctx,
                msg,
            ) == (ServerStateChange::Break { exit_code: 101 })
            &&& msg.method@ != "exit"@ && (shut || !known || msg.params is Ok) ==> message_outcome(
                ctx,
                msg,
            ) is Continue
        }),
{
}

/// What is answered to parameters that are none, and what happens on methods that are
/// not known and in a server that was asked to shut down: nothing.
pub proof fn malformed_and_unknown_messages(
    before: ActionContext,
    after: ActionContext,
    version: Seq<char>,
    msg: RawMessage,
)
    requires
        message_taken(before, after, msg),
    ensures
        ({
            let shut = before is Init && before->Init_0.shut_down;
            let known = exists|m: Method| #[trigger] m.name() == msg.method@;
            let effects = message_effects(before, after, version, msg);
            &&& msg.method@ == "exit"@ || shut || !known ==> effects.len() == 0 && after == before
            &&& msg.method@ != "exit"@ && !shut && known && msg.params is Err ==> after == before
                && effects == seq![
                EffectView::CustomFailure {
                    id: msg.id@,
                    error: StandardError::InternalError,
                    message: msg.params->Err_0@,
                },
            ]
            &&& msg.method@ != "exit"@ && !shut && known && msg.params is Ok ==> effects
                == params_effects(before, after, version, msg.id@, msg.params->Ok_0)
                && params_taken(before, after, msg.params->Ok_0)
        }),
{
}

/// What parameters do that belong to their method, by what they are and whether the
/// server has been initialized.
pub proof fn parameters_do_what_they_should(
    ctx: InitActionContext,
    uninit: UninitActionContext,
    after: ActionContext,
    version: Seq<char>,
    id: IdView,
    params: MessageParams,
)
    ensures
        params is Request ==> params_effects(
            ActionContext::Init(ctx),
            after,
            version,
            id,
            params,
        ) == seq![EffectView::Dispatch { id, request: params->Request_0 }],
        params is Shutdown ==> params_effects(ActionContext::Init(ctx), after, version, id, params)
            == seq![EffectView::WaitForJobs, EffectView::RespondAck { id }],
        params is Shutdown && params_taken(ActionContext::Init(ctx), after, params) ==> after is Init
            && after->Init_0.shut_down && after->Init_0.config == ctx.config,
        params is Request && params_taken(ActionContext::Init(ctx), after, params) ==> after
            == ActionContext::Init(ctx),
        params is Notification ==> params_effects(
            ActionContext::Init(ctx),
            after,
            version,
            id,
            params,
        ) == params->Notification_0.effects(ctx, after->Init_0),
        params is Notification && params_taken(ActionContext::Init(ctx), after, params) ==> after
            is Init && params->Notification_0.taken(ctx, after->Init_0),
        params is Initialize && params_taken(ActionContext::Uninit(uninit), after, params)
            ==> after is Init && initialize_taken(uninit, after->Init_0, params->Initialize_0)
            && params_effects(ActionContext::Uninit(uninit), after, version, id, params)
            == initialize_effects(id, params->Initialize_0, version, after->Init_0),
{
}

/// A request that was not served is answered with its code and message, or, where
/// there is nothing to say, with an internal error.
pub proof fn failures_are_answered(id: IdView, code: i32, message: Seq<char>)
    ensures
        failure_answer(id, ResponseErrorView::Message(code, message)) == (
        EffectView::FailureMessage { id, code, message }),
        failure_answer(id, ResponseErrorView::Empty) == (EffectView::CustomFailure {
            id,
            error: StandardError::InternalError,
            message: "Empty response"@,
        }),
{
}

/// What was read becomes what it is; where nothing could be read, or no message, the
/// client is told and the server is to end with code 101.
pub proof fn what_was_read_is_handled(read: ReadOutcome)
    ensures
        read is Message ==> event_read(read) == ServerToHandle::ClientMessage(read->Message_0)
            && read_effects(read).len() == 0,
        read is Response ==> event_read(read) == ServerToHandle::ClientResponse(read->Response_0)
            && read_effects(read).len() == 0,
        read is Nothing || read is Malformed ==> event_read(read) == ServerToHandle::ExitCode(
            101i32,
        ) && read_effects(read).len() == 1,
        read is Nothing ==> read_effects(read)[0] == (EffectView::CustomFailure {
            id: IdView::Null,
            error: StandardError::ParseError,
            message: "Cannot read message"@,
        }),
        read is Malformed ==> read_effects(read)[0] == (EffectView::CustomFailure {
            id: IdView::Null,
            error: StandardError::ParseError,
            message: read->Malformed_0@,
        }),
{
}

/// What having nothing to do sets off: if nothing is under way and a progress report
/// goes on, it is ended, and the user is told if the built-in file is missed; and old
/// analyses are dropped where they are not kept for ever.
pub proof fn having_nothing_to_do(before: InitActionContext, after: InitActionContext)
    requires
        idle_taken(before, after),
    ensures
        ({
            let idle = (forall|k: PathKey|
                !#[trigger] before.analysis_queue.isolated_jobs@.contains(k)) && (forall|k: PathKey|
                !#[trigger] before.analysis_queue.device_jobs@.contains(k)) && (forall|k: PathKey|
                !#[trigger] before.analysis_queue.lint_jobs@.contains(k));
            let effects = idle_effects(before);
            &&& idle && before.current_notifier is Some ==> after.current_notifier is None
                && effects[0] == (EffectView::EndProgress {
                id: before.current_notifier->0@,
                title: "Analysing"@,
            }) && (builtins_missed(before) ==> effects[1] == builtins_warning()
                && after.has_notified_missing_builtins)
            &&& !(idle && before.current_notifier is Some) ==> after == before
            &&& before.config.analysis_retain_duration is Some ==> effects.last() == (
            EffectView::DiscardOldAnalysis {
                seconds: before.config.analysis_retain_duration->0,
            })
            &&& effects.len() == (if idle && before.current_notifier is Some {
                if builtins_missed(before) {
                    2int
                } else {
                    1int
                }
            } else {
                0int
            }) + (if before.config.analysis_retain_duration is Some {
                1int
            } else {
                0int
            })
        }),
        after.config == before.config,
        after.direct_opens == before.direct_opens,
{
    let queue = before.analysis_queue;
    if forall|k: PathKey| !#[trigger] queue.isolated_jobs@.contains(k) {
        assert(queue.isolated_jobs@ =~= Set::<PathKey>::empty());
    }
    if forall|k: PathKey| !#[trigger] queue.device_jobs@.contains(k) {
        assert(queue.device_jobs@ =~= Set::<PathKey>::empty());
    }
    if forall|k: PathKey| !#[trigger] queue.lint_jobs@.contains(k) {
        assert(queue.lint_jobs@ =~= Set::<PathKey>::empty());
    }
}

/// Parameters belong to one method each.
pub proof fn parameters_belong_to_their_method(params: MessageParams)
    ensures
        params is Shutdown ==> params.method().name() == "shutdown"@,
        params is Initialize ==> params.method().name() == "initialize"@,
        params is Request ==> params.method() == Method::Request(params->Request_0),
        params is Notification ==> params.method() == Method::Notification(
            params->Notification_0.method(),
        ),
{
}

/// After the `initialize` request the server has been initialized under what came with it,
/// in the folders that the client names.
pub proof fn the_server_is_initialized_as_asked(
    uninit: UninitActionContext,
    after: InitActionContext,
    params: InitializeParams,
)
    requires
        initialize_taken(uninit, after, params),
    ensures
        params.names_folders(after.workspace_roots@),
        is_initialized(
            after,
            uninit,
            params.options.settings,
            params.capabilities,
            params.files,
        ),
{
}

} // verus!
