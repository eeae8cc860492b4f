use dls::actions::analysis::{AnalysisStorage, IsolatedInfo};
use dls::actions::compile_info::{CompileCommand, CompileInfoReading, ConfigFiles};
use dls::actions::context::{ClientCapabilities, ContextDefinition, InitActionContext, Workspace};
use dls::actions::file_watch::{FileChangeType, FileEvent};
use dls::actions::init::{ActionContext, InitError, InitializationOptions};
use dls::actions::notifications::{
    ChangeActiveContexts, ChangeActiveContextsParams, ConfigSettings, ContentChange,
    ContextDefinitionKindParam, ContextUri, DidChangeConfiguration, DidChangeTextDocument,
    DidChangeWatchedFiles, DidChangeWorkspaceFolders, DidCloseTextDocument, DidOpenTextDocument,
    DidSaveTextDocument, FileRef, Initialized, NotificationParams, SettingsShape,
};
use dls::collections::VecSet;
use dls::config::{Config, DeviceContextMode};
use dls::effects::{Change, Effect, Outbox};
use dls::errors::{DocumentPosition, DocumentRange};
use dls::lint::config::LintCfg;
use dls::path::FilePath;
use dls::server::caps::{server_caps, ExperimentalFeatures, TextDocumentSyncKind};
use dls::server::lifecycle::{analyze_found, InitializeParams, RootUri, NOT_INITIALIZED_CODE};
use dls::server::message::{
    ClientRequest, ClientRequestKind, MessageType, RequestId, ResponseError, StandardError,
};
use dls::server::methods::{BlockingMethod, Method, NotificationMethod, RequestMethod};
use dls::server::notify::{
    info_message, maybe_notify_deprecated_configs, maybe_notify_duplicated_configs,
    maybe_notify_unknown_configs, maybe_parse_lint_cfg, DeprecatedKey, DuplicatedKey,
};
use dls::server::service::{
    answer_failure, handle_read, LsService, MessageParams, RawMessage, ReadOutcome,
    ServerStateChange, ServerToHandle,
};
use lsp_types::notification;
use lsp_types::notification::Notification as LspNotification;
use lsp_types::request;
use lsp_types::request::Request as LspRequest;

fn path(text: &str) -> FilePath {
    let mut components: Vec<String> = Vec::new();
    if text.starts_with('/') {
        components.push("/".to_string());
    }
    for part in text.split('/') {
        if !part.is_empty() {
            components.push(part.to_string());
        }
    }
    FilePath::new(text.to_string(), components)
}

fn config() -> Config {
    Config {
        compile_info_path: None,
        lint_cfg_path: None,
        linting_enabled: true,
        suppress_imports: false,
        lint_direct_only: false,
        analyse_on_save: false,
        new_device_context_mode: DeviceContextMode::AnyNew,
        analysis_retain_duration: None,
    }
}

fn capabilities() -> ClientCapabilities {
    ClientCapabilities { root: None, did_change_configuration: (false, false), configuration: false }
}

fn context(config: Config) -> InitActionContext {
    InitActionContext::new(
        AnalysisStorage::init(), config, capabilities(), 7,
        vec!["dml-builtins.dml".to_string()])
}

fn files() -> ConfigFiles {
    ConfigFiles {
        compile_info: CompileInfoReading { canon_path: None, commands: Ok(vec![]) },
        lint_cfg: Ok((LintCfg::default(), vec![])),
    }
}

fn file(text: &str) -> Option<FileRef> {
    Some(FileRef { path: path(text), canon_path: path(&format!("/real{}", text)) })
}

fn shown(effect: &Effect) -> (MessageType, &str) {
    match effect {
        Effect::ShowMessage { typ, message } => (*typ, message.as_str()),
        _ => panic!("not a message"),
    }
}

fn kinds(out: &Outbox) -> Vec<&'static str> {
    out.effects.iter().map(|e| match e {
        Effect::ShowMessage { .. } => "message",
        Effect::LogWarning { .. } => "log",
        Effect::ReportErrors => "report",
        Effect::IsolatedAnalyze { .. } => "analyze",
        Effect::AnalyzeBuiltins { .. } => "builtins",
        Effect::TriggerDeviceAnalysis { .. } => "trigger",
        Effect::LintAnalyze { .. } => "lint",
        Effect::CheckStateWaits => "waits",
        Effect::SetFile { .. } => "set",
        Effect::ChangeFiles { .. } => "change",
        Effect::FileSaved { .. } => "saved",
        Effect::MarkFileDirty { .. } => "dirty",
        Effect::DiscardOldAnalysis { .. } => "discard",
        Effect::WaitForJobs => "jobs",
        Effect::SendRequest { .. } => "send",
        Effect::HandleResponse { .. } => "response",
        Effect::RespondInitialize { .. } => "initialized",
        Effect::RespondAck { .. } => "ack",
        Effect::CustomFailure { .. } => "failure",
        Effect::FailureMessage { .. } => "refusal",
        Effect::Dispatch { .. } => "dispatch",
        Effect::UpdateContextDependencies { .. } => "dependencies",
        Effect::EndProgress { .. } => "end",
        _ => "other",
    }).collect()
}

fn initialize_params() -> InitializeParams {
    InitializeParams {
        options: InitializationOptions { settings: None, cmd_run: false },
        unknowns: vec![],
        deprecated: vec![],
        duplicated: vec![],
        capabilities: capabilities(),
        workspace_folders: None,
        root_uri: None,
        files: files(),
    }
}

fn service() -> LsService {
    LsService::new(config(), 7, vec!["dml-builtins.dml".to_string()], "0.9".to_string())
}

fn message(id: u64, method: &str, params: MessageParams) -> RawMessage {
    RawMessage { id: RequestId::Num(id), method: method.to_string(), params: Ok(params) }
}

fn send(service: &mut LsService, message: RawMessage) -> (ServerStateChange, Outbox) {
    let mut out = Outbox::new();
    let change = service.handle_message(message, &mut out);
    (change, out)
}

fn initialized() -> LsService {
    let mut service = service();
    let (change, _) = send(
        &mut service, message(1, "initialize", MessageParams::Initialize(initialize_params())));
    assert_eq!(change, ServerStateChange::Continue);
    service
}

fn inited(service: &mut LsService) -> &mut InitActionContext {
    match &mut service.ctx {
        ActionContext::Init(ctx) => ctx,
        ActionContext::Uninit(_) => panic!("not initialized"),
    }
}

#[test]
fn initialized_registers() {
    let mut ctx = context(config());
    let mut out = Outbox::new();
    assert!(Initialized::handle(RequestId::Num(1), RequestId::Num(2), &mut ctx, &mut out).is_ok());
    assert_eq!(out.effects.len(), 1);
    match &out.effects[0] {
        Effect::SendRequest {
            id: RequestId::Num(2),
            request: ClientRequest::RegisterCapability { id, method, register_options },
        } => {
            assert_eq!(id, "dls-watch");
            assert_eq!(method, "workspace/didChangeWatchedFiles");
            assert!(register_options.is_none());
        }
        _ => panic!("no registration"),
    }
    ctx.client_capabilities.did_change_configuration = (true, true);
    ctx.client_capabilities.configuration = true;
    ctx.config.compile_info_path = Some(path("/w/info.json"));
    let mut out = Outbox::new();
    assert!(Initialized::handle(RequestId::Num(3), RequestId::Num(4), &mut ctx, &mut out).is_ok());
    assert_eq!(out.effects.len(), 2);
    match (&out.effects[0], &out.effects[1]) {
        (Effect::SendRequest {
            id: RequestId::Num(3),
            request: ClientRequest::RegisterCapability { id, method, register_options: None },
        },
         Effect::SendRequest {
            id: RequestId::Num(4),
            request: ClientRequest::RegisterCapability { register_options: Some(options), .. },
        }) => {
            assert_eq!(id, "dls-config");
            assert_eq!(method, "workspace/didChangeConfiguration");
            assert_eq!(options.watchers[0].glob_pattern, "/w/info.json");
        }
        _ => panic!("no registrations"),
    }
    assert_eq!(ctx.outstanding_requests.len(), 3);
    // Neither capability is enough alone.
    for (told, registers, pulls) in [(true, false, true), (false, true, true), (true, true, false)] {
        ctx.client_capabilities.did_change_configuration = (told, registers);
        ctx.client_capabilities.configuration = pulls;
        let mut out = Outbox::new();
        assert!(Initialized::handle(
            RequestId::Num(5), RequestId::Num(6), &mut ctx, &mut out).is_ok());
        assert_eq!(out.effects.len(), 1);
    }
}

#[test]
fn responses_are_handed_on_once() {
    let mut ctx = context(config());
    let mut out = Outbox::new();
    ctx.send_request(RequestId::Str("x".to_string()),
                     ClientRequest::WorkspaceConfiguration { section: "s".to_string() }, &mut out);
    let mut out = Outbox::new();
    ctx.handle_request_response(&RequestId::Num(1), &mut out);
    assert!(out.effects.is_empty());
    ctx.handle_request_response(&RequestId::Str("x".to_string()), &mut out);
    assert!(matches!(&out.effects[0],
                     Effect::HandleResponse { kind: ClientRequestKind::WorkspaceConfiguration, .. }));
    ctx.handle_request_response(&RequestId::Str("x".to_string()), &mut out);
    assert_eq!(out.effects.len(), 1);
}

#[test]
fn opening_and_closing() {
    let mut ctx = context(config());
    ctx.check_change_version(&path("/a.dml"), 9);
    let mut out = Outbox::new();
    assert!(DidOpenTextDocument::handle(&file("/a.dml"), "text", &mut ctx, &mut out).is_ok());
    assert_eq!(kinds(&out), vec!["set", "analyze", "report"]);
    assert!(matches!(&out.effects[0],
                     Effect::SetFile { path, text } if path.text == "/a.dml" && text == "text"));
    assert!(ctx.direct_opens.contains(&path("/real/a.dml")));
    assert!(ctx.prev_changes.is_empty());
    let mut out = Outbox::new();
    assert!(DidCloseTextDocument::handle(&file("/a.dml"), &mut ctx, &mut out).is_ok());
    assert_eq!(kinds(&out), vec!["report"]);
    assert!(ctx.direct_opens.is_empty());
    // The others stay open, in their order.
    for text in ["/b.dml", "/c.dml", "/d.dml"] {
        ctx.add_direct_open(&path(text));
    }
    let closing = Some(FileRef { path: path("c.dml"), canon_path: path("/c.dml") });
    assert!(DidCloseTextDocument::handle(&closing, &mut ctx, &mut out).is_ok());
    let left: Vec<&str> = ctx.direct_opens.as_vec().iter().map(|p| p.text.as_str()).collect();
    assert_eq!(left, vec!["/b.dml", "/d.dml"]);
    // Analysis may wait until the file is saved.
    ctx.config.analyse_on_save = true;
    let mut out = Outbox::new();
    assert!(DidOpenTextDocument::handle(&file("/a.dml"), "text", &mut ctx, &mut out).is_ok());
    assert_eq!(kinds(&out), vec!["set", "report"]);
    let mut out = Outbox::new();
    assert!(DidSaveTextDocument::handle(&Some(path("/a.dml")), &mut ctx, &mut out).is_ok());
    assert_eq!(kinds(&out), vec!["saved", "analyze"]);
    ctx.config.analyse_on_save = false;
    let mut out = Outbox::new();
    assert!(DidSaveTextDocument::handle(&Some(path("/a.dml")), &mut ctx, &mut out).is_ok());
    assert_eq!(kinds(&out), vec!["saved"]);
}

#[test]
fn documents_that_are_no_files() {
    let mut ctx = context(config());
    let mut out = Outbox::new();
    assert!(matches!(DidOpenTextDocument::handle(&None, "", &mut ctx, &mut out),
                     Err(ResponseError::Empty)));
    assert!(matches!(DidCloseTextDocument::handle(&None, &mut ctx, &mut out),
                     Err(ResponseError::Empty)));
    assert!(matches!(DidSaveTextDocument::handle(&None, &mut ctx, &mut out),
                     Err(ResponseError::Empty)));
    let change = ContentChange { range: None, range_length: None, text: String::new() };
    ctx.quiescent = true;
    assert!(DidChangeTextDocument::handle(&None, 1, &vec![], &mut ctx, &mut out).is_ok());
    assert!(ctx.quiescent);
    assert!(matches!(DidChangeTextDocument::handle(&None, 1, &vec![change], &mut ctx, &mut out),
                     Err(ResponseError::Empty)));
    assert!(!ctx.quiescent);
    assert!(out.effects.is_empty());
}

#[test]
fn changes_in_and_out_of_order() {
    let mut ctx = context(config());
    let changes = || vec![
        ContentChange {
            range: Some(DocumentRange {
                start: DocumentPosition { line: 1, character: 2 },
                end: DocumentPosition { line: 3, character: 4 },
            }),
            range_length: Some(5),
            text: "new".to_string(),
        },
        ContentChange { range: None, range_length: None, text: "all".to_string() },
    ];
    let mut out = Outbox::new();
    assert!(DidChangeTextDocument::handle(
        &file("/a\"b.dml"), 4, &changes(), &mut ctx, &mut out).is_ok());
    assert_eq!(kinds(&out), vec!["change", "dirty", "analyze"]);
    match &out.effects[0] {
        Effect::ChangeFiles { changes } => {
            match &changes[0] {
                Change::ReplaceText { span, length, text } => {
                    assert_eq!(span.range, dls::span::ZeroRange::from_u32(1, 3, 2, 4));
                    assert_eq!(span.file.text, "/a\"b.dml");
                    assert_eq!(*length, Some(5));
                    assert_eq!(text, "new");
                }
                _ => panic!("not replaced"),
            }
            assert!(matches!(&changes[1], Change::AddFile { text, .. } if text == "all"));
        }
        _ => panic!("no changes"),
    }
    assert!(matches!(&out.effects[1],
                     Effect::MarkFileDirty { path } if path.text == "/real/a\"b.dml"));
    let mut out = Outbox::new();
    assert!(DidChangeTextDocument::handle(
        &file("/a\"b.dml"), 4, &changes(), &mut ctx, &mut out).is_ok());
    assert!(out.effects.is_empty());
    assert!(DidChangeTextDocument::handle(
        &file("/a\"b.dml"), 3, &changes(), &mut ctx, &mut out).is_ok());
    assert_eq!(out.effects.len(), 1);
    assert_eq!(shown(&out.effects[0]),
               (MessageType::Warning, "Out of order change in \"/a\\\"b.dml\""));
}

fn settings(shape: SettingsShape, config: Result<Config, String>) -> ConfigSettings {
    ConfigSettings { shape, config, unknowns: vec![], deprecated: vec![], duplicated: vec![] }
}

#[test]
fn settings_are_pulled_or_taken_over() {
    let mut ctx = context(config());
    for shape in [SettingsShape::Null, SettingsShape::Object(0)] {
        let mut out = Outbox::new();
        assert!(DidChangeConfiguration::handle(
            settings(shape, Ok(config())), &files(), RequestId::Num(9), &mut ctx, &mut out).is_ok());
        assert_eq!(out.effects.len(), 1);
        assert!(matches!(&out.effects[0],
                         Effect::SendRequest {
                             id: RequestId::Num(9),
                             request: ClientRequest::WorkspaceConfiguration { section },
                         } if section == "simics-modeling.dls"));
    }
    let mut new = config();
    new.linting_enabled = false;
    let mut given = settings(SettingsShape::Object(1), Ok(new));
    given.unknowns.push("what".to_string());
    let mut out = Outbox::new();
    assert!(DidChangeConfiguration::handle(
        given, &files(), RequestId::Num(9), &mut ctx, &mut out).is_ok());
    assert_eq!(kinds(&out), vec!["log", "report"]);
    assert!(!ctx.config.linting_enabled);
    let mut out = Outbox::new();
    assert!(matches!(DidChangeConfiguration::handle(
        settings(SettingsShape::Other, Err("number".to_string())), &files(), RequestId::Num(9),
        &mut ctx, &mut out), Err(ResponseError::Empty)));
    assert!(out.effects.is_empty());
}

#[test]
fn watched_files_are_read_again() {
    let mut ctx = context(config());
    let event = |file: &str| FileEvent {
        path: Some(path(file)), typ: FileChangeType::Changed,
    };
    let mut out = Outbox::new();
    // Nothing is watched.
    assert!(DidChangeWatchedFiles::handle(
        &vec![event("/w/info.json")], &files(), &mut ctx, &mut out).is_ok());
    assert!(out.effects.is_empty());
    ctx.config.compile_info_path = Some(path("/w/info.json"));
    assert!(DidChangeWatchedFiles::handle(
        &vec![event("/w/other.json")], &files(), &mut ctx, &mut out).is_ok());
    assert!(out.effects.is_empty());
    let mut given = files();
    given.compile_info.commands = Ok(vec![CompileCommand {
        file: path("a.dml"), canon_path: Some(path("/a.dml")), includes: vec![],
    }]);
    assert!(DidChangeWatchedFiles::handle(
        &vec![event("/w/other.json"), event("/w/info.json")], &given, &mut ctx, &mut out).is_ok());
    assert_eq!(kinds(&out), vec!["dependencies"]);
    assert_eq!(ctx.compilation_info.len(), 1);
}

#[test]
fn folders_change() {
    let mut ctx = context(config());
    let folder = |name: &str| Workspace {
        uri: name.to_string(), name: name.to_string(), path: Some(path(name)),
    };
    assert!(DidChangeWorkspaceFolders::handle(vec![folder("/a"), folder("/b")], &vec![], &mut ctx)
            .is_ok());
    assert!(DidChangeWorkspaceFolders::handle(vec![folder("/c")], &vec![folder("/a")], &mut ctx)
            .is_ok());
    let names: Vec<&str> = ctx.workspace_roots.iter().map(|w| w.name.as_str()).collect();
    assert_eq!(names, vec!["/b", "/c"]);
}

fn context_uri(text: &str, found: bool) -> ContextUri {
    ContextUri {
        uri: text.to_string(),
        canon_path: if found { Some(path(text)) } else { None },
    }
}

#[test]
fn clients_choose_contexts() {
    let mut ctx = context(config());
    ctx.analysis.device_triggers.insert(
        path("/f.dml"), VecSet::from_vec(vec![path("/a.dml"), path("/b.dml")]));
    ctx.device_active_contexts.insert(ContextDefinition::Device(path("/a.dml")));
    ctx.device_active_contexts.insert(ContextDefinition::Device(path("/z.dml")));
    let contexts = || vec![
        ContextDefinitionKindParam::Device(context_uri("/b.dml", true)),
        ContextDefinitionKindParam::Device(context_uri("/gone.dml", false)),
        ContextDefinitionKindParam::Synthetic(context_uri("/s.dml", true)),
    ];
    assert!(contexts()[1].to_context_def().is_none());
    // The document cannot be found.
    let mut out = Outbox::new();
    let params = ChangeActiveContextsParams {
        active_contexts: contexts(), uri: Some(context_uri("/f.dml", false)),
    };
    assert!(ChangeActiveContexts::handle(&params, &mut ctx, &mut out).is_ok());
    assert_eq!(kinds(&out), vec!["report"]);
    assert!(ctx.device_active_contexts.contains(&ContextDefinition::Device(path("/a.dml"))));
    // One document.
    let params = ChangeActiveContextsParams {
        active_contexts: contexts(), uri: Some(context_uri("/f.dml", true)),
    };
    assert!(ChangeActiveContexts::handle(&params, &mut ctx, &mut out).is_ok());
    assert!(!ctx.device_active_contexts.contains(&ContextDefinition::Device(path("/a.dml"))));
    assert!(ctx.device_active_contexts.contains(&ContextDefinition::Device(path("/b.dml"))));
    assert!(ctx.device_active_contexts.contains(&ContextDefinition::Device(path("/z.dml"))));
    // All documents.
    let params = ChangeActiveContextsParams { active_contexts: contexts(), uri: None };
    assert!(ChangeActiveContexts::handle(&params, &mut ctx, &mut out).is_ok());
    assert_eq!(ctx.device_active_contexts.len(), 1);
    assert!(ctx.device_active_contexts.contains(&ContextDefinition::Device(path("/b.dml"))));
}

#[test]
fn messages_about_settings() {
    let mut out = Outbox::new();
    maybe_notify_unknown_configs(&mut out, &vec![]);
    maybe_notify_duplicated_configs(&mut out, &vec![]);
    assert!(out.effects.is_empty());
    maybe_notify_unknown_configs(&mut out, &vec!["a".to_string(), "b".to_string()]);
    assert!(matches!(&out.effects[0], Effect::LogWarning { message }
                     if message == "Unknown DLS configuration: `a` ,`b` "));
    maybe_notify_deprecated_configs(&mut out, &vec![
        DeprecatedKey { key: "old".to_string(), notice: None },
        DeprecatedKey { key: "older".to_string(), notice: Some("use new".to_string()) },
    ]);
    assert_eq!(shown(&out.effects[1]),
               (MessageType::Warning, "DLS configuration option `old` is deprecated"));
    assert_eq!(shown(&out.effects[2]),
               (MessageType::Warning, "DLS configuration option `older` is deprecated: use new"));
    maybe_notify_duplicated_configs(&mut out, &vec![
        DuplicatedKey { key: "k".to_string(),
                        spellings: vec!["K".to_string(), "k".to_string()] },
        DuplicatedKey { key: "l".to_string(), spellings: vec![] },
    ]);
    assert_eq!(shown(&out.effects[3]),
               (MessageType::Warning, "Duplicated DLS configuration: k: K, ,k, ; l:; "));
    info_message(&mut out, "hello".to_string());
    assert_eq!(shown(&out.effects[4]), (MessageType::Info, "hello"));
    assert!(maybe_parse_lint_cfg(&Err("bad".to_string()), &mut out).is_none());
    assert_eq!(out.effects.len(), 5);
    assert_eq!(maybe_parse_lint_cfg(&Ok((LintCfg::default(), vec![])), &mut out),
               Some(LintCfg::default()));
    assert_eq!(out.effects.len(), 5);
}

#[test]
fn initializing_twice() {
    let mut service = service();
    assert_eq!(service.ctx.pid(), 7);
    assert_eq!(service.ctx.inited().err(), Some(InitError));
    assert_eq!(InitError::from(()).to_text(), "Initialization error");
    let mut params = initialize_params();
    params.unknowns.push("what".to_string());
    params.deprecated.push(DeprecatedKey { key: "old".to_string(), notice: None });
    let mut settings = config();
    settings.compile_info_path = Some(path("/info.json"));
    settings.lint_cfg_path = Some(path("/lint.json"));
    params.options.settings = Some(settings);
    params.files.lint_cfg = Ok((LintCfg::default(), vec!["odd".to_string()]));
    params.root_uri = Some(RootUri { uri: "file:///root".to_string(), path: Some(path("/root")) });
    let (change, out) = send(&mut service,
                             message(1, "initialize", MessageParams::Initialize(params)));
    assert_eq!(change, ServerStateChange::Continue);
    assert_eq!(kinds(&out),
               vec!["initialized", "log", "message", "dependencies", "message", "builtins"]);
    match &out.effects[0] {
        Effect::RespondInitialize { id: RequestId::Num(1), result } => {
            assert_eq!(result.name, "DML Language Server");
            assert_eq!(result.version, "0.9");
            assert_eq!(result.capabilities, server_caps());
        }
        _ => panic!("not answered"),
    }
    match (&out.effects[3], &out.effects[5]) {
        (Effect::UpdateContextDependencies { resolver: first },
         Effect::AnalyzeBuiltins { resolver: second, files }) => {
            // The folders are taken over last.
            assert_eq!(first.paths.len(), 0);
            assert_eq!(second.paths[0].text, "/root");
            assert_eq!(files, &vec!["dml-builtins.dml".to_string()]);
        }
        _ => panic!("not initialized"),
    }
    let ctx = service.ctx.inited().unwrap();
    assert_eq!(ctx.workspace_roots[0].name, "root");
    assert_eq!(ctx.pid, 7);
    assert_eq!(ctx.config.compile_info_path.as_ref().unwrap().text, "/info.json");
    let (change, out) = send(
        &mut service, message(2, "initialize", MessageParams::Initialize(initialize_params())));
    assert_eq!(change, ServerStateChange::Continue);
    assert_eq!(kinds(&out), vec!["jobs", "refusal"]);
    assert!(matches!(&out.effects[1],
                     Effect::FailureMessage { id: RequestId::Num(2), code: 123, message }
                     if message == "Already received an initialize request"));
    assert_eq!(service.ctx.inited().unwrap().workspace_roots.len(), 1);
}

#[test]
fn a_context_is_initialized_once() {
    let mut ctx = ActionContext::new(config(), 3, vec![]);
    let options = InitializationOptions { settings: None, cmd_run: false };
    let mut out = Outbox::new();
    assert_eq!(ctx.init(&options, capabilities(), &files(), &mut out), Ok(()));
    assert!(out.effects.is_empty());
    assert_eq!(ctx.init(&options, capabilities(), &files(), &mut out), Err(InitError));
    assert_eq!(ctx.pid(), 3);
}

#[test]
fn folders_named_at_the_start() {
    let mut service = service();
    let mut params = initialize_params();
    params.workspace_folders = Some(vec![
        Workspace { uri: "a".to_string(), name: "a".to_string(), path: Some(path("/a")) }]);
    params.root_uri = Some(RootUri { uri: "file:///root".to_string(), path: Some(path("/root")) });
    send(&mut service, message(1, "initialize", MessageParams::Initialize(params)));
    let roots = &inited(&mut service).workspace_roots;
    assert_eq!(roots.len(), 1);
    assert_eq!(roots[0].uri, "a");
}

#[test]
fn files_that_were_found_are_analysed() {
    let mut out = Outbox::new();
    analyze_found(&vec![None, Some(path("/lib/dml-builtins.dml"))], &mut out);
    assert_eq!(out.effects.len(), 1);
    assert!(matches!(&out.effects[0], Effect::IsolatedAnalyze { path, context: None }
                     if path.text == "/lib/dml-builtins.dml"));
}

#[test]
fn nothing_is_served_before_initialization() {
    let mut service = service();
    assert_eq!(NOT_INITIALIZED_CODE, -32002);
    for (method, params) in [
        ("shutdown", MessageParams::Shutdown),
        ("textDocument/hover", MessageParams::Request(RequestMethod::HoverRequest)),
    ] {
        let (change, out) = send(&mut service, message(5, method, params));
        assert_eq!(change, ServerStateChange::Continue);
        assert_eq!(out.effects.len(), 1);
        assert!(matches!(&out.effects[0],
                         Effect::FailureMessage { id: RequestId::Num(5), code: -32002, message }
                         if message == "not yet received `initialize` request"));
    }
    let cancel = MessageParams::Notification(NotificationParams::Cancel);
    let (change, out) = send(&mut service, message(0, "$/cancelRequest", cancel));
    assert_eq!(change, ServerStateChange::Continue);
    assert!(out.effects.is_empty());
    let mut out = Outbox::new();
    service.wait_for_concurrent_jobs(&mut out);
    assert!(out.effects.is_empty());
    let (change, _) = send(&mut service, message(0, "exit", MessageParams::Shutdown));
    assert_eq!(change, ServerStateChange::Break { exit_code: 1 });
}

#[test]
fn requests_are_dispatched() {
    let mut service = initialized();
    let (change, out) = send(
        &mut service,
        message(5, "textDocument/hover", MessageParams::Request(RequestMethod::HoverRequest)));
    assert_eq!(change, ServerStateChange::Continue);
    assert!(matches!(&out.effects[0], Effect::Dispatch {
        id: RequestId::Num(5), request: RequestMethod::HoverRequest }));
    // A method that is not known is passed over, whatever comes with it.
    let odd = RawMessage {
        id: RequestId::Num(6), method: "$/odd".to_string(), params: Err("what".to_string()),
    };
    let (change, out) = send(&mut service, odd);
    assert_eq!(change, ServerStateChange::Continue);
    assert!(out.effects.is_empty());
    let mut out = Outbox::new();
    service.wait_for_concurrent_jobs(&mut out);
    assert_eq!(kinds(&out), vec!["jobs"]);
}

#[test]
fn parameters_that_are_none() {
    let mut service = service();
    let bad = RawMessage {
        id: RequestId::Num(6), method: "textDocument/hover".to_string(),
        params: Err("missing field".to_string()),
    };
    let (change, out) = send(&mut service, bad);
    assert_eq!(change, ServerStateChange::Break { exit_code: 101 });
    assert!(matches!(&out.effects[0],
                     Effect::CustomFailure {
                         id: RequestId::Num(6), error: StandardError::InternalError, message }
                     if message == "missing field"));
}

#[test]
fn notifications_are_handled() {
    let mut service = initialized();
    let open = MessageParams::Notification(NotificationParams::DidOpenTextDocument {
        file: file("/a.dml"), text: "text".to_string(),
    });
    let (_, out) = send(&mut service, message(0, "textDocument/didOpen", open));
    assert_eq!(kinds(&out), vec!["set", "analyze", "report"]);
    assert!(inited(&mut service).direct_opens.contains(&path("/real/a.dml")));
    // A document that is none is not answered either.
    let close = MessageParams::Notification(
        NotificationParams::DidCloseTextDocument { file: None });
    let (change, out) = send(&mut service, message(0, "textDocument/didClose", close));
    assert_eq!(change, ServerStateChange::Continue);
    assert!(out.effects.is_empty());
}

#[test]
fn shutting_down() {
    let mut service = initialized();
    let (change, out) = send(&mut service, message(3, "shutdown", MessageParams::Shutdown));
    assert_eq!(change, ServerStateChange::Continue);
    assert_eq!(kinds(&out), vec!["jobs", "ack"]);
    // From now on everything but `exit` is passed over.
    let (change, out) = send(
        &mut service,
        message(4, "textDocument/hover", MessageParams::Request(RequestMethod::HoverRequest)));
    assert_eq!(change, ServerStateChange::Continue);
    assert!(out.effects.is_empty());
    let bad = RawMessage {
        id: RequestId::Num(6), method: "initialize".to_string(), params: Err("bad".to_string()),
    };
    assert_eq!(send(&mut service, bad).0, ServerStateChange::Continue);
    let exit = RawMessage {
        id: RequestId::Null, method: "exit".to_string(), params: Err(String::new()),
    };
    assert_eq!(send(&mut service, exit).0, ServerStateChange::Break { exit_code: 0 });
    // Without a shutdown the end is no clean one.
    let mut service = initialized();
    let exit = RawMessage {
        id: RequestId::Null, method: "exit".to_string(), params: Err(String::new()),
    };
    assert_eq!(send(&mut service, exit).0, ServerStateChange::Break { exit_code: 1 });
}

#[test]
fn failures_are_answered() {
    let mut out = Outbox::new();
    answer_failure(RequestId::Num(1), ResponseError::Empty, &mut out);
    assert!(matches!(&out.effects[0],
                     Effect::CustomFailure { error: StandardError::InternalError, message, .. }
                     if message == "Empty response"));
    answer_failure(RequestId::Num(2), ResponseError::Message(4, "no".to_string()), &mut out);
    assert!(matches!(&out.effects[1],
                     Effect::FailureMessage { id: RequestId::Num(2), code: 4, message }
                     if message == "no"));
}

#[test]
fn reading_from_the_client() {
    let mut out = Outbox::new();
    assert!(matches!(handle_read(ReadOutcome::Nothing, &mut out), ServerToHandle::ExitCode(101)));
    assert!(matches!(handle_read(ReadOutcome::Malformed("no json".to_string()), &mut out),
                     ServerToHandle::ExitCode(101)));
    for (i, expected) in ["Cannot read message", "no json"].iter().enumerate() {
        assert!(matches!(&out.effects[i],
                         Effect::CustomFailure {
                             id: RequestId::Null, error: StandardError::ParseError, message }
                         if message == expected));
    }
    assert!(matches!(handle_read(ReadOutcome::Response(RequestId::Num(3)), &mut out),
                     ServerToHandle::ClientResponse(RequestId::Num(3))));
    let hover = message(5, "textDocument/hover",
                        MessageParams::Request(RequestMethod::HoverRequest));
    assert!(matches!(handle_read(ReadOutcome::Message(hover), &mut out),
                     ServerToHandle::ClientMessage(_)));
    assert_eq!(out.effects.len(), 2);
}

fn handle(service: &mut LsService, event: ServerToHandle) -> Vec<&'static str> {
    let mut out = Outbox::new();
    let change = service.handle_event(event, &mut out);
    assert_eq!(change, ServerStateChange::Continue);
    kinds(&out)
}

#[test]
fn events_of_analyses() {
    let none: Vec<&str> = vec![];
    let imports = || vec![None, Some(path("/i1.dml")), Some(path("/i2.dml"))];
    let done = || ServerToHandle::IsolatedAnalysisDone(path("/a.dml"), Some(path("/c.dml")), imports());
    let mut early = service();
    assert_eq!(handle(&mut early, done()), none);
    assert_eq!(handle(&mut early, ServerToHandle::LinterDone(path("/a.dml"))), none);
    let mut service = initialized();
    assert_eq!(handle(&mut service, done()),
               vec!["report", "analyze", "analyze", "trigger", "lint", "waits"]);
    let mut out = Outbox::new();
    service.handle_event(done(), &mut out);
    assert!(matches!(&out.effects[1], Effect::IsolatedAnalyze { path, context: Some(context) }
                     if path.text == "/i1.dml" && context.text == "/c.dml"));
    assert_eq!(handle(&mut service, ServerToHandle::DeviceAnalysisDone(path("/a.dml"))),
               vec!["report", "waits"]);
    assert_eq!(handle(&mut service, ServerToHandle::LinterDone(path("/a.dml"))), vec!["report"]);
    assert_eq!(handle(&mut service, ServerToHandle::AnalysisRequest(path("/i.dml"), None)),
               vec!["analyze"]);
    inited(&mut service).config.suppress_imports = true;
    assert_eq!(handle(&mut service, ServerToHandle::AnalysisRequest(path("/i.dml"), None)), none);
    assert_eq!(handle(&mut service, done()), vec!["report", "waits"]);
    inited(&mut service).add_direct_open(&path("/a.dml"));
    assert_eq!(handle(&mut service, done()), vec!["report", "lint", "waits"]);
    let mut out = Outbox::new();
    assert_eq!(service.handle_event(ServerToHandle::ExitCode(101), &mut out),
               ServerStateChange::Break { exit_code: 101 });
    assert_eq!(handle(&mut service, ServerToHandle::ClientResponse(RequestId::Num(77))), none);
}

#[test]
fn devices_become_contexts_early() {
    for (mode, wanted) in [(DeviceContextMode::Always, true), (DeviceContextMode::First, false)] {
        let mut service = initialized();
        let ctx = inited(&mut service);
        ctx.config.new_device_context_mode = mode;
        ctx.analysis.isolated_analysis.insert(path("/a.dml"), IsolatedInfo { is_device_file: true });
        ctx.analysis.isolated_analysis.insert(path("/t.dml"), IsolatedInfo { is_device_file: false });
        for file in ["/a.dml", "/t.dml", "/unknown.dml"] {
            handle(&mut service, ServerToHandle::IsolatedAnalysisDone(path(file), None, vec![]));
        }
        let ctx = inited(&mut service);
        assert_eq!(ctx.device_active_contexts.contains(&ContextDefinition::Device(path("/a.dml"))),
                   wanted);
        assert_eq!(ctx.device_active_contexts.len(), if wanted { 1 } else { 0 });
    }
}

#[test]
fn idle_work() {
    let mut service = service();
    let mut out = Outbox::new();
    service.handle_idle(&mut out);
    assert!(out.effects.is_empty());
    let mut service = initialized();
    let ctx = inited(&mut service);
    ctx.config.analysis_retain_duration = Some(60);
    ctx.maybe_start_progress("p", &mut out);
    let mut out = Outbox::new();
    service.handle_idle(&mut out);
    assert_eq!(kinds(&out), vec!["end", "message", "discard"]);
    assert!(matches!(out.effects[2], Effect::DiscardOldAnalysis { seconds: 60 }));
    let mut out = Outbox::new();
    service.handle_idle(&mut out);
    assert_eq!(kinds(&out), vec!["discard"]);
}

#[test]
fn what_the_server_offers() {
    let caps = server_caps();
    assert_eq!(caps.experimental, Some(ExperimentalFeatures { context_control: true }));
    let sync = caps.text_document_sync.unwrap();
    assert_eq!(sync.change, Some(TextDocumentSyncKind::Incremental));
    assert_eq!((sync.open_close, sync.save), (Some(true), Some(true)));
    assert_eq!((sync.will_save, sync.will_save_wait_until), (None, None));
    for offered in [caps.declaration_provider, caps.definition_provider,
                    caps.implementation_provider, caps.hover_provider,
                    caps.document_symbol_provider, caps.workspace_symbol_provider] {
        assert_eq!(offered, Some(true));
    }
    assert_eq!(caps.references_provider, None);
    assert_eq!(caps.completion_provider, None);
    let folders = caps.workspace.unwrap().workspace_folders.unwrap();
    assert_eq!((folders.supported, folders.change_notifications), (Some(true), Some(true)));
}

#[test]
fn method_names_are_those_of_the_protocol() {
    for (name, method) in [
        (notification::Initialized::METHOD, NotificationMethod::Initialized),
        (notification::DidOpenTextDocument::METHOD, NotificationMethod::DidOpenTextDocument),
        (notification::DidCloseTextDocument::METHOD, NotificationMethod::DidCloseTextDocument),
        (notification::DidChangeTextDocument::METHOD, NotificationMethod::DidChangeTextDocument),
        (notification::DidSaveTextDocument::METHOD, NotificationMethod::DidSaveTextDocument),
        (notification::DidChangeConfiguration::METHOD, NotificationMethod::DidChangeConfiguration),
        (notification::DidChangeWatchedFiles::METHOD, NotificationMethod::DidChangeWatchedFiles),
        (notification::DidChangeWorkspaceFolders::METHOD,
         NotificationMethod::DidChangeWorkspaceFolders),
        (notification::Cancel::METHOD, NotificationMethod::Cancel),
        ("$/changeActiveContexts", NotificationMethod::ChangeActiveContexts),
    ] {
        assert_eq!(Method::from_name(name), Some(Method::Notification(method)));
        assert_eq!(method.method_name(), name);
    }
    for (name, method) in [
        (request::Shutdown::METHOD, BlockingMethod::Shutdown),
        (request::Initialize::METHOD, BlockingMethod::Initialize),
    ] {
        assert_eq!(Method::from_name(name), Some(Method::Blocking(method)));
        assert_eq!(method.method_name(), name);
    }
    for (name, method) in [
        (request::ExecuteCommand::METHOD, RequestMethod::ExecuteCommand),
        (request::Formatting::METHOD, RequestMethod::Formatting),
        (request::RangeFormatting::METHOD, RequestMethod::RangeFormatting),
        (request::ResolveCompletionItem::METHOD, RequestMethod::ResolveCompletion),
        (request::Rename::METHOD, RequestMethod::Rename),
        (request::CodeActionRequest::METHOD, RequestMethod::CodeActionRequest),
        (request::DocumentHighlightRequest::METHOD, RequestMethod::DocumentHighlightRequest),
        (request::GotoImplementation::METHOD, RequestMethod::GotoImplementation),
        (request::WorkspaceSymbolRequest::METHOD, RequestMethod::WorkspaceSymbolRequest),
        (request::DocumentSymbolRequest::METHOD, RequestMethod::DocumentSymbolRequest),
        (request::HoverRequest::METHOD, RequestMethod::HoverRequest),
        (request::GotoDefinition::METHOD, RequestMethod::GotoDefinition),
        (request::GotoDeclaration::METHOD, RequestMethod::GotoDeclaration),
        (request::References::METHOD, RequestMethod::References),
        (request::Completion::METHOD, RequestMethod::Completion),
        (request::CodeLensRequest::METHOD, RequestMethod::CodeLensRequest),
        ("$/getKnownContexts", RequestMethod::GetKnownContextsRequest),
    ] {
        assert_eq!(Method::from_name(name), Some(Method::Request(method)));
        assert_eq!(method.method_name(), name);
    }
    assert_eq!(Method::from_name(notification::Exit::METHOD), None);
    assert_eq!(notification::Exit::METHOD, "exit");
}
