//! What the library asks its caller to do.
//!
//! A function that needs something done outside puts an [`Effect`] into an
//! [`Outbox`]. The caller carries the effects out one after the other, in
//! order, each one whole before the next; where an effect leads back into the
//! library, what it brings up there is carried out before the rest.
use crate::actions::context::{ContextDefinition, ContextView};
use crate::collections::{Keyed, VecMap, VecSet};
use crate::errors::{diagnostic_views, Diagnostic, DiagnosticView, ZeroSpan, SpanView};
use crate::lint::config::LintCfg;
use crate::path::{CanonPath, FilePath, PathView};
use crate::server::caps::{InitializeResult, InitializeView};
use crate::server::message::{
    ClientRequest, ClientRequestKind, ClientRequestView, IdView, MessageType, RequestId,
    StandardError,
};
use crate::server::methods::RequestMethod;
use crate::text::texts;
use vstd::prelude::*;
use vstd::string::*;

verus! {

/// What a path says that may be absent.
pub open spec fn opt_path(path: Option<FilePath>) -> Option<PathView> {
    match path {
        Some(p) => Some(p@),
        None => None,
    }
}

/// A copy of a path that may be absent.
pub fn copy_opt_path(path: &Option<FilePath>) -> (copy: Option<FilePath>)
    ensures
        opt_path(copy) == opt_path(*path),
{
    match path {
        Some(p) => Some(p.duplicate()),
        None => None,
    }
}

/// What the paths say.
pub open spec fn path_views(paths: Seq<FilePath>) -> Seq<PathView> {
    paths.map_values(|p: FilePath| p@)
}

/// Copies of the paths.
pub fn copy_paths(paths: &Vec<FilePath>) -> (copies: Vec<FilePath>)
    ensures
        path_views(copies@) == path_views(paths@),
{
    let mut copies: Vec<FilePath> = Vec::new();
    let mut i: usize = 0;
    while i < paths.len()
        invariant
            i <= paths@.len(),
            copies@.len() == i,
            forall|j: int| 0 <= j < i ==> (#[trigger] copies@[j])@ == paths@[j]@,
        decreases paths@.len() - i,
    {
        copies.push(paths[i].duplicate());
        i += 1;
    }
    assert(path_views(copies@) =~= path_views(paths@));
    copies
}

/// Where files are looked for.
pub struct PathResolver {
    /// The root that the client gave.
    pub root: Option<FilePath>,
    /// The roots of the workspaces.
    pub paths: Vec<FilePath>,
    /// Where a device's imports are looked for, by device.
    pub include_paths: VecMap<CanonPath, VecSet<FilePath>>,
}

/// What a resolver says: the devices, each with where its imports are looked
/// for, stand in order.
pub struct ResolverView {
    pub root: Option<PathView>,
    pub paths: Seq<PathView>,
    pub include_paths: Seq<(PathView, Seq<PathView>)>,
}

impl View for PathResolver {
    type V = ResolverView;

    open spec fn view(&self) -> ResolverView {
        ResolverView {
            root: opt_path(self.root),
            paths: path_views(self.paths@),
            include_paths: self.include_paths.entries().map_values(
                |e: (CanonPath, VecSet<FilePath>)| (e.0@, e.1.views()),
            ),
        }
    }
}

/// A change of a file's text.
pub enum Change {
    /// The text of a span is replaced. Columns, and the length of what is
    /// replaced where it is given, count units of UTF-16.
    ReplaceText { span: ZeroSpan, length: Option<u64>, text: String },
    /// The whole text is replaced.
    AddFile { file: FilePath, text: String },
}

/// What a change says.
pub enum ChangeView {
    ReplaceText { span: SpanView, length: Option<u64>, text: Seq<char> },
    AddFile { file: PathView, text: Seq<char> },
}

impl View for Change {
    type V = ChangeView;

    open spec fn view(&self) -> ChangeView {
        match self {
            Change::ReplaceText { span, length, text } => {
                ChangeView::ReplaceText { span: span@, length: *length, text: text@ }
            },
            Change::AddFile { file, text } => ChangeView::AddFile { file: file@, text: text@ },
        }
    }
}

/// What the changes say.
pub open spec fn change_views(changes: Seq<Change>) -> Seq<ChangeView> {
    changes.map_values(|c: Change| c@)
}

/// What a wait for an analysis came to.
#[derive(Clone, Copy, PartialEq, Eq, Structural, Debug)]
pub enum AnalysisStateResponse {
    /// What was waited for is over, and the analyses exist.
    Achieved,
    /// What was waited for is over, but not all of the analyses exist.
    Satisfied,
    /// The server gave the wait up.
    Cancelled,
    /// Asks whether anybody still waits.
    Ping,
}

/// Something to be done outside.
#[allow(inconsistent_fields)]
pub enum Effect {
    /// Show the user a message.
    ShowMessage { typ: MessageType, message: String },
    /// Write a warning into the server's own log.
    LogWarning { message: String },
    /// Say that diagnostics are about to come.
    BeginDiagnostics,
    /// Publish the diagnostics of a file, in place of those published before.
    PublishDiagnostics { file: FilePath, diagnostics: Vec<Diagnostic> },
    /// Say that all diagnostics have come.
    EndDiagnostics,
    /// Say that an analysis is going on.
    BeginProgress { id: String, title: String },
    /// Say that the analysis is over.
    EndProgress { id: String, title: String },
    /// Bring the stored analyses up to date.
    UpdateAnalysis { resolver: PathResolver },
    /// Work out anew what the device contexts depend on.
    UpdateContextDependencies { resolver: PathResolver },
    /// Have errors reported anew.
    ReportErrors,
    /// Gather the errors of the stored analyses, those of devices only under
    /// these contexts, and have them reported.
    GatherErrors { contexts: VecSet<ContextDefinition> },
    /// Resolve a path and have it analysed.
    IsolatedAnalyze { path: FilePath, context: Option<CanonPath> },
    /// Look for files under any context and have those analysed that are
    /// found.
    AnalyzeBuiltins { resolver: PathResolver, files: Vec<String> },
    /// Bring the stored analyses up to date and have the devices analysed
    /// that depend on a file.
    TriggerDeviceAnalysis { path: CanonPath },
    /// Resolve a path and have it linted.
    LintAnalyze { path: FilePath, cfg: LintCfg },
    /// Start an analysis of a file on its own, as a job.
    EnqueueIsolated { path: CanonPath, client_path: FilePath, context: Option<CanonPath> },
    /// Start an analysis of a device, as a job.
    EnqueueDevice { device: CanonPath, dependencies: VecSet<CanonPath> },
    /// Start linting a file, as a job.
    EnqueueLint { path: CanonPath, cfg: LintCfg },
    /// Look whether waits are over.
    CheckStateWaits,
    /// Answer a wait.
    AnswerWait { waiter: u64, response: AnalysisStateResponse },
    /// Take a file over as the client has it.
    SetFile { path: FilePath, text: String },
    /// Change files as the client did.
    ChangeFiles { changes: Vec<Change> },
    /// A file was saved.
    FileSaved { path: FilePath },
    /// What is stored of a file is out of date.
    MarkFileDirty { path: CanonPath },
    /// Drop analyses that are older than this.
    DiscardOldAnalysis { seconds: u64 },
    /// Wait until all jobs are done, and all requests that were handed to
    /// workers.
    WaitForJobs,
    /// Send a request to the client.
    SendRequest { id: RequestId, request: ClientRequest },
    /// Hand the client's answer to a request on to whoever sent it.
    HandleResponse { id: RequestId, kind: ClientRequestKind },
    /// Answer the `initialize` request.
    RespondInitialize { id: RequestId, result: InitializeResult },
    /// Answer a request with nothing but that it was served.
    RespondAck { id: RequestId },
    /// Answer a request with an error of the protocol.
    CustomFailure { id: RequestId, error: StandardError, message: String },
    /// Answer a request with an error.
    FailureMessage { id: RequestId, code: i32, message: String },
    /// Hand a request to a worker.
    Dispatch { id: RequestId, request: RequestMethod },
}

/// What an effect says.
#[allow(inconsistent_fields)]
pub enum EffectView {
    ShowMessage { typ: MessageType, message: Seq<char> },
    LogWarning { message: Seq<char> },
    BeginDiagnostics,
    PublishDiagnostics { file: PathView, diagnostics: Seq<DiagnosticView> },
    EndDiagnostics,
    BeginProgress { id: Seq<char>, title: Seq<char> },
    EndProgress { id: Seq<char>, title: Seq<char> },
    UpdateAnalysis { resolver: ResolverView },
    UpdateContextDependencies { resolver: ResolverView },
    ReportErrors,
    GatherErrors { contexts: Seq<ContextView> },
    IsolatedAnalyze { path: PathView, context: Option<PathView> },
    AnalyzeBuiltins { resolver: ResolverView, files: Seq<Seq<char>> },
    TriggerDeviceAnalysis { path: PathView },
    LintAnalyze { path: PathView, cfg: LintCfg },
    EnqueueIsolated { path: PathView, client_path: PathView, context: Option<PathView> },
    EnqueueDevice { device: PathView, dependencies: Seq<PathView> },
    EnqueueLint { path: PathView, cfg: LintCfg },
    CheckStateWaits,
    AnswerWait { waiter: u64, response: AnalysisStateResponse },
    SetFile { path: PathView, text: Seq<char> },
    ChangeFiles { changes: Seq<ChangeView> },
    FileSaved { path: PathView },
    MarkFileDirty { path: PathView },
    DiscardOldAnalysis { seconds: u64 },
    WaitForJobs,
    SendRequest { id: IdView, request: ClientRequestView },
    HandleResponse { id: IdView, kind: ClientRequestKind },
    RespondInitialize { id: IdView, result: InitializeView },
    RespondAck { id: IdView },
    CustomFailure { id: IdView, error: StandardError, message: Seq<char> },
    FailureMessage { id: IdView, code: i32, message: Seq<char> },
    Dispatch { id: IdView, request: RequestMethod },
}

impl View for Effect {
    type V = EffectView;

    open spec fn view(&self) -> EffectView {
        match self {
            Effect::ShowMessage { typ, message } => {
                EffectView::ShowMessage { typ: *typ, message: message@ }
            },
            Effect::LogWarning { message } => EffectView::LogWarning { message: message@ },
            Effect::BeginDiagnostics => EffectView::BeginDiagnostics,
            Effect::PublishDiagnostics { file, diagnostics } => {
                EffectView::PublishDiagnostics {
                    file: file@,
                    diagnostics: diagnostic_views(diagnostics@),
                }
            },
            Effect::EndDiagnostics => EffectView::EndDiagnostics,
            Effect::BeginProgress { id, title } => {
                EffectView::BeginProgress { id: id@, title: title@ }
            },
            Effect::EndProgress { id, title } => {
                EffectView::EndProgress { id: id@, title: title@ }
            },
            Effect::UpdateAnalysis { resolver } => {
                EffectView::UpdateAnalysis { resolver: resolver@ }
            },
            Effect::UpdateContextDependencies { resolver } => {
                EffectView::UpdateContextDependencies { resolver: resolver@ }
            },
            Effect::ReportErrors => EffectView::ReportErrors,
            Effect::GatherErrors { contexts } => {
                EffectView::GatherErrors { contexts: contexts.views() }
            },
            Effect::IsolatedAnalyze { path, context } => {
                EffectView::IsolatedAnalyze { path: path@, context: opt_path(*context) }
            },
            Effect::AnalyzeBuiltins { resolver, files } => {
                EffectView::AnalyzeBuiltins { resolver: resolver@, files: texts(files@) }
            },
            Effect::TriggerDeviceAnalysis { path } => {
                EffectView::TriggerDeviceAnalysis { path: path@ }
            },
            Effect::LintAnalyze { path, cfg } => {
                EffectView::LintAnalyze { path: path@, cfg: *cfg }
            },
            Effect::EnqueueIsolated { path, client_path, context } => {
                EffectView::EnqueueIsolated {
                    path: path@,
                    client_path: client_path@,
                    context: opt_path(*context),
                }
            },
            Effect::EnqueueDevice { device, dependencies } => {
                EffectView::EnqueueDevice { device: device@, dependencies: dependencies.views() }
            },
            Effect::EnqueueLint { path, cfg } => {
                EffectView::EnqueueLint { path: path@, cfg: *cfg }
            },
            Effect::CheckStateWaits => EffectView::CheckStateWaits,
            Effect::AnswerWait { waiter, response } => {
                EffectView::AnswerWait { waiter: *waiter, response: *response }
            },
            Effect::SetFile { path, text } => EffectView::SetFile { path: path@, text: text@ },
            Effect::ChangeFiles { changes } => {
                EffectView::ChangeFiles { changes: change_views(changes@) }
            },
            Effect::FileSaved { path } => EffectView::FileSaved { path: path@ },
            Effect::MarkFileDirty { path } => EffectView::MarkFileDirty { path: path@ },
            Effect::DiscardOldAnalysis { seconds } => {
                EffectView::DiscardOldAnalysis { seconds: *seconds }
            },
            Effect::WaitForJobs => EffectView::WaitForJobs,
            Effect::SendRequest { id, request } => {
                EffectView::SendRequest { id: id@, request: request@ }
            },
            Effect::HandleResponse { id, kind } => {
                EffectView::HandleResponse { id: id@, kind: *kind }
            },
            Effect::RespondInitialize { id, result } => {
                EffectView::RespondInitialize { id: id@, result: result@ }
            },
            Effect::RespondAck { id } => EffectView::RespondAck { id: id@ },
            Effect::CustomFailure { id, error, message } => {
                EffectView::CustomFailure { id: id@, error: *error, message: message@ }
            },
            Effect::FailureMessage { id, code, message } => {
                EffectView::FailureMessage { id: id@, code: *code, message: message@ }
            },
            Effect::Dispatch { id, request } => {
                EffectView::Dispatch { id: id@, request: *request }
            },
        }
    }
}

/// The effects that are to be carried out, the first one first.
pub struct Outbox {
    pub effects: Vec<Effect>,
}

impl View for Outbox {
    type V = Seq<EffectView>;

    open spec fn view(&self) -> Seq<EffectView> {
        self.effects@.map_values(|e: Effect| e@)
    }
}

impl Outbox {
    /// Nothing to do yet.
    pub fn new() -> (out: Self)
        ensures
            out@ == Seq::<EffectView>::empty(),
    {
        let out = Outbox { effects: Vec::new() };
        assert(out@ =~= Seq::<EffectView>::empty());
        out
    }

    /// One more thing to do, after all the others.
    pub fn push(&mut self, effect: Effect)
        ensures
            final(self)@ == old(self)@.push(effect@),
    {
        self.effects.push(effect);
        assert(self@ =~= old(self)@.push(effect@));
    }

    /// Shows the user a message.
    pub fn show(&mut self, typ: MessageType, message: String)
        ensures
            final(self)@ == old(self)@.push(EffectView::ShowMessage { typ, message: message@ }),
    {
        self.push(Effect::ShowMessage { typ, message });
    }
}

/// An effect says what it holds.
pub proof fn effects_say_what_they_hold(e: Effect, out: Outbox, i: int)
    ensures
        e is ShowMessage ==> e@ is ShowMessage && e@->ShowMessage_typ == e->ShowMessage_typ && e@->ShowMessage_message == e->ShowMessage_message@,
        e is LogWarning ==> e@ is LogWarning && e@->LogWarning_message == e->LogWarning_message@,
        e is BeginDiagnostics ==> e@ is BeginDiagnostics,
        e is PublishDiagnostics ==> e@ is PublishDiagnostics && e@->PublishDiagnostics_file == e->PublishDiagnostics_file@ && e@->PublishDiagnostics_diagnostics == diagnostic_views(e->PublishDiagnostics_diagnostics@),
        e is EndDiagnostics ==> e@ is EndDiagnostics,
        e is BeginProgress ==> e@ is BeginProgress && e@->BeginProgress_id == e->BeginProgress_id@ && e@->BeginProgress_title == e->BeginProgress_title@,
        e is EndProgress ==> e@ is EndProgress && e@->EndProgress_id == e->EndProgress_id@ && e@->EndProgress_title == e->EndProgress_title@,
        e is UpdateAnalysis ==> e@ is UpdateAnalysis && e@->UpdateAnalysis_resolver == e->UpdateAnalysis_resolver@,
        e is UpdateContextDependencies ==> e@ is UpdateContextDependencies && e@->UpdateContextDependencies_resolver == e->UpdateContextDependencies_resolver@,
        e is ReportErrors ==> e@ is ReportErrors,
        e is GatherErrors ==> e@ is GatherErrors && e@->GatherErrors_contexts == e->GatherErrors_contexts.views(),
        e is IsolatedAnalyze ==> e@ is IsolatedAnalyze && e@->IsolatedAnalyze_path == e->IsolatedAnalyze_path@ && e@->IsolatedAnalyze_context is Some == e->IsolatedAnalyze_context is Some && (e->IsolatedAnalyze_context is Some ==> e@->IsolatedAnalyze_context->0 == e->IsolatedAnalyze_context->0@),
        e is AnalyzeBuiltins ==> e@ is AnalyzeBuiltins && e@->AnalyzeBuiltins_resolver == e->AnalyzeBuiltins_resolver@ && e@->AnalyzeBuiltins_files == texts(e->AnalyzeBuiltins_files@),
        e is TriggerDeviceAnalysis ==> e@ is TriggerDeviceAnalysis && e@->TriggerDeviceAnalysis_path == e->TriggerDeviceAnalysis_path@,
        e is LintAnalyze ==> e@ is LintAnalyze && e@->LintAnalyze_path == e->LintAnalyze_path@ && e@->LintAnalyze_cfg == e->LintAnalyze_cfg,
        e is EnqueueIsolated ==> e@ is EnqueueIsolated && e@->EnqueueIsolated_path == e->EnqueueIsolated_path@ && e@->EnqueueIsolated_client_path == e->EnqueueIsolated_client_path@ && e@->EnqueueIsolated_context is Some == e->EnqueueIsolated_context is Some && (e->EnqueueIsolated_context is Some ==> e@->EnqueueIsolated_context->0 == e->EnqueueIsolated_context->0@),
        e is EnqueueDevice ==> e@ is EnqueueDevice && e@->EnqueueDevice_device == e->EnqueueDevice_device@ && e@->EnqueueDevice_dependencies == e->EnqueueDevice_dependencies.views(),
        e is EnqueueLint ==> e@ is EnqueueLint && e@->EnqueueLint_path == e->EnqueueLint_path@ && e@->EnqueueLint_cfg == e->EnqueueLint_cfg,
        e is CheckStateWaits ==> e@ is CheckStateWaits,
        e is AnswerWait ==> e@ is AnswerWait && e@->AnswerWait_waiter == e->AnswerWait_waiter && e@->AnswerWait_response == e->AnswerWait_response,
        e is SetFile ==> e@ is SetFile && e@->SetFile_path == e->SetFile_path@ && e@->SetFile_text == e->SetFile_text@,
        e is ChangeFiles ==> e@ is ChangeFiles && e@->ChangeFiles_changes == change_views(e->ChangeFiles_changes@),
        e is FileSaved ==> e@ is FileSaved && e@->FileSaved_path == e->FileSaved_path@,
        e is MarkFileDirty ==> e@ is MarkFileDirty && e@->MarkFileDirty_path == e->MarkFileDirty_path@,
        e is DiscardOldAnalysis ==> e@ is DiscardOldAnalysis && e@->DiscardOldAnalysis_seconds == e->DiscardOldAnalysis_seconds,
        e is WaitForJobs ==> e@ is WaitForJobs,
        e is SendRequest ==> e@ is SendRequest && e@->SendRequest_id == e->SendRequest_id@ && e@->SendRequest_request == e->SendRequest_request@,
        e is HandleResponse ==> e@ is HandleResponse && e@->HandleResponse_id == e->HandleResponse_id@ && e@->HandleResponse_kind == e->HandleResponse_kind,
        e is RespondInitialize ==> e@ is RespondInitialize && e@->RespondInitialize_id == e->RespondInitialize_id@ && e@->RespondInitialize_result == e->RespondInitialize_result@,
        e is RespondAck ==> e@ is RespondAck && e@->RespondAck_id == e->RespondAck_id@,
        e is CustomFailure ==> e@ is CustomFailure && e@->CustomFailure_id == e->CustomFailure_id@ && e@->CustomFailure_error == e->CustomFailure_error && e@->CustomFailure_message == e->CustomFailure_message@,
        e is FailureMessage ==> e@ is FailureMessage && e@->FailureMessage_id == e->FailureMessage_id@ && e@->FailureMessage_code == e->FailureMessage_code && e@->FailureMessage_message == e->FailureMessage_message@,
        e is Dispatch ==> e@ is Dispatch && e@->Dispatch_id == e->Dispatch_id@ && e@->Dispatch_request == e->Dispatch_request,
        out@.len() == out.effects@.len(),
        0 <= i < out.effects@.len() ==> out@[i] == out.effects@[i]@,
{
}

/// A change and a resolver say what they hold.
pub proof fn changes_say_what_they_hold(change: Change, resolver: PathResolver, i: int)
    ensures
        change is AddFile ==> change@ is AddFile && change@->AddFile_file
            == change->AddFile_file@ && change@->AddFile_text == change->AddFile_text@,
        change is ReplaceText ==> change@ is ReplaceText && change@->ReplaceText_span
            == change->ReplaceText_span@ && change@->ReplaceText_length
            == change->ReplaceText_length && change@->ReplaceText_text
            == change->ReplaceText_text@,
        resolver@.paths.len() == resolver.paths@.len(),
        0 <= i < resolver.paths@.len() ==> resolver@.paths[i] == resolver.paths@[i]@,
        resolver@.root is Some == resolver.root is Some,
        resolver.root is Some ==> resolver@.root->0 == resolver.root->0@,
        resolver@.include_paths.len() == resolver.include_paths.entries().len(),
        0 <= i < resolver.include_paths.entries().len() ==> resolver@.include_paths[i].0
            == resolver.include_paths.entries()[i].0@ && resolver@.include_paths[i].1
            == resolver.include_paths.entries()[i].1.views(),
{
}

} // verus!
