//! The server: what it makes of a message, of the end of an analysis, and of
//! having nothing to do.
use crate::actions::compile_info::roots_are_paths;
use crate::actions::context::{ContextKey, InitActionContext};
use crate::actions::contexts::{active_after_check, context_decidable, views_after_check};
use crate::actions::client_requests::response_effects;
use crate::actions::init::ActionContext;
use crate::actions::jobs::{builtins_missed, builtins_warning, lint_triggered};
use crate::actions::notifications::NotificationParams;
use crate::collections::Keyed;
use crate::config::{Config, DeviceContextMode};
use crate::effects::{copy_opt_path, opt_path, Effect, EffectView, Outbox};
use crate::path::{CanonPath, FilePath};
use crate::server::lifecycle::{
    already_initialized, initialize_effects, initialize_taken, not_initialized, Ack,
    InitializeParams, InitializeRequest, NoResponse, ShutdownRequest, NOT_INITIALIZED_CODE,
};
use crate::server::message::{
    IdView, RequestId, ResponseError, ResponseErrorView, StandardError,
};
use crate::server::methods::{method_named, BlockingMethod, Method, RequestMethod};
use crate::text::same_text;
use vstd::prelude::*;
use vstd::string::*;

verus! {

/// What comes with a message.
pub enum MessageParams {
    Notification(NotificationParams),
    Shutdown,
    Initialize(InitializeParams),
    /// A request that is handed on to a worker, which has its parameters.
    Request(RequestMethod),
}

impl MessageParams {
    /// The method that the parameters belong to.
    pub open spec fn method(&self) -> Method {
        match self {
            MessageParams::Notification(params) => Method::Notification(params.method()),
            MessageParams::Shutdown => Method::Blocking(BlockingMethod::Shutdown),
            MessageParams::Initialize(_) => Method::Blocking(BlockingMethod::Initialize),
            MessageParams::Request(method) => Method::Request(*method),
        }
    }
}

/// A message of the client.
pub struct RawMessage {
    pub id: RequestId,
    pub method: String,
    /// What comes with it, as parameters of its method; or why they are none.
    /// Of a method that the server does not know they say nothing.
    pub params: Result<MessageParams, String>,
}

impl RawMessage {
    /// The method, where the server knows it.
    pub open spec fn known_method(&self) -> Option<Method> {
        method_named(self.method@)
    }

    /// Whether the parameters, where there are any, belong to the method.
    pub open spec fn well_parsed(&self) -> bool {
        match (self.known_method(), self.params) {
            (Some(method), Ok(params)) => params.method() == method,
            _ => true,
        }
    }
}

/// What the server has to handle.
pub enum ServerToHandle {
    /// The client sent a message.
    ClientMessage(RawMessage),
    /// The client answered the request with this id.
    ClientResponse(RequestId),
    /// The server is to end.
    ExitCode(i32),
    /// The analysis of a file on its own is done that was made under a
    /// context, and what the file imports; each import with the place where it
    /// is under the context, if it can be found.
    IsolatedAnalysisDone(CanonPath, Option<CanonPath>, Vec<Option<CanonPath>>),
    /// The analysis of a device is done.
    DeviceAnalysisDone(CanonPath),
    /// A file was linted.
    LinterDone(CanonPath),
    /// A file is to be analysed under a context.
    AnalysisRequest(FilePath, Option<CanonPath>),
}

/// How the server goes on.
#[derive(Clone, Copy, PartialEq, Eq, Structural, Debug)]
pub enum ServerStateChange {
    /// It goes on.
    Continue,
    /// It ends.
    Break { exit_code: i32 },
}

/// What reading from the client came to.
pub enum ReadOutcome {
    /// Nothing could be read.
    Nothing,
    /// What was read is no message, and why.
    Malformed(String),
    Message(RawMessage),
    /// An answer to the request with this id.
    Response(RequestId),
}

/// What reading sets off.
pub open spec fn read_effects(read: ReadOutcome) -> Seq<EffectView> {
    match read {
        ReadOutcome::Nothing => seq![
            EffectView::CustomFailure {
                id: IdView::Null,
                error: StandardError::ParseError,
                message: "Cannot read message"@,
            },
        ],
        ReadOutcome::Malformed(e) => seq![
            EffectView::CustomFailure {
                id: IdView::Null,
                error: StandardError::ParseError,
                message: e@,
            },
        ],
        _ => Seq::empty(),
    }
}

/// What the server has to handle after something was read: the message or the
/// answer, or that it is to end.
pub open spec fn event_read(read: ReadOutcome) -> ServerToHandle {
    match read {
        ReadOutcome::Nothing => ServerToHandle::ExitCode(101),
        ReadOutcome::Malformed(e) => ServerToHandle::ExitCode(101),
        ReadOutcome::Message(message) => ServerToHandle::ClientMessage(message),
        ReadOutcome::Response(id) => ServerToHandle::ClientResponse(id),
    }
}

/// Makes something to handle of what was read. The client is told where it
/// could not be read, and the server ends then.
pub fn handle_read(read: ReadOutcome, out: &mut Outbox) -> (event: ServerToHandle)
    ensures
        event == event_read(read),
        final(out)@ == old(out)@ + read_effects(read),
{
    let ghost before = out@;
    let event = match read {
        ReadOutcome::Nothing => {
            out.push(
                Effect::CustomFailure {
                    id: RequestId::Null,
                    error: StandardError::ParseError,
                    message: "Cannot read message".to_owned(),
                },
            );
            ServerToHandle::ExitCode(101)
        },
        ReadOutcome::Malformed(e) => {
            out.push(
                Effect::CustomFailure {
                    id: RequestId::Null,
                    error: StandardError::ParseError,
                    message: e,
                },
            );
            ServerToHandle::ExitCode(101)
        },
        ReadOutcome::Message(message) => ServerToHandle::ClientMessage(message),
        ReadOutcome::Response(id) => ServerToHandle::ClientResponse(id),
    };
    assert(out@ =~= before + read_effects(read));
    event
}

/// The answer to a request that was not served.
pub open spec fn failure_answer(id: IdView, error: ResponseErrorView) -> EffectView {
    match error {
        ResponseErrorView::Empty => EffectView::CustomFailure {
            id,
            error: StandardError::InternalError,
            message: "Empty response"@,
        },
        ResponseErrorView::Message(code, message) => EffectView::FailureMessage {
            id,
            code,
            message,
        },
    }
}

/// Answers a request that was not served.
pub fn answer_failure(id: RequestId, error: ResponseError, out: &mut Outbox)
    ensures
        final(out)@ == old(out)@.push(failure_answer(id@, error@)),
{
    match error {
        ResponseError::Empty => {
            out.push(
                Effect::CustomFailure {
                    id,
                    error: StandardError::InternalError,
                    message: "Empty response".to_owned(),
                },
            );
        },
        ResponseError::Message(code, message) => {
            out.push(Effect::FailureMessage { id, code, message });
        },
    }
}

/// What a message sets off whose method the server knows and whose parameters
/// could be parsed. `after` is what the server keeps afterwards.
pub open spec fn params_effects(
    before: ActionContext,
    after: ActionContext,
    version: Seq<char>,
    id: IdView,
    params: MessageParams,
) -> Seq<EffectView> {
    match (params, before) {
        (MessageParams::Notification(params), ActionContext::Init(ctx)) => params.effects(
            ctx,
            after->Init_0,
        ),
        (MessageParams::Notification(_), ActionContext::Uninit(_)) => Seq::empty(),
        (MessageParams::Shutdown, ActionContext::Init(_)) => seq![
            EffectView::WaitForJobs,
            EffectView::RespondAck { id },
        ],
        (MessageParams::Initialize(_), ActionContext::Init(_)) => seq![
            EffectView::WaitForJobs,
            failure_answer(id, already_initialized()),
        ],
        (MessageParams::Initialize(params), ActionContext::Uninit(_)) => initialize_effects(
            id,
            params,
            version,
            after->Init_0,
        ),
        (MessageParams::Request(request), ActionContext::Init(_)) => seq![
            EffectView::Dispatch { id, request },
        ],
        (MessageParams::Shutdown, ActionContext::Uninit(_)) => seq![
            failure_answer(id, not_initialized()),
        ],
        (MessageParams::Request(_), ActionContext::Uninit(_)) => seq![
            failure_answer(id, not_initialized()),
        ],
    }
}

/// Whether such a message changes what the server keeps from `before` to
/// `after`.
pub open spec fn params_taken(
    before: ActionContext,
    after: ActionContext,
    params: MessageParams,
) -> bool {
    match (params, before) {
        (MessageParams::Notification(params), ActionContext::Init(ctx)) => {
            after matches ActionContext::Init(next) && params.taken(ctx, next)
        },
        (MessageParams::Shutdown, ActionContext::Init(ctx)) => {
            after == ActionContext::Init(InitActionContext { shut_down: true, ..ctx })
        },
        (MessageParams::Initialize(params), ActionContext::Uninit(uninit)) => {
            after matches ActionContext::Init(next) && initialize_taken(uninit, next, params)
        },
        _ => after == before,
    }
}

/// What a message sets off that is dispatched.
pub open spec fn dispatch_effects(
    before: ActionContext,
    after: ActionContext,
    version: Seq<char>,
    msg: RawMessage,
) -> Seq<EffectView> {
    match (msg.known_method(), msg.params) {
        (Some(_), Ok(params)) => params_effects(before, after, version, msg.id@, params),
        _ => Seq::empty(),
    }
}

/// Whether a message that is dispatched changes what the server keeps from
/// `before` to `after`.
pub open spec fn dispatch_taken(
    before: ActionContext,
    after: ActionContext,
    msg: RawMessage,
) -> bool {
    match (msg.known_method(), msg.params) {
        (Some(_), Ok(params)) => params_taken(before, after, params),
        _ => after == before,
    }
}

/// Whether a message can be dispatched: its parameters belong to its method,
/// and where it needs the roots of workspaces, they are paths.
pub open spec fn dispatchable(ctx: ActionContext, msg: RawMessage) -> bool {
    &&& msg.well_parsed()
    &&& match (msg.known_method(), msg.params, ctx) {
        (
            Some(_),
            Ok(MessageParams::Notification(params)),
            ActionContext::Init(inited),
        ) => params.needs_roots(inited) ==> roots_are_paths(inited.workspace_roots@),
        (
            Some(_),
            Ok(MessageParams::Initialize(params)),
            ActionContext::Uninit(_),
        ) => params.folders_are_paths(),
        _ => true,
    }
}

/// Whether the server has been asked to shut down.
pub open spec fn in_shutdown(ctx: ActionContext) -> bool {
    ctx matches ActionContext::Init(inited) && inited.shut_down
}

/// Whether a message gets as far as being dispatched: it does not end the
/// server, and the server has not been asked to shut down.
pub open spec fn is_dispatched(ctx: ActionContext, msg: RawMessage) -> bool {
    msg.method@ != "exit"@ && !in_shutdown(ctx)
}

/// Whether the parameters of a message are none of its method, though the
/// server knows it.
pub open spec fn is_malformed(msg: RawMessage) -> bool {
    msg.known_method() is Some && msg.params is Err
}

/// How the server goes on after a message: it ends at the client's word, well
/// if it has been asked to shut down before, and it ends if it cannot make
/// anything of the parameters.
pub open spec fn message_outcome(ctx: ActionContext, msg: RawMessage) -> ServerStateChange {
    if msg.method@ == "exit"@ {
        ServerStateChange::Break {
            exit_code: if in_shutdown(ctx) {
                0
            } else {
                1
            },
        }
    } else if !in_shutdown(ctx) && is_malformed(msg) {
        ServerStateChange::Break { exit_code: 101 }
    } else {
        ServerStateChange::Continue
    }
}

/// What a message sets off.
pub open spec fn message_effects(
    before: ActionContext,
    after: ActionContext,
    version: Seq<char>,
    msg: RawMessage,
) -> Seq<EffectView> {
    if !is_dispatched(before, msg) {
        Seq::empty()
    } else if is_malformed(msg) {
        seq![
            EffectView::CustomFailure {
                id: msg.id@,
                error: StandardError::InternalError,
                message: msg.params->Err_0@,
            },
        ]
    } else {
        dispatch_effects(before, after, version, msg)
    }
}

/// Whether a message changes what the server keeps from `before` to `after`.
pub open spec fn message_taken(
    before: ActionContext,
    after: ActionContext,
    msg: RawMessage,
) -> bool {
    if is_dispatched(before, msg) {
        dispatch_taken(before, after, msg)
    } else {
        after == before
    }
}

/// Whether a file has been analysed that declares a device.
pub open spec fn is_known_device(ctx: InitActionContext, path: Seq<Seq<char>>) -> bool {
    ctx.analysis.isolated_analysis@.contains_key(path)
        && ctx.analysis.isolated_analysis@[path].is_device_file
}

/// Whether the end of the analysis of a file has it checked whether the file
/// becomes an active context. Where that depends on all that a device depends
/// on, it is too early for it.
pub open spec fn checked_early(ctx: InitActionContext, path: Seq<Seq<char>>) -> bool {
    is_known_device(ctx, path) && ctx.config.new_device_context_mode != DeviceContextMode::First
}

/// What has the imports analysed that could be found, under the context.
pub open spec fn imports_analysed(
    imports: Seq<Option<CanonPath>>,
    context: Option<CanonPath>,
    n: int,
) -> Seq<EffectView>
    decreases n,
{
    if n <= 0 {
        Seq::empty()
    } else {
        imports_analysed(imports, context, n - 1) + (match imports[n - 1] {
            Some(path) => seq![
                EffectView::IsolatedAnalyze { path: path@, context: opt_path(context) },
            ],
            None => Seq::empty(),
        })
    }
}

/// What the end of the analysis of a file sets off: errors are reported, its
/// imports are analysed and then the devices that depend on it, unless imports
/// are left alone; it is linted; and waits are looked at.
pub open spec fn isolated_done_effects(
    ctx: InitActionContext,
    path: CanonPath,
    context: Option<CanonPath>,
    imports: Seq<Option<CanonPath>>,
) -> Seq<EffectView> {
    seq![EffectView::ReportErrors] + (if ctx.config.suppress_imports {
        Seq::empty()
    } else {
        imports_analysed(imports, context, imports.len() as int) + seq![
            EffectView::TriggerDeviceAnalysis { path: path@ },
        ]
    }) + lint_triggered(ctx, path@, path.key()) + seq![EffectView::CheckStateWaits]
}

/// How the end of the analysis of a file changes what the server keeps.
pub open spec fn isolated_done_taken(
    before: InitActionContext,
    after: InitActionContext,
    path: CanonPath,
) -> bool {
    if checked_early(before, path.key()) {
        &&& after == (InitActionContext {
            device_active_contexts: after.device_active_contexts,
            previously_checked_contexts: after.previously_checked_contexts,
            ..before
        })
        &&& after.device_active_contexts@ == active_after_check(before, path.key())
        &&& views_after_check(before, after, path@)
        &&& after.previously_checked_contexts@ == before.previously_checked_contexts@.insert(
            ContextKey::Device(path.key()),
        )
    } else {
        after == before
    }
}

/// What an event sets off.
pub open spec fn event_effects(
    before: ActionContext,
    after: ActionContext,
    version: Seq<char>,
    event: ServerToHandle,
) -> Seq<EffectView> {
    match (event, before) {
        (ServerToHandle::ClientMessage(msg), _) => message_effects(before, after, version, msg),
        (ServerToHandle::ClientResponse(id), ActionContext::Init(ctx)) => response_effects(
            ctx.outstanding_requests@,
            id@,
        ),
        (
            ServerToHandle::IsolatedAnalysisDone(path, context, imports),
            ActionContext::Init(ctx),
        ) => isolated_done_effects(ctx, path, context, imports@),
        (ServerToHandle::DeviceAnalysisDone(_), ActionContext::Init(_)) => seq![
            EffectView::ReportErrors,
            EffectView::CheckStateWaits,
        ],
        (ServerToHandle::LinterDone(_), ActionContext::Init(_)) => seq![EffectView::ReportErrors],
        (ServerToHandle::AnalysisRequest(path, context), ActionContext::Init(ctx)) => {
            if ctx.config.suppress_imports {
                Seq::empty()
            } else {
                seq![EffectView::IsolatedAnalyze { path: path@, context: opt_path(context) }]
            }
        },
        _ => Seq::empty(),
    }
}

/// Whether an event changes what the server keeps from `before` to `after`.
pub open spec fn event_taken(
    before: ActionContext,
    after: ActionContext,
    event: ServerToHandle,
) -> bool {
    match (event, before) {
        (ServerToHandle::ClientMessage(msg), _) => message_taken(before, after, msg),
        (ServerToHandle::ClientResponse(id), ActionContext::Init(ctx)) => {
            after matches ActionContext::Init(next) && next == (InitActionContext {
                outstanding_requests: next.outstanding_requests,
                ..ctx
            }) && next.outstanding_requests@ == ctx.outstanding_requests@.remove(id@)
        },
        (
            ServerToHandle::IsolatedAnalysisDone(path, context, imports),
            ActionContext::Init(ctx),
        ) => after matches ActionContext::Init(next) && isolated_done_taken(ctx, next, path),
        _ => after == before,
    }
}

/// How the server goes on after an event.
pub open spec fn event_outcome(ctx: ActionContext, event: ServerToHandle) -> ServerStateChange {
    match event {
        ServerToHandle::ClientMessage(msg) => message_outcome(ctx, msg),
        ServerToHandle::ExitCode(exit_code) => ServerStateChange::Break { exit_code },
        _ => ServerStateChange::Continue,
    }
}

/// Whether an event can be handled.
pub open spec fn can_handle(ctx: ActionContext, event: ServerToHandle) -> bool {
    match (event, ctx) {
        (ServerToHandle::ClientMessage(msg), _) => is_dispatched(ctx, msg) ==> dispatchable(
            ctx,
            msg,
        ),
        (ServerToHandle::IsolatedAnalysisDone(path, _, _), ActionContext::Init(inited)) => {
            checked_early(inited, path.key()) && !inited.previously_checked_contexts@.contains(
                ContextKey::Device(path.key()),
            ) ==> context_decidable(
                inited.config.new_device_context_mode,
                inited.analysis,
                path.key(),
            )
        },
        _ => true,
    }
}

/// What having nothing to do sets off: the end of the progress report, where
/// nothing is under way, and that old analyses are dropped, where they are not
/// kept for ever.
pub open spec fn idle_effects(ctx: InitActionContext) -> Seq<EffectView> {
    (if ctx.analysis_queue.is_idle() && ctx.current_notifier is Some {
        seq![EffectView::EndProgress { id: ctx.current_notifier->0@, title: "Analysing"@ }] + (
        if builtins_missed(ctx) {
            seq![builtins_warning()]
        } else {
            Seq::empty()
        })
    } else {
        Seq::empty()
    }) + (match ctx.config.analysis_retain_duration {
        Some(seconds) => seq![EffectView::DiscardOldAnalysis { seconds }],
        None => Seq::empty(),
    })
}

/// How having nothing to do changes what the server keeps: the progress report
/// is ended where nothing is under way.
pub open spec fn idle_taken(before: InitActionContext, after: InitActionContext) -> bool {
    if before.analysis_queue.is_idle() && before.current_notifier is Some {
        after == (InitActionContext {
            current_notifier: None,
            has_notified_missing_builtins: before.has_notified_missing_builtins
                || builtins_missed(before),
            ..before
        })
    } else {
        after == before
    }
}

/// A language server.
pub struct LsService {
    pub ctx: ActionContext,
    /// The version that the server introduces itself with.
    pub version: String,
}

impl LsService {
    /// A server that has not been initialized.
    pub fn new(
        config: Config,
        pid: u32,
        implicit_imports: Vec<String>,
        version: String,
    ) -> (service: Self)
        ensures
            service.version == version,
            service.ctx matches ActionContext::Uninit(uninit) && uninit.config == config
                && uninit.pid == pid && uninit.implicit_imports == implicit_imports
                && uninit.analysis.is_empty(),
    {
        LsService { ctx: ActionContext::new(config, pid, implicit_imports), version }
    }

    /// Handles a message whose method the server knows and whose parameters
    /// could be parsed.
    fn dispatch_params(&mut self, id: RequestId, params: MessageParams, out: &mut Outbox)
        requires
            match (params, old(self).ctx) {
                (MessageParams::Notification(params), ActionContext::Init(inited)) => {
                    params.needs_roots(inited) ==> roots_are_paths(inited.workspace_roots@)
                },
                (MessageParams::Initialize(params), ActionContext::Uninit(_)) => {
                    params.folders_are_paths()
                },
                _ => true,
            },
        ensures
            final(self).version == old(self).version,
            params_taken(old(self).ctx, final(self).ctx, params),
            final(out)@ == old(out)@ + params_effects(
                old(self).ctx,
                final(self).ctx,
                old(self).version@,
                id@,
                params,
            ),
    {
        let ghost before = out@;
        let ghost start = self.ctx;
        let ghost request_id = id@;
        match params {
            MessageParams::Notification(params) => {
                match &mut self.ctx {
                    ActionContext::Init(inited) => {
                        let _ = params.dispatch(inited, out);
                    },
                    ActionContext::Uninit(_) => {
                        assert(out@ =~= before + Seq::<EffectView>::empty());
                    },
                }
            },
            MessageParams::Shutdown => {
                match ShutdownRequest::handle(&mut self.ctx, out) {
                    Ok(Ack) => {
                        out.push(Effect::RespondAck { id });
                        assert(out@ =~= before + seq![
                            EffectView::WaitForJobs,
                            EffectView::RespondAck { id: request_id },
                        ]);
                    },
                    Err(e) => {
                        answer_failure(id, e, out);
                        assert(out@ =~= before + seq![
                            failure_answer(request_id, not_initialized()),
                        ]);
                    },
                }
            },
            MessageParams::Initialize(params) => {
                let answer_id = id.duplicate();
                self.wait_for_concurrent_jobs(out);
                match InitializeRequest::handle(
                    id,
                    params,
                    self.version.as_str(),
                    &mut self.ctx,
                    out,
                ) {
                    Ok(NoResponse) => {},
                    Err(e) => {
                        answer_failure(answer_id, e, out);
                        assert(out@ =~= before + seq![
                            EffectView::WaitForJobs,
                            failure_answer(request_id, already_initialized()),
                        ]);
                    },
                }
            },
            MessageParams::Request(request) => {
                if self.ctx.inited().is_ok() {
                    out.push(Effect::Dispatch { id, request });
                    assert(out@ =~= before + seq![
                        EffectView::Dispatch { id: request_id, request },
                    ]);
                } else {
                    let error = ResponseError::Message(
                        NOT_INITIALIZED_CODE,
                        "not yet received `initialize` request".to_owned(),
                    );
                    answer_failure(id, error, out);
                    assert(out@ =~= before + seq![failure_answer(request_id, not_initialized())]);
                }
            },
        }
    }

    /// Handles a message according to its method. Notifications and the
    /// requests that start and end the server are handled at once, these
    /// requests when all are done that were handed to workers; other requests
    /// are handed to a worker. A notification that comes before the
    /// server has been initialized is passed over; a request is answered with
    /// an error then. A message whose method is not known is passed over.
    pub fn dispatch_message(&mut self, msg: RawMessage, out: &mut Outbox) -> (result: Result<
        (),
        String,
    >)
        requires
            dispatchable(old(self).ctx, msg),
        ensures
            result is Err == is_malformed(msg),
            result matches Err(e) ==> e@ == msg.params->Err_0@,
            final(self).version == old(self).version,
            dispatch_taken(old(self).ctx, final(self).ctx, msg),
            final(out)@ == old(out)@ + dispatch_effects(
                old(self).ctx,
                final(self).ctx,
                old(self).version@,
                msg,
            ),
    {
        let ghost before = out@;
        if Method::from_name(msg.method.as_str()).is_none() {
            assert(out@ =~= before + Seq::<EffectView>::empty());
            return Ok(());
        }
        match msg.params {
            Ok(params) => {
                self.dispatch_params(msg.id, params, out);
                Ok(())
            },
            Err(e) => {
                assert(out@ =~= before + Seq::<EffectView>::empty());
                Err(e)
            },
        }
    }

    /// Handles a message of the client, and says how the server goes on.
    pub fn handle_message(&mut self, msg: RawMessage, out: &mut Outbox) -> (change:
        ServerStateChange)
        requires
            is_dispatched(old(self).ctx, msg) ==> dispatchable(old(self).ctx, msg),
        ensures
            change == message_outcome(old(self).ctx, msg),
            final(self).version == old(self).version,
            message_taken(old(self).ctx, final(self).ctx, msg),
            final(out)@ == old(out)@ + message_effects(
                old(self).ctx,
                final(self).ctx,
                old(self).version@,
                msg,
            ),
    {
        let ghost before = out@;
        let shutdown_mode = match &self.ctx {
            ActionContext::Init(ctx) => ctx.shut_down,
            ActionContext::Uninit(_) => false,
        };
        assert(shutdown_mode == in_shutdown(self.ctx));
        if same_text(msg.method.as_str(), "exit") {
            assert(out@ =~= before + Seq::<EffectView>::empty());
            let exit_code: i32 = if shutdown_mode {
                0
            } else {
                1
            };
            return ServerStateChange::Break { exit_code };
        }
        if shutdown_mode {
            assert(out@ =~= before + Seq::<EffectView>::empty());
            return ServerStateChange::Continue;
        }
        let id = msg.id.duplicate();
        match self.dispatch_message(msg, out) {
            Ok(_) => ServerStateChange::Continue,
            Err(message) => {
                out.push(
                    Effect::CustomFailure { id, error: StandardError::InternalError, message },
                );
                assert(out@ =~= before + message_effects(
                    old(self).ctx,
                    self.ctx,
                    old(self).version@,
                    msg,
                ));
                ServerStateChange::Break { exit_code: 101 }
            },
        }
    }

    /// Waits until all requests are done that were handed to workers. Before
    /// the server has been initialized there are none.
    pub fn wait_for_concurrent_jobs(&mut self, out: &mut Outbox)
        ensures
            *final(self) == *old(self),
            final(out)@ == (match old(self).ctx {
                ActionContext::Init(_) => old(out)@.push(EffectView::WaitForJobs),
                ActionContext::Uninit(_) => old(out)@,
            }),
    {
        match &self.ctx {
            ActionContext::Init(ctx) => {
                ctx.wait_for_concurrent_jobs(out);
            },
            ActionContext::Uninit(_) => {},
        }
    }

    /// Does what is due when there is nothing to handle.
    pub fn handle_idle(&mut self, out: &mut Outbox)
        ensures
            final(self).version == old(self).version,
            match (old(self).ctx, final(self).ctx) {
                (ActionContext::Init(before), ActionContext::Init(after)) => {
                    &&& idle_taken(before, after)
                    &&& final(out)@ == old(out)@ + idle_effects(before)
                },
                (ActionContext::Uninit(before), ActionContext::Uninit(after)) => {
                    &&& after == before
                    &&& final(out)@ == old(out)@
                },
                _ => false,
            },
    {
        let ghost before = out@;
        match &mut self.ctx {
            ActionContext::Init(ctx) => {
                let ghost start = *ctx;
                ctx.maybe_end_progress(out);
                match ctx.config.analysis_retain_duration {
                    Some(seconds) => {
                        out.push(Effect::DiscardOldAnalysis { seconds });
                    },
                    None => {},
                }
                assert(out@ =~= before + idle_effects(start));
            },
            ActionContext::Uninit(_) => {},
        }
    }

    /// Handles whatever comes next, and says how the server goes on.
    pub fn handle_event(&mut self, event: ServerToHandle, out: &mut Outbox) -> (change:
        ServerStateChange)
        requires
            can_handle(old(self).ctx, event),
        ensures
            change == event_outcome(old(self).ctx, event),
            final(self).version == old(self).version,
            event_taken(old(self).ctx, final(self).ctx, event),
            final(out)@ == old(out)@ + event_effects(
                old(self).ctx,
                final(self).ctx,
                old(self).version@,
                event,
            ),
    {
        let ghost before = out@;
        match event {
            ServerToHandle::ClientMessage(msg) => self.handle_message(msg, out),
            ServerToHandle::ClientResponse(id) => {
                match &mut self.ctx {
                    ActionContext::Init(ctx) => {
                        ctx.handle_request_response(&id, out);
                    },
                    ActionContext::Uninit(_) => {
                        assert(out@ =~= before + Seq::<EffectView>::empty());
                    },
                }
                ServerStateChange::Continue
            },
            ServerToHandle::ExitCode(exit_code) => {
                assert(out@ =~= before + Seq::<EffectView>::empty());
                ServerStateChange::Break { exit_code }
            },
            ServerToHandle::IsolatedAnalysisDone(path, context, imports) => {
                match &mut self.ctx {
                    ActionContext::Init(ctx) => {
                        isolated_done(ctx, &path, &context, &imports, out);
                    },
                    ActionContext::Uninit(_) => {
                        assert(out@ =~= before + Seq::<EffectView>::empty());
                    },
                }
                ServerStateChange::Continue
            },
            ServerToHandle::DeviceAnalysisDone(_) => {
                if self.ctx.inited().is_ok() {
                    out.push(Effect::ReportErrors);
                    out.push(Effect::CheckStateWaits);
                    assert(out@ =~= before + seq![
                        EffectView::ReportErrors,
                        EffectView::CheckStateWaits,
                    ]);
                } else {
                    assert(out@ =~= before + Seq::<EffectView>::empty());
                }
                ServerStateChange::Continue
            },
            ServerToHandle::LinterDone(_) => {
                if self.ctx.inited().is_ok() {
                    out.push(Effect::ReportErrors);
                    assert(out@ =~= before + seq![EffectView::ReportErrors]);
                } else {
                    assert(out@ =~= before + Seq::<EffectView>::empty());
                }
                ServerStateChange::Continue
            },
            ServerToHandle::AnalysisRequest(path, context) => {
                let wanted = match &self.ctx {
                    ActionContext::Init(ctx) => !ctx.config.suppress_imports,
                    ActionContext::Uninit(_) => false,
                };
                if wanted {
                    out.push(Effect::IsolatedAnalyze { path, context });
                    assert(out@ =~= before + seq![
                        EffectView::IsolatedAnalyze { path: path@, context: opt_path(context) },
                    ]);
                } else {
                    assert(out@ =~= before + Seq::<EffectView>::empty());
                }
                ServerStateChange::Continue
            },
        }
    }
}

/// Handles the end of the analysis of a file.
fn isolated_done(
    ctx: &mut InitActionContext,
    path: &CanonPath,
    context: &Option<CanonPath>,
    imports: &Vec<Option<CanonPath>>,
    out: &mut Outbox,
)
    requires
        checked_early(*old(ctx), path.key()) && !old(ctx).previously_checked_contexts@.contains(
            ContextKey::Device(path.key()),
        ) ==> context_decidable(
            old(ctx).config.new_device_context_mode,
            old(ctx).analysis,
            path.key(),
        ),
    ensures
        isolated_done_taken(*old(ctx), *final(ctx), *path),
        final(out)@ == old(out)@ + isolated_done_effects(*old(ctx), *path, *context, imports@),
{
    let ghost before = out@;
    let is_device = match ctx.analysis.isolated_analysis.get(path) {
        Some(info) => info.is_device_file,
        None => false,
    };
    if is_device && ctx.config.new_device_context_mode != DeviceContextMode::First {
        ctx.maybe_add_device_context(path);
    }
    out.push(Effect::ReportErrors);
    let ghost first = seq![EffectView::ReportErrors];
    assert(out@ =~= before + first);
    let ghost second = if ctx.config.suppress_imports {
        Seq::empty()
    } else {
        imports_analysed(imports@, *context, imports@.len() as int) + seq![
            EffectView::TriggerDeviceAnalysis { path: path@ },
        ]
    };
    if !ctx.config.suppress_imports {
        analyse_imports(imports, context, out);
        out.push(Effect::TriggerDeviceAnalysis { path: path.duplicate() });
    }
    assert(out@ =~= before + first + second);
    ctx.maybe_trigger_lint_analysis(path, path, out);
    assert(lint_triggered(*ctx, path@, path.key()) == lint_triggered(
        *old(ctx),
        path@,
        path.key(),
    ));
    out.push(Effect::CheckStateWaits);
    assert(out@ =~= before + isolated_done_effects(*old(ctx), *path, *context, imports@));
}

/// Has the imports analysed that could be found.
fn analyse_imports(
    imports: &Vec<Option<CanonPath>>,
    context: &Option<CanonPath>,
    out: &mut Outbox,
)
    ensures
        final(out)@ == old(out)@ + imports_analysed(imports@, *context, imports@.len() as int),
{
    let ghost before = out@;
    let mut i: usize = 0;
    assert(out@ =~= before + imports_analysed(imports@, *context, 0));
    while i < imports.len()
        invariant
            i <= imports@.len(),
            out@ == before + imports_analysed(imports@, *context, i as int),
        decreases imports@.len() - i,
    {
        if let Some(path) = &imports[i] {
            out.push(
                Effect::IsolatedAnalyze {
                    path: path.duplicate(),
                    context: copy_opt_path(context),
                },
            );
        }
        i += 1;
        assert(out@ =~= before + imports_analysed(imports@, *context, i as int));
    }
}

} // verus!
