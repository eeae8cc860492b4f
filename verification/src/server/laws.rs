//! What holds of every message and every event.
use crate::actions::compile_info::{compile_info_effects, CompileInfoReading, ConfigFiles};
use crate::actions::config_change::{
    analysed_files, compile_info_part, config_change_effects, lint_config_changed,
    lint_config_part, lint_config_shown, lint_reissue, lints_triggered, reissue_effects,
    LintReissueRequirement,
};
use crate::actions::context::{CompilationInfoStorage, InitActionContext};
use crate::actions::init::{start_effects, ActionContext};
use crate::actions::notifications::{settings_shown, with_config, NotificationParams};
use crate::config::ConfigView;
use crate::effects::EffectView;
use crate::path::PathView;
use crate::server::caps::introduction;
use crate::server::lifecycle::{initialize_effects, InitializeParams};
use crate::server::message::IdView;
use crate::server::methods::{BlockingMethod, Method};
use crate::server::notify::{
    deprecations_shown, duplicates_shown, unknown_configs_logged, DeprecatedKey, DuplicatedKey,
};
use crate::server::service::{
    event_effects, event_outcome, event_taken, idle_effects, idle_taken, in_shutdown, is_dispatched,
    message_effects, message_outcome, message_taken, params_effects, params_taken, MessageParams,
    RawMessage, ServerStateChange, ServerToHandle,
};
use crate::text::texts;
use vstd::prelude::*;

verus! {

/// The request that an effect answers or hands to a worker, if any.
pub open spec fn answered(effect: EffectView) -> Option<IdView> {
    match effect {
        EffectView::RespondInitialize { id, result } => Some(id),
        EffectView::RespondAck { id } => Some(id),
        EffectView::CustomFailure { id, error, message } => Some(id),
        EffectView::FailureMessage { id, code, message } => Some(id),
        EffectView::Dispatch { id, request } => Some(id),
        _ => None,
    }
}

/// Whether none of the effects answers a request.
pub open spec fn answers_nothing(effects: Seq<EffectView>) -> bool {
    forall|i: int| 0 <= i < effects.len() ==> answered(#[trigger] effects[i]) is None
}

/// Whether exactly one of the effects answers a request, and it is the one
/// with this id.
pub open spec fn answers_once(effects: Seq<EffectView>, id: IdView) -> bool {
    exists|i: int|
        {
            &&& 0 <= i < effects.len()
            &&& answered(#[trigger] effects[i]) == Some(id)
            &&& forall|j: int|
                0 <= j < effects.len() && j != i ==> answered(#[trigger] effects[j]) is None
        }
}

/// Settings are shown without an answer.
proof fn lemma_settings_answer_nothing(
    unknowns: Seq<Seq<char>>,
    deprecated: Seq<DeprecatedKey>,
    duplicated: Seq<DuplicatedKey>,
)
    ensures
        answers_nothing(
            unknown_configs_logged(unknowns) + deprecations_shown(deprecated) + duplicates_shown(
                duplicated,
            ),
        ),
{
}

/// Taking compile information over answers nothing.
proof fn lemma_compile_info_answers_nothing(
    ctx: InitActionContext,
    reading: CompileInfoReading,
    info: CompilationInfoStorage,
)
    ensures
        answers_nothing(compile_info_effects(ctx, reading, info)),
{
}

/// Linting files answers nothing.
proof fn lemma_lints_answer_nothing(
    ctx: InitActionContext,
    files: Seq<PathView>,
    missing_only: bool,
    n: int,
)
    ensures
        answers_nothing(lints_triggered(ctx, files, missing_only, n)),
    decreases n,
{
    if n > 0 {
        lemma_lints_answer_nothing(ctx, files, missing_only, n - 1);
    }
}

/// Bringing lint findings in line answers nothing.
proof fn lemma_reissue_answers_nothing(ctx: InitActionContext, required: LintReissueRequirement)
    ensures
        answers_nothing(reissue_effects(ctx, required)),
{
    let files = analysed_files(ctx);
    lemma_lints_answer_nothing(ctx, files, true, files.len() as int);
    lemma_lints_answer_nothing(ctx, files, false, files.len() as int);
}

/// One after the other, what answers nothing answers nothing.
proof fn lemma_concat_answers_nothing(a: Seq<EffectView>, b: Seq<EffectView>)
    requires
        answers_nothing(a),
        answers_nothing(b),
    ensures
        answers_nothing(a + b),
{
}

/// A change of the configuration answers nothing.
proof fn lemma_config_change_answers_nothing(
    ctx: InitActionContext,
    old_config: ConfigView,
    files: ConfigFiles,
    info: CompilationInfoStorage,
)
    ensures
        answers_nothing(config_change_effects(ctx, old_config, files, info)),
{
    lemma_compile_info_answers_nothing(ctx, files.compile_info, info);
    let first = compile_info_part(ctx, old_config, files.compile_info, info);
    let second = lint_config_part(ctx, old_config, files.lint_cfg);
    let changed = InitActionContext {
        lint_config: lint_config_changed(ctx, old_config, files.lint_cfg),
        ..ctx
    };
    let required = lint_reissue(old_config, ctx.config@);
    lemma_reissue_answers_nothing(changed, required);
    assert(answers_nothing(first));
    assert(answers_nothing(second));
    lemma_concat_answers_nothing(first, second);
    lemma_concat_answers_nothing(first + second, reissue_effects(changed, required));
}

/// Notifications are never answered.
pub proof fn notifications_are_not_answered(
    ctx: InitActionContext,
    after: InitActionContext,
    params: NotificationParams,
)
    ensures
        answers_nothing(params.effects(ctx, after)),
{
    let info = after.compilation_info;
    match params {
        NotificationParams::DidChangeConfiguration { settings, files, id } => {
            lemma_settings_answer_nothing(
                texts(settings.unknowns@),
                settings.deprecated@,
                settings.duplicated@,
            );
            if settings.config is Ok {
                let config = settings.config->Ok_0;
                lemma_config_change_answers_nothing(
                    with_config(ctx, config),
                    ctx.config@,
                    files,
                    info,
                );
                lemma_concat_answers_nothing(
                    settings_shown(settings),
                    config_change_effects(with_config(ctx, config), ctx.config@, files, info),
                );
            }
        },
        NotificationParams::DidChangeWatchedFiles { changes, files } => {
            lemma_compile_info_answers_nothing(ctx, files.compile_info, info);
            assert(answers_nothing(lint_config_shown(ctx, files.lint_cfg)));
        },
        _ => {},
    }
}

/// A request whose method the server knows is answered exactly once, or handed
/// to a worker exactly once, if it gets as far as being dispatched: also when
/// its parameters are none, and also when the server has not been initialized.
pub proof fn requests_are_answered_once(
    before: ActionContext,
    after: ActionContext,
    version: Seq<char>,
    msg: RawMessage,
)
    requires
        is_dispatched(before, msg),
        msg.well_parsed(),
        msg.known_method() is Some,
        !(msg.known_method()->0 is Notification),
        message_taken(before, after, msg),
    ensures
        answers_once(message_effects(before, after, version, msg), msg.id@),
{
    let effects = message_effects(before, after, version, msg);
    if msg.params is Err {
        assert(answered(effects[0]) == Some(msg.id@));
    } else {
        let params = msg.params->Ok_0;
        match (params, before) {
            (MessageParams::Shutdown, ActionContext::Init(_)) => {
                assert(answered(effects[1]) == Some(msg.id@));
            },
            (MessageParams::Initialize(_), ActionContext::Init(_)) => {
                assert(answered(effects[1]) == Some(msg.id@));
            },
            (MessageParams::Initialize(p), ActionContext::Uninit(_)) => {
                let shown = p.settings_shown();
                lemma_settings_answer_nothing(texts(p.unknowns@), p.deprecated@, p.duplicated@);
                let inited = after->Init_0;
                let tail = start_effects(inited, p.files);
                assert(answers_nothing(tail));
                assert(effects == initialize_effects(msg.id@, p, version, inited));
                assert(answered(effects[0]) == Some(msg.id@));
                assert forall|j: int| 0 <= j < effects.len() && j != 0 implies answered(
                    #[trigger] effects[j],
                ) is None by {
                    if j < 1 + shown.len() {
                        assert(effects[j] == shown[j - 1]);
                    } else if j < 1 + shown.len() + tail.len() {
                        assert(effects[j] == tail[j - 1 - shown.len()]);
                    }
                }
            },
            (MessageParams::Notification(_), _) => {},
            _ => {
                assert(answered(effects[0]) == Some(msg.id@));
            },
        }
    }
}

/// Before the server has been initialized every request but `initialize` is
/// refused in the same words, every notification is passed over, and the server
/// stays as it is.
pub proof fn nothing_is_served_before_initialization(
    before: ActionContext,
    after: ActionContext,
    version: Seq<char>,
    msg: RawMessage,
)
    requires
        before is Uninit,
        msg.method@ != "exit"@,
        msg.well_parsed(),
        msg.known_method() is Some,
        msg.known_method() != Some(Method::Blocking(BlockingMethod::Initialize)),
        msg.params is Ok,
        message_taken(before, after, msg),
    ensures
        after == before,
        message_effects(before, after, version, msg) == (if msg.known_method()->0 is Notification {
            Seq::empty()
        } else {
            seq![
                EffectView::FailureMessage {
                    id: msg.id@,
                    code: -32002i32,
                    message: "not yet received `initialize` request"@,
                },
            ]
        }),
{
}

/// The answer to the `initialize` request comes before everything else.
pub proof fn initialize_is_answered_first(
    id: IdView,
    params: InitializeParams,
    version: Seq<char>,
    after: InitActionContext,
)
    ensures
        initialize_effects(id, params, version, after)[0] == (EffectView::RespondInitialize {
            id,
            result: introduction(version),
        }),
{
}

/// A request that is handled at once waits for the requests that were handed to
/// workers: in a server that has been initialized the wait comes before all else
/// that the request sets off. Before that nothing is handed to a worker.
pub proof fn blocking_requests_wait(
    before: ActionContext,
    after: ActionContext,
    version: Seq<char>,
    msg: RawMessage,
)
    requires
        is_dispatched(before, msg),
        msg.well_parsed(),
        msg.params is Ok,
        message_taken(before, after, msg),
    ensures
        before is Init && msg.known_method() is Some && msg.known_method()->0 is Blocking
            ==> message_effects(
            before,
            after,
            version,
            msg,
        )[0] == EffectView::WaitForJobs,
        before is Uninit ==> forall|i: int|
            0 <= i < message_effects(before, after, version, msg).len() ==> !(
            #[trigger] message_effects(before, after, version, msg)[i] is Dispatch),
{
    if before is Uninit && msg.known_method() is Some && msg.params->Ok_0 is Initialize {
        let params = msg.params->Ok_0->Initialize_0;
        let effects = message_effects(before, after, version, msg);
        requests_are_answered_once(before, after, version, msg);
        assert(effects[0] is RespondInitialize);
        assert forall|i: int| 0 <= i < effects.len() implies !(#[trigger] effects[i]
            is Dispatch) by {
            if i != 0 {
                let only = choose|k: int|
                    {
                        &&& 0 <= k < effects.len()
                        &&& answered(#[trigger] effects[k]) == Some(msg.id@)
                        &&& forall|j: int|
                            0 <= j < effects.len() && j != k ==> answered(#[trigger] effects[j])
                                is None
                    };
                assert(only == 0);
                assert(answered(effects[i]) is None);
            }
        }
    }
}

/// The server is initialized at most once: a second `initialize` request is
/// refused, after the wait for earlier requests, and changes nothing.
pub proof fn initialized_at_most_once(
    before: ActionContext,
    after: ActionContext,
    version: Seq<char>,
    id: IdView,
    params: InitializeParams,
)
    requires
        before is Init,
        params_taken(before, after, MessageParams::Initialize(params)),
    ensures
        after == before,
        params_effects(before, after, version, id, MessageParams::Initialize(params)) == seq![
            EffectView::WaitForJobs,
            EffectView::FailureMessage {
                id,
                code: 123i32,
                message: "Already received an initialize request"@,
            },
        ],
{
}

/// No event takes the server back to where it has not been initialized.
pub proof fn initialization_lasts(
    before: ActionContext,
    after: ActionContext,
    event: ServerToHandle,
)
    requires
        before is Init,
        event_taken(before, after, event),
    ensures
        after is Init,
{
}

/// Once the server has been asked to shut down, no event changes that, and
/// every message but `exit` is passed over.
pub proof fn shutdown_lasts(
    before: ActionContext,
    after: ActionContext,
    version: Seq<char>,
    event: ServerToHandle,
)
    requires
        in_shutdown(before),
        event_taken(before, after, event),
    ensures
        in_shutdown(after),
        event matches ServerToHandle::ClientMessage(msg) && msg.method@ != "exit"@ ==> {
            &&& after == before
            &&& event_outcome(before, event) == ServerStateChange::Continue
            &&& event_effects(before, after, version, event) == Seq::<EffectView>::empty()
        },
{
}

/// Where the server stands after a number of events.
pub open spec fn passes_through(states: Seq<ActionContext>, events: Seq<ServerToHandle>) -> bool {
    &&& states.len() == events.len() + 1
    &&& forall|i: int|
        0 <= i < events.len() ==> event_taken(states[i], states[i + 1], #[trigger] events[i])
}

/// Once the server has been asked to shut down, `exit` ends it with code 0,
/// whatever comes in between.
pub proof fn exit_after_shutdown_is_clean(
    states: Seq<ActionContext>,
    events: Seq<ServerToHandle>,
    exit: RawMessage,
)
    requires
        passes_through(states, events),
        in_shutdown(states[0]),
        exit.method@ == "exit"@,
    ensures
        message_outcome(states.last(), exit) == (ServerStateChange::Break { exit_code: 0 }),
    decreases events.len(),
{
    if events.len() > 0 {
        assert(event_taken(states[0], states[1], events[0]));
        shutdown_lasts(states[0], states[1], Seq::empty(), events[0]);
        let later = states.drop_first();
        let rest = events.drop_first();
        assert forall|i: int| 0 <= i < rest.len() implies event_taken(
            later[i],
            later[i + 1],
            #[trigger] rest[i],
        ) by {
            assert(event_taken(states[i + 1], states[i + 2], events[i + 1]));
        }
        exit_after_shutdown_is_clean(later, rest, exit);
        assert(later.last() == states.last());
    } else {
        assert(states.last() == states[0]);
    }
}

/// A `shutdown` request is heeded if the server has been initialized. If not,
/// `exit` still ends the server with code 1.
pub proof fn shutdown_request_is_heeded(
    before: ActionContext,
    after: ActionContext,
    exit: RawMessage,
)
    requires
        params_taken(before, after, MessageParams::Shutdown),
        exit.method@ == "exit"@,
    ensures
        in_shutdown(after) <==> before is Init,
        before is Uninit ==> message_outcome(after, exit) == (ServerStateChange::Break {
            exit_code: 1,
        }),
{
}

/// The end of an analysis is told once: when there is still nothing to do, it
/// is not told again.
pub proof fn progress_end_is_told_once(before: InitActionContext, after: InitActionContext)
    requires
        idle_taken(before, after),
        before.analysis_queue.is_idle(),
    ensures
        forall|i: int| 0 <= i < idle_effects(after).len() ==> !(#[trigger] idle_effects(after)[i]
            is EndProgress),
{
}

/// Where imports are left alone, the end of the analysis of a file has no other
/// file and no device analysed, and neither has a request for the analysis of
/// an import.
pub proof fn suppressed_imports_are_left_alone(
    ctx: InitActionContext,
    after: ActionContext,
    version: Seq<char>,
    event: ServerToHandle,
    i: int,
)
    requires
        ctx.config.suppress_imports,
        event is IsolatedAnalysisDone || event is AnalysisRequest,
        0 <= i < event_effects(ActionContext::Init(ctx), after, version, event).len(),
    ensures
        !(event_effects(ActionContext::Init(ctx), after, version, event)[i] is IsolatedAnalyze),
        !(event_effects(ActionContext::Init(ctx), after, version, event)[i]
            is TriggerDeviceAnalysis),
{
}

/// Whether the event is a notification of the client with these parameters.
pub open spec fn is_notification(event: ServerToHandle, params: NotificationParams) -> bool {
    event matches ServerToHandle::ClientMessage(msg) && msg.params
        == Ok::<MessageParams, String>(MessageParams::Notification(params))
}

/// No event changes the process, what the client can do, or which files every
/// file imports. Only a change of the client's configuration changes the
/// configuration, and only opening and closing documents changes which files
/// count as open.
pub proof fn only_their_notifications_change_things(
    before: InitActionContext,
    after: InitActionContext,
    event: ServerToHandle,
)
    requires
        event_taken(ActionContext::Init(before), ActionContext::Init(after), event),
    ensures
        after.pid == before.pid,
        after.client_capabilities == before.client_capabilities,
        after.implicit_imports == before.implicit_imports,
        (forall|params: NotificationParams|
            #[trigger] is_notification(event, params)
                ==> !(params is DidChangeConfiguration)) ==> after.config == before.config,
        (forall|params: NotificationParams|
            #[trigger] is_notification(event, params) ==> !(params is DidOpenTextDocument)
                && !(params is DidCloseTextDocument)) ==> after.direct_opens == before.direct_opens,
{
    if event is ClientMessage {
        let msg = event->ClientMessage_0;
        if msg.params is Ok && msg.params->Ok_0 is Notification {
            let params = msg.params->Ok_0->Notification_0;
            assert(is_notification(event, params));
        }
    }
}

} // verus!
