//! What goes over the wire, as far as the server decides on it.
use crate::collections::Keyed;
use vstd::prelude::*;
use vstd::string::*;

verus! {

/// What tells a request apart from the others that are under way.
pub enum RequestId {
    Null,
    Str(String),
    Num(u64),
}

/// What a request id says.
pub enum IdView {
    Null,
    Str(Seq<char>),
    Num(u64),
}

impl View for RequestId {
    type V = IdView;

    open spec fn view(&self) -> IdView {
        match self {
            RequestId::Null => IdView::Null,
            RequestId::Str(s) => IdView::Str(s@),
            RequestId::Num(n) => IdView::Num(*n),
        }
    }
}

impl Keyed for RequestId {
    type Key = IdView;

    open spec fn key(&self) -> IdView {
        self@
    }

    fn same_key(&self, other: &Self) -> (same: bool) {
        match (self, other) {
            (RequestId::Null, RequestId::Null) => true,
            (RequestId::Str(a), RequestId::Str(b)) => *a == *b,
            (RequestId::Num(a), RequestId::Num(b)) => *a == *b,
            _ => false,
        }
    }

    fn duplicate(&self) -> (copy: Self) {
        match self {
            RequestId::Null => RequestId::Null,
            RequestId::Str(s) => RequestId::Str(s.clone()),
            RequestId::Num(n) => RequestId::Num(*n),
        }
    }
}

/// How loud a message to the user is.
#[derive(Clone, Copy, PartialEq, Eq, Structural, Debug)]
pub enum MessageType {
    Error,
    Warning,
    Info,
}

/// The errors of the protocol that the server answers with.
#[derive(Clone, Copy, PartialEq, Eq, Structural, Debug)]
pub enum StandardError {
    ParseError,
    InternalError,
}

/// Why a request or a notification was not served.
pub enum ResponseError {
    /// There is nothing to say about it.
    Empty,
    /// A code and a message for the client.
    Message(i32, String),
}

/// What a response error says.
pub enum ResponseErrorView {
    Empty,
    Message(i32, Seq<char>),
}

impl View for ResponseError {
    type V = ResponseErrorView;

    open spec fn view(&self) -> ResponseErrorView {
        match self {
            ResponseError::Empty => ResponseErrorView::Empty,
            ResponseError::Message(code, message) => ResponseErrorView::Message(*code, message@),
        }
    }
}

/// A pattern of files that the client watches for the server.
pub struct FileSystemWatcher {
    pub glob_pattern: String,
    /// Which changes to watch for, as a set of bits; all where it is absent.
    pub kind: Option<u8>,
}

/// What a watcher says.
pub struct WatcherView {
    pub glob_pattern: Seq<char>,
    pub kind: Option<u8>,
}

impl View for FileSystemWatcher {
    type V = WatcherView;

    open spec fn view(&self) -> WatcherView {
        WatcherView { glob_pattern: self.glob_pattern@, kind: self.kind }
    }
}

/// The files that the client watches for the server.
pub struct WatchersConfig {
    pub watchers: Vec<FileSystemWatcher>,
}

impl View for WatchersConfig {
    type V = Seq<WatcherView>;

    open spec fn view(&self) -> Seq<WatcherView> {
        self.watchers@.map_values(|w: FileSystemWatcher| w@)
    }
}

/// A request that the server sends to the client.
pub enum ClientRequest {
    /// Asks for notifications of one kind from now on.
    RegisterCapability { id: String, method: String, register_options: Option<WatchersConfig> },
    /// Asks for a section of the client's configuration.
    WorkspaceConfiguration { section: String },
}

/// What a request to the client says.
pub enum ClientRequestView {
    RegisterCapability {
        id: Seq<char>,
        method: Seq<char>,
        register_options: Option<Seq<WatcherView>>,
    },
    WorkspaceConfiguration { section: Seq<char> },
}

impl View for ClientRequest {
    type V = ClientRequestView;

    open spec fn view(&self) -> ClientRequestView {
        match self {
            ClientRequest::RegisterCapability { id, method, register_options } => {
                ClientRequestView::RegisterCapability {
                    id: id@,
                    method: method@,
                    register_options: match register_options {
                        Some(watchers) => Some(watchers@),
                        None => None,
                    },
                }
            },
            ClientRequest::WorkspaceConfiguration { section } => {
                ClientRequestView::WorkspaceConfiguration { section: section@ }
            },
        }
    }
}

/// Which request to the client an answer belongs to.
#[derive(Clone, Copy, PartialEq, Eq, Structural, Debug)]
pub enum ClientRequestKind {
    RegisterCapability,
    WorkspaceConfiguration,
}

/// Which kind of request it is.
pub open spec fn kind_of(request: ClientRequestView) -> ClientRequestKind {
    match request {
        ClientRequestView::RegisterCapability { id, method, register_options } => {
            ClientRequestKind::RegisterCapability
        },
        ClientRequestView::WorkspaceConfiguration { section } => {
            ClientRequestKind::WorkspaceConfiguration
        },
    }
}

impl ClientRequest {
    /// Which kind of request this is.
    pub fn kind(&self) -> (kind: ClientRequestKind)
        ensures
            kind == kind_of(self@),
    {
        match self {
            ClientRequest::RegisterCapability { .. } => ClientRequestKind::RegisterCapability,
            ClientRequest::WorkspaceConfiguration { .. } => {
                ClientRequestKind::WorkspaceConfiguration
            },
        }
    }
}

/// Requests are told apart by their ids, and say what they hold.
pub proof fn requests_say_what_they_hold(id: RequestId, request: ClientRequest, error: ResponseError)
    ensures
        id.key() == id@,
        id is Null ==> id@ is Null,
        id is Str ==> id@ == IdView::Str(id->Str_0@),
        id is Num ==> id@ == IdView::Num(id->Num_0),
        request is WorkspaceConfiguration ==> request@ == (
        ClientRequestView::WorkspaceConfiguration {
            section: request->WorkspaceConfiguration_section@,
        }),
        request is RegisterCapability ==> request@ is RegisterCapability
            && request@->RegisterCapability_id == request->RegisterCapability_id@
            && request@->RegisterCapability_method == request->RegisterCapability_method@
            && request@->RegisterCapability_register_options is Some
            == request->RegisterCapability_register_options is Some && (
        request->RegisterCapability_register_options is Some
            ==> request@->RegisterCapability_register_options->0
            == request->RegisterCapability_register_options->0@),
        error is Empty ==> error@ is Empty,
        error is Message ==> error@ == ResponseErrorView::Message(
            error->Message_0,
            error->Message_1@,
        ),
{
}

/// What is watched says its patterns and kinds, in order.
pub proof fn watchers_say_what_they_hold(config: WatchersConfig, i: int)
    requires
        0 <= i < config.watchers@.len(),
    ensures
        config@.len() == config.watchers@.len(),
        config@[i].glob_pattern == config.watchers@[i].glob_pattern@,
        config@[i].kind == config.watchers@[i].kind,
{
}

} // verus!
