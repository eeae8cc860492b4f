//! The methods of the protocol that the server knows.
use crate::text::same_text;
use vstd::prelude::*;
use vstd::string::*;

verus! {

/// A notification that the client sends. It is handled at once.
#[derive(Clone, Copy, PartialEq, Eq, Structural, Debug)]
pub enum NotificationMethod {
    Initialized,
    DidOpenTextDocument,
    DidCloseTextDocument,
    DidChangeTextDocument,
    DidSaveTextDocument,
    DidChangeConfiguration,
    DidChangeWatchedFiles,
    DidChangeWorkspaceFolders,
    Cancel,
    ChangeActiveContexts,
}

/// A request that is handled at once.
#[derive(Clone, Copy, PartialEq, Eq, Structural, Debug)]
pub enum BlockingMethod {
    Shutdown,
    Initialize,
}

/// A request that is handed on to a worker.
#[derive(Clone, Copy, PartialEq, Eq, Structural, Debug)]
pub enum RequestMethod {
    ExecuteCommand,
    Formatting,
    RangeFormatting,
    ResolveCompletion,
    Rename,
    CodeActionRequest,
    DocumentHighlightRequest,
    GotoImplementation,
    WorkspaceSymbolRequest,
    DocumentSymbolRequest,
    HoverRequest,
    GotoDefinition,
    GotoDeclaration,
    References,
    Completion,
    CodeLensRequest,
    GetKnownContextsRequest,
}

/// A method that the server knows.
#[derive(Clone, Copy, PartialEq, Eq, Structural, Debug)]
pub enum Method {
    Notification(NotificationMethod),
    Blocking(BlockingMethod),
    Request(RequestMethod),
}

impl NotificationMethod {
    /// The name of the method.
    pub open spec fn name(self) -> Seq<char> {
        match self {
            NotificationMethod::Initialized => "initialized"@,
            NotificationMethod::DidOpenTextDocument => "textDocument/didOpen"@,
            NotificationMethod::DidCloseTextDocument => "textDocument/didClose"@,
            NotificationMethod::DidChangeTextDocument => "textDocument/didChange"@,
            NotificationMethod::DidSaveTextDocument => "textDocument/didSave"@,
            NotificationMethod::DidChangeConfiguration => "workspace/didChangeConfiguration"@,
            NotificationMethod::DidChangeWatchedFiles => "workspace/didChangeWatchedFiles"@,
            NotificationMethod::DidChangeWorkspaceFolders => "workspace/didChangeWorkspaceFolders"@,
            NotificationMethod::Cancel => "$/cancelRequest"@,
            NotificationMethod::ChangeActiveContexts => "$/changeActiveContexts"@,
        }
    }

    /// The name of the method, as text.
    pub fn method_name(self) -> (name: &'static str)
        ensures
            name@ == self.name(),
    {
        match self {
            NotificationMethod::Initialized => "initialized",
            NotificationMethod::DidOpenTextDocument => "textDocument/didOpen",
            NotificationMethod::DidCloseTextDocument => "textDocument/didClose",
            NotificationMethod::DidChangeTextDocument => "textDocument/didChange",
            NotificationMethod::DidSaveTextDocument => "textDocument/didSave",
            NotificationMethod::DidChangeConfiguration => "workspace/didChangeConfiguration",
            NotificationMethod::DidChangeWatchedFiles => "workspace/didChangeWatchedFiles",
            NotificationMethod::DidChangeWorkspaceFolders => "workspace/didChangeWorkspaceFolders",
            NotificationMethod::Cancel => "$/cancelRequest",
            NotificationMethod::ChangeActiveContexts => "$/changeActiveContexts",
        }
    }
}

impl BlockingMethod {
    /// The name of the method.
    pub open spec fn name(self) -> Seq<char> {
        match self {
            BlockingMethod::Shutdown => "shutdown"@,
            BlockingMethod::Initialize => "initialize"@,
        }
    }

    /// The name of the method, as text.
    pub fn method_name(self) -> (name: &'static str)
        ensures
            name@ == self.name(),
    {
        match self {
            BlockingMethod::Shutdown => "shutdown",
            BlockingMethod::Initialize => "initialize",
        }
    }
}

impl RequestMethod {
    /// The name of the method.
    pub open spec fn name(self) -> Seq<char> {
        match self {
            RequestMethod::ExecuteCommand => "workspace/executeCommand"@,
            RequestMethod::Formatting => "textDocument/formatting"@,
            RequestMethod::RangeFormatting => "textDocument/rangeFormatting"@,
            RequestMethod::ResolveCompletion => "completionItem/resolve"@,
            RequestMethod::Rename => "textDocument/rename"@,
            RequestMethod::CodeActionRequest => "textDocument/codeAction"@,
            RequestMethod::DocumentHighlightRequest => "textDocument/documentHighlight"@,
            RequestMethod::GotoImplementation => "textDocument/implementation"@,
            RequestMethod::WorkspaceSymbolRequest => "workspace/symbol"@,
            RequestMethod::DocumentSymbolRequest => "textDocument/documentSymbol"@,
            RequestMethod::HoverRequest => "textDocument/hover"@,
            RequestMethod::GotoDefinition => "textDocument/definition"@,
            RequestMethod::GotoDeclaration => "textDocument/declaration"@,
            RequestMethod::References => "textDocument/references"@,
            RequestMethod::Completion => "textDocument/completion"@,
            RequestMethod::CodeLensRequest => "textDocument/codeLens"@,
            RequestMethod::GetKnownContextsRequest => "$/getKnownContexts"@,
        }
    }

    /// The name of the method, as text.
    pub fn method_name(self) -> (name: &'static str)
        ensures
            name@ == self.name(),
    {
        match self {
            RequestMethod::ExecuteCommand => "workspace/executeCommand",
            RequestMethod::Formatting => "textDocument/formatting",
            RequestMethod::RangeFormatting => "textDocument/rangeFormatting",
            RequestMethod::ResolveCompletion => "completionItem/resolve",
            RequestMethod::Rename => "textDocument/rename",
            RequestMethod::CodeActionRequest => "textDocument/codeAction",
            RequestMethod::DocumentHighlightRequest => "textDocument/documentHighlight",
            RequestMethod::GotoImplementation => "textDocument/implementation",
            RequestMethod::WorkspaceSymbolRequest => "workspace/symbol",
            RequestMethod::DocumentSymbolRequest => "textDocument/documentSymbol",
            RequestMethod::HoverRequest => "textDocument/hover",
            RequestMethod::GotoDefinition => "textDocument/definition",
            RequestMethod::GotoDeclaration => "textDocument/declaration",
            RequestMethod::References => "textDocument/references",
            RequestMethod::Completion => "textDocument/completion",
            RequestMethod::CodeLensRequest => "textDocument/codeLens",
            RequestMethod::GetKnownContextsRequest => "$/getKnownContexts",
        }
    }
}

impl Method {
    /// The name of the method.
    pub open spec fn name(self) -> Seq<char> {
        match self {
            Method::Notification(m) => m.name(),
            Method::Blocking(m) => m.name(),
            Method::Request(m) => m.name(),
        }
    }
}

/// The method that goes by a name, of those that the server knows.
pub open spec fn method_named(name: Seq<char>) -> Option<Method> {
    if exists|m: Method| m.name() == name {
        Some(choose|m: Method| m.name() == name)
    } else {
        None
    }
}

/// Distinct methods have distinct names.
pub proof fn names_are_distinct(a: Method, b: Method)
    requires
        a.name() == b.name(),
    ensures
        a == b,
{
    reveal_strlit("initialized");
    reveal_strlit("textDocument/didOpen");
    reveal_strlit("textDocument/didClose");
    reveal_strlit("textDocument/didChange");
    reveal_strlit("textDocument/didSave");
    reveal_strlit("workspace/didChangeConfiguration");
    reveal_strlit("workspace/didChangeWatchedFiles");
    reveal_strlit("workspace/didChangeWorkspaceFolders");
    reveal_strlit("$/cancelRequest");
    reveal_strlit("$/changeActiveContexts");
    reveal_strlit("shutdown");
    reveal_strlit("initialize");
    reveal_strlit("workspace/executeCommand");
    reveal_strlit("textDocument/formatting");
    reveal_strlit("textDocument/rangeFormatting");
    reveal_strlit("completionItem/resolve");
    reveal_strlit("textDocument/rename");
    reveal_strlit("textDocument/codeAction");
    reveal_strlit("textDocument/documentHighlight");
    reveal_strlit("textDocument/implementation");
    reveal_strlit("workspace/symbol");
    reveal_strlit("textDocument/documentSymbol");
    reveal_strlit("textDocument/hover");
    reveal_strlit("textDocument/definition");
    reveal_strlit("textDocument/declaration");
    reveal_strlit("textDocument/references");
    reveal_strlit("textDocument/completion");
    reveal_strlit("textDocument/codeLens");
    reveal_strlit("$/getKnownContexts");
    assert("textDocument/hover"@[0] != "$/getKnownContexts"@[0]);
    assert("textDocument/didOpen"@[16] != "textDocument/didSave"@[16]);
    assert("textDocument/didClose"@[13] != "textDocument/codeLens"@[13]);
    assert("textDocument/didChange"@[0] != "$/changeActiveContexts"@[0]);
    assert("textDocument/didChange"@[0] != "completionItem/resolve"@[0]);
    assert("$/changeActiveContexts"@[0] != "completionItem/resolve"@[0]);
    assert("textDocument/formatting"@[13] != "textDocument/codeAction"@[13]);
    assert("textDocument/formatting"@[13] != "textDocument/definition"@[13]);
    assert("textDocument/formatting"@[13] != "textDocument/references"@[13]);
    assert("textDocument/formatting"@[13] != "textDocument/completion"@[13]);
    assert("textDocument/codeAction"@[13] != "textDocument/definition"@[13]);
    assert("textDocument/codeAction"@[13] != "textDocument/references"@[13]);
    assert("textDocument/codeAction"@[15] != "textDocument/completion"@[15]);
    assert("textDocument/definition"@[13] != "textDocument/references"@[13]);
    assert("textDocument/definition"@[13] != "textDocument/completion"@[13]);
    assert("textDocument/references"@[13] != "textDocument/completion"@[13]);
    assert("workspace/executeCommand"@[0] != "textDocument/declaration"@[0]);
    assert("textDocument/implementation"@[13] != "textDocument/documentSymbol"@[13]);
    assert("initialized"@.len() == 11);
    assert("textDocument/didOpen"@.len() == 20);
    assert("textDocument/didClose"@.len() == 21);
    assert("textDocument/didChange"@.len() == 22);
    assert("textDocument/didSave"@.len() == 20);
    assert("workspace/didChangeConfiguration"@.len() == 32);
    assert("workspace/didChangeWatchedFiles"@.len() == 31);
    assert("workspace/didChangeWorkspaceFolders"@.len() == 35);
    assert("$/cancelRequest"@.len() == 15);
    assert("$/changeActiveContexts"@.len() == 22);
    assert("shutdown"@.len() == 8);
    assert("initialize"@.len() == 10);
    assert("workspace/executeCommand"@.len() == 24);
    assert("textDocument/formatting"@.len() == 23);
    assert("textDocument/rangeFormatting"@.len() == 28);
    assert("completionItem/resolve"@.len() == 22);
    assert("textDocument/rename"@.len() == 19);
    assert("textDocument/codeAction"@.len() == 23);
    assert("textDocument/documentHighlight"@.len() == 30);
    assert("textDocument/implementation"@.len() == 27);
    assert("workspace/symbol"@.len() == 16);
    assert("textDocument/documentSymbol"@.len() == 27);
    assert("textDocument/hover"@.len() == 18);
    assert("textDocument/definition"@.len() == 23);
    assert("textDocument/declaration"@.len() == 24);
    assert("textDocument/references"@.len() == 23);
    assert("textDocument/completion"@.len() == 23);
    assert("textDocument/codeLens"@.len() == 21);
    assert("$/getKnownContexts"@.len() == 18);
}

impl Method {
    /// Looks a method up by its name.
    pub fn from_name(name: &str) -> (method: Option<Method>)
        ensures
            method == method_named(name@),
            method matches Some(m) ==> m.name() == name@,
            method is None ==> forall|m: Method| #[trigger] m.name() != name@,
    {
        let method = Method::find(name);
        proof {
            if method is Some {
                let found = method_named(name@);
                assert(exists|m: Method| m.name() == name@);
                names_are_distinct(method->0, found->0);
            }
        }
        method
    }

    /// Goes through the names.
    fn find(name: &str) -> (method: Option<Method>)
        ensures
            method matches Some(m) ==> m.name() == name@,
            method is None ==> forall|m: Method| #[trigger] m.name() != name@,
    {
        if same_text(name, "initialized") {
            Some(Method::Notification(NotificationMethod::Initialized))
        } else if same_text(name, "textDocument/didOpen") {
            Some(Method::Notification(NotificationMethod::DidOpenTextDocument))
        } else if same_text(name, "textDocument/didClose") {
            Some(Method::Notification(NotificationMethod::DidCloseTextDocument))
        } else if same_text(name, "textDocument/didChange") {
            Some(Method::Notification(NotificationMethod::DidChangeTextDocument))
        } else if same_text(name, "textDocument/didSave") {
            Some(Method::Notification(NotificationMethod::DidSaveTextDocument))
        } else if same_text(name, "workspace/didChangeConfiguration") {
            Some(Method::Notification(NotificationMethod::DidChangeConfiguration))
        } else if same_text(name, "workspace/didChangeWatchedFiles") {
            Some(Method::Notification(NotificationMethod::DidChangeWatchedFiles))
        } else if same_text(name, "workspace/didChangeWorkspaceFolders") {
            Some(Method::Notification(NotificationMethod::DidChangeWorkspaceFolders))
        } else if same_text(name, "$/cancelRequest") {
            Some(Method::Notification(NotificationMethod::Cancel))
        } else if same_text(name, "$/changeActiveContexts") {
            Some(Method::Notification(NotificationMethod::ChangeActiveContexts))
        } else if same_text(name, "shutdown") {
            Some(Method::Blocking(BlockingMethod::Shutdown))
        } else if same_text(name, "initialize") {
            Some(Method::Blocking(BlockingMethod::Initialize))
        } else if same_text(name, "workspace/executeCommand") {
            Some(Method::Request(RequestMethod::ExecuteCommand))
        } else if same_text(name, "textDocument/formatting") {
            Some(Method::Request(RequestMethod::Formatting))
        } else if same_text(name, "textDocument/rangeFormatting") {
            Some(Method::Request(RequestMethod::RangeFormatting))
        } else if same_text(name, "completionItem/resolve") {
            Some(Method::Request(RequestMethod::ResolveCompletion))
        } else if same_text(name, "textDocument/rename") {
            Some(Method::Request(RequestMethod::Rename))
        } else if same_text(name, "textDocument/codeAction") {
            Some(Method::Request(RequestMethod::CodeActionRequest))
        } else if same_text(name, "textDocument/documentHighlight") {
            Some(Method::Request(RequestMethod::DocumentHighlightRequest))
        } else if same_text(name, "textDocument/implementation") {
            Some(Method::Request(RequestMethod::GotoImplementation))
        } else if same_text(name, "workspace/symbol") {
            Some(Method::Request(RequestMethod::WorkspaceSymbolRequest))
        } else if same_text(name, "textDocument/documentSymbol") {
            Some(Method::Request(RequestMethod::DocumentSymbolRequest))
        } else if same_text(name, "textDocument/hover") {
            Some(Method::Request(RequestMethod::HoverRequest))
        } else if same_text(name, "textDocument/definition") {
            Some(Method::Request(RequestMethod::GotoDefinition))
        } else if same_text(name, "textDocument/declaration") {
            Some(Method::Request(RequestMethod::GotoDeclaration))
        } else if same_text(name, "textDocument/references") {
            Some(Method::Request(RequestMethod::References))
        } else if same_text(name, "textDocument/completion") {
            Some(Method::Request(RequestMethod::Completion))
        } else if same_text(name, "textDocument/codeLens") {
            Some(Method::Request(RequestMethod::CodeLensRequest))
        } else if same_text(name, "$/getKnownContexts") {
            Some(Method::Request(RequestMethod::GetKnownContextsRequest))
        } else {
            assert forall|m: Method| #[trigger] m.name() != name@ by {
                match m {
                    Method::Notification(n) => assert(n.name() != name@),
                    Method::Blocking(n) => assert(n.name() != name@),
                    Method::Request(n) => assert(n.name() != name@),
                }
            }
            None
        }
    }
}

} // verus!
