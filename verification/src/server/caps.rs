//! What the server tells a client that it can do.
use vstd::prelude::*;
use vstd::string::*;

verus! {

/// How the client sends changes of a document.
#[derive(Clone, Copy, PartialEq, Eq, Structural, Debug)]
pub enum TextDocumentSyncKind {
    NoSync,
    Full,
    Incremental,
}

/// Which events of a document the client sends.
#[derive(Clone, Copy, PartialEq, Eq, Structural, Debug)]
pub struct TextDocumentSyncOptions {
    pub open_close: Option<bool>,
    pub change: Option<TextDocumentSyncKind>,
    pub will_save: Option<bool>,
    pub will_save_wait_until: Option<bool>,
    pub save: Option<bool>,
}

/// What the server does with workspace folders.
#[derive(Clone, Copy, PartialEq, Eq, Structural, Debug)]
pub struct WorkspaceFoldersServerCapabilities {
    pub supported: Option<bool>,
    pub change_notifications: Option<bool>,
}

/// What the server does with workspaces.
#[derive(Clone, Copy, PartialEq, Eq, Structural, Debug)]
pub struct WorkspaceServerCapabilities {
    pub workspace_folders: Option<WorkspaceFoldersServerCapabilities>,
    pub file_operations: Option<bool>,
}

/// What the server can do beyond the protocol.
#[derive(Clone, Copy, PartialEq, Eq, Structural, Debug)]
pub struct ExperimentalFeatures {
    /// Whether the client can see and choose device contexts.
    pub context_control: bool,
}

/// What the server can do. What is absent, it does not offer.
#[derive(Clone, Copy, PartialEq, Eq, Structural, Debug)]
pub struct ServerCapabilities {
    pub call_hierarchy_provider: Option<bool>,
    pub declaration_provider: Option<bool>,
    pub diagnostic_provider: Option<bool>,
    pub document_link_provider: Option<bool>,
    pub experimental: Option<ExperimentalFeatures>,
    pub inlay_hint_provider: Option<bool>,
    pub inline_value_provider: Option<bool>,
    pub linked_editing_range_provider: Option<bool>,
    pub moniker_provider: Option<bool>,
    pub position_encoding: Option<bool>,
    pub semantic_tokens_provider: Option<bool>,
    pub text_document_sync: Option<TextDocumentSyncOptions>,
    pub hover_provider: Option<bool>,
    pub completion_provider: Option<bool>,
    pub definition_provider: Option<bool>,
    pub type_definition_provider: Option<bool>,
    pub implementation_provider: Option<bool>,
    pub references_provider: Option<bool>,
    pub document_highlight_provider: Option<bool>,
    pub document_symbol_provider: Option<bool>,
    pub workspace_symbol_provider: Option<bool>,
    pub code_action_provider: Option<bool>,
    pub document_formatting_provider: Option<bool>,
    pub execute_command_provider: Option<bool>,
    pub rename_provider: Option<bool>,
    pub color_provider: Option<bool>,
    pub document_range_formatting_provider: Option<bool>,
    pub code_lens_provider: Option<bool>,
    pub document_on_type_formatting_provider: Option<bool>,
    pub signature_help_provider: Option<bool>,
    pub folding_range_provider: Option<bool>,
    pub workspace: Option<WorkspaceServerCapabilities>,
    pub selection_range_provider: Option<bool>,
    pub notebook_document_sync: Option<bool>,
}

impl ServerCapabilities {
    /// The capabilities of a server that offers nothing.
    pub open spec fn nothing() -> ServerCapabilities {
        ServerCapabilities {
            call_hierarchy_provider: None,
            declaration_provider: None,
            diagnostic_provider: None,
            document_link_provider: None,
            experimental: None,
            inlay_hint_provider: None,
            inline_value_provider: None,
            linked_editing_range_provider: None,
            moniker_provider: None,
            position_encoding: None,
            semantic_tokens_provider: None,
            text_document_sync: None,
            hover_provider: None,
            completion_provider: None,
            definition_provider: None,
            type_definition_provider: None,
            implementation_provider: None,
            references_provider: None,
            document_highlight_provider: None,
            document_symbol_provider: None,
            workspace_symbol_provider: None,
            code_action_provider: None,
            document_formatting_provider: None,
            execute_command_provider: None,
            rename_provider: None,
            color_provider: None,
            document_range_formatting_provider: None,
            code_lens_provider: None,
            document_on_type_formatting_provider: None,
            signature_help_provider: None,
            folding_range_provider: None,
            workspace: None,
            selection_range_provider: None,
            notebook_document_sync: None,
        }
    }

    /// What this server offers: declarations, definitions, implementations,
    /// symbols of documents and of the workspace, hovering, incremental
    /// changes of open documents, workspace folders that may change, and
    /// control over device contexts. Nothing else.
    pub open spec fn offered() -> ServerCapabilities {
        ServerCapabilities {
            declaration_provider: Some(true),
            definition_provider: Some(true),
            implementation_provider: Some(true),
            document_symbol_provider: Some(true),
            workspace_symbol_provider: Some(true),
            hover_provider: Some(true),
            text_document_sync: Some(
                TextDocumentSyncOptions {
                    open_close: Some(true),
                    change: Some(TextDocumentSyncKind::Incremental),
                    will_save: None,
                    will_save_wait_until: None,
                    save: Some(true),
                },
            ),
            workspace: Some(
                WorkspaceServerCapabilities {
                    workspace_folders: Some(
                        WorkspaceFoldersServerCapabilities {
                            supported: Some(true),
                            change_notifications: Some(true),
                        },
                    ),
                    file_operations: None,
                },
            ),
            experimental: Some(ExperimentalFeatures { context_control: true }),
            ..ServerCapabilities::nothing()
        }
    }
}

/// What the server can do beyond the protocol.
pub fn experimental_caps() -> (features: ExperimentalFeatures)
    ensures
        features == (ExperimentalFeatures { context_control: true }),
{
    ExperimentalFeatures { context_control: true }
}

/// What the server can do.
pub fn server_caps() -> (capabilities: ServerCapabilities)
    ensures
        capabilities == ServerCapabilities::offered(),
{
    ServerCapabilities {
        call_hierarchy_provider: None,
        declaration_provider: Some(true),
        diagnostic_provider: None,
        document_link_provider: None,
        experimental: Some(experimental_caps()),
        inlay_hint_provider: None,
        inline_value_provider: None,
        linked_editing_range_provider: None,
        moniker_provider: None,
        position_encoding: None,
        semantic_tokens_provider: None,
        text_document_sync: Some(
            TextDocumentSyncOptions {
                open_close: Some(true),
                change: Some(TextDocumentSyncKind::Incremental),
                will_save: None,
                will_save_wait_until: None,
                save: Some(true),
            },
        ),
        hover_provider: Some(true),
        completion_provider: None,
        definition_provider: Some(true),
        type_definition_provider: None,
        implementation_provider: Some(true),
        references_provider: None,
        document_highlight_provider: None,
        document_symbol_provider: Some(true),
        workspace_symbol_provider: Some(true),
        code_action_provider: None,
        document_formatting_provider: None,
        execute_command_provider: None,
        rename_provider: None,
        color_provider: None,
        document_range_formatting_provider: None,
        code_lens_provider: None,
        document_on_type_formatting_provider: None,
        signature_help_provider: None,
        folding_range_provider: None,
        workspace: Some(
            WorkspaceServerCapabilities {
                workspace_folders: Some(
                    WorkspaceFoldersServerCapabilities {
                        supported: Some(true),
                        change_notifications: Some(true),
                    },
                ),
                file_operations: None,
            },
        ),
        selection_range_provider: None,
        notebook_document_sync: None,
    }
}

/// What the server answers to the `initialize` request.
pub struct InitializeResult {
    pub name: String,
    pub version: String,
    pub capabilities: ServerCapabilities,
}

/// What an answer to the `initialize` request says.
pub struct InitializeView {
    pub name: Seq<char>,
    pub version: Seq<char>,
    pub capabilities: ServerCapabilities,
}

impl View for InitializeResult {
    type V = InitializeView;

    open spec fn view(&self) -> InitializeView {
        InitializeView {
            name: self.name@,
            version: self.version@,
            capabilities: self.capabilities,
        }
    }
}

/// The answer of a server of this version.
pub open spec fn introduction(version: Seq<char>) -> InitializeView {
    InitializeView {
        name: "DML Language Server"@,
        version,
        capabilities: ServerCapabilities::offered(),
    }
}

/// Writes the answer of a server of this version.
pub fn introduce(version: &str) -> (result: InitializeResult)
    ensures
        result@ == introduction(version@),
{
    InitializeResult {
        name: "DML Language Server".to_owned(),
        version: version.to_owned(),
        capabilities: server_caps(),
    }
}

} // verus!
