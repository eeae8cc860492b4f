//! Starting the server up and shutting it down.
use crate::actions::compile_info::{resolver_of, roots_are_paths, ConfigFiles};
use crate::actions::context::{
    ClientCapabilities, InitActionContext, UninitActionContext, Workspace,
};
use crate::actions::init::{
    is_initialized, start_effects, ActionContext, InitializationOptions,
};
use crate::actions::notifications::show_settings;
use crate::collections::Keyed;
use crate::effects::{Effect, EffectView, Outbox};
use crate::path::{CanonPath, FilePath};
use crate::server::caps::{introduce, introduction};
use crate::server::message::{IdView, RequestId, ResponseError, ResponseErrorView};
use crate::server::notify::{
    deprecations_shown, duplicates_shown, unknown_configs_logged, DeprecatedKey, DuplicatedKey,
};
use crate::text::{copy_texts, texts};
use vstd::prelude::*;
use vstd::string::*;

verus! {

/// The code of the error with which a request is answered that comes before
/// the server has been initialized.
pub const NOT_INITIALIZED_CODE: i32 = -32002;

/// The error with which a request is answered that comes before the server has
/// been initialized.
pub open spec fn not_initialized() -> ResponseErrorView {
    ResponseErrorView::Message(-32002i32, "not yet received `initialize` request"@)
}

/// The error with which a second `initialize` request is answered.
pub open spec fn already_initialized() -> ResponseErrorView {
    ResponseErrorView::Message(123, "Already received an initialize request"@)
}

/// A request was served, and there is nothing to say about it.
pub struct Ack;

/// A request was served, and has been answered already.
pub struct NoResponse;

/// The `shutdown` request.
pub struct ShutdownRequest;

impl ShutdownRequest {
    /// Waits for what is under way. From then on the server only waits to be
    /// ended.
    pub fn handle(ctx: &mut ActionContext, out: &mut Outbox) -> (result: Result<
        Ack,
        ResponseError,
    >)
        ensures
            match *old(ctx) {
                ActionContext::Init(before) => {
                    &&& result is Ok
                    &&& *final(ctx) == ActionContext::Init(
                        InitActionContext { shut_down: true, ..before },
                    )
                    &&& final(out)@ == old(out)@.push(EffectView::WaitForJobs)
                },
                ActionContext::Uninit(_) => {
                    &&& result matches Err(e) && e@ == not_initialized()
                    &&& *final(ctx) == *old(ctx)
                    &&& final(out)@ == old(out)@
                },
            },
    {
        match ctx {
            ActionContext::Init(inited) => {
                inited.wait_for_concurrent_jobs(out);
                inited.shut_down = true;
                Ok(Ack)
            },
            ActionContext::Uninit(_) => Err(
                ResponseError::Message(
                    NOT_INITIALIZED_CODE,
                    "not yet received `initialize` request".to_owned(),
                ),
            ),
        }
    }
}

/// The root that the client works in, where it names no folders.
pub struct RootUri {
    pub uri: String,
    /// The path that the URI stands for, where it is that of a file.
    pub path: Option<FilePath>,
}

/// What comes with the `initialize` request.
pub struct InitializeParams {
    pub options: InitializationOptions,
    pub unknowns: Vec<String>,
    pub deprecated: Vec<DeprecatedKey>,
    pub duplicated: Vec<DuplicatedKey>,
    pub capabilities: ClientCapabilities,
    pub workspace_folders: Option<Vec<Workspace>>,
    pub root_uri: Option<RootUri>,
    /// What the files hold that the configuration names.
    pub files: ConfigFiles,
}

impl InitializeParams {
    /// What the user is told about the settings.
    pub open spec fn settings_shown(&self) -> Seq<EffectView> {
        unknown_configs_logged(texts(self.unknowns@)) + deprecations_shown(self.deprecated@)
            + duplicates_shown(self.duplicated@)
    }

    /// Whether these are the folders that the client works in: those that it
    /// names, or else the root, under the name `root`.
    pub open spec fn names_folders(&self, folders: Seq<Workspace>) -> bool {
        match (self.workspace_folders, self.root_uri) {
            (Some(named), _) => folders == named@,
            (None, Some(root)) => {
                &&& folders.len() == 1
                &&& folders[0].uri == root.uri
                &&& folders[0].name@ == "root"@
                &&& folders[0].path == root.path
            },
            (None, None) => folders.len() == 0,
        }
    }

    /// Whether the folders that the client works in are paths.
    pub open spec fn folders_are_paths(&self) -> bool {
        match (self.workspace_folders, self.root_uri) {
            (Some(named), _) => roots_are_paths(named@),
            (None, Some(root)) => root.path is Some,
            (None, None) => true,
        }
    }
}

/// What the `initialize` request sets off in a server that has not been
/// initialized: the request is answered, the user is told about the settings,
/// what the files hold is taken over that the configuration names, and the
/// files are looked for that every file imports. The answer comes before
/// everything else.
pub open spec fn initialize_effects(
    id: IdView,
    params: InitializeParams,
    version: Seq<char>,
    after: InitActionContext,
) -> Seq<EffectView> {
    seq![EffectView::RespondInitialize { id, result: introduction(version) }]
        + params.settings_shown() + start_effects(after, params.files) + seq![
        EffectView::AnalyzeBuiltins {
            resolver: resolver_of(
                after.client_capabilities.root,
                after.workspace_roots@,
                after.compilation_info,
            ),
            files: texts(after.implicit_imports@),
        },
    ]
}

/// Whether this is what the server keeps after the `initialize` request.
pub open spec fn initialize_taken(
    uninit: UninitActionContext,
    after: InitActionContext,
    params: InitializeParams,
) -> bool {
    &&& is_initialized(
        after,
        uninit,
        params.options.settings,
        params.capabilities,
        params.files,
    )
    &&& params.names_folders(after.workspace_roots@)
}

/// The `initialize` request.
pub struct InitializeRequest;

impl InitializeRequest {
    /// Initializes the server, unless it has been initialized.
    pub fn handle(
        id: RequestId,
        params: InitializeParams,
        version: &str,
        ctx: &mut ActionContext,
        out: &mut Outbox,
    ) -> (result: Result<NoResponse, ResponseError>)
        requires
            *old(ctx) is Uninit ==> params.folders_are_paths(),
        ensures
            match *old(ctx) {
                ActionContext::Init(_) => {
                    &&& result matches Err(e) && e@ == already_initialized()
                    &&& *final(ctx) == *old(ctx)
                    &&& final(out)@ == old(out)@
                },
                ActionContext::Uninit(uninit) => {
                    &&& result is Ok
                    &&& *final(ctx) matches ActionContext::Init(after) && initialize_taken(
                        uninit,
                        after,
                        params,
                    ) && final(out)@ == old(out)@ + initialize_effects(
                        id@,
                        params,
                        version@,
                        after,
                    )
                },
            },
    {
        let ghost before = out@;
        let ghost start = *ctx;
        if ctx.inited().is_ok() {
            return Err(
                ResponseError::Message(123, "Already received an initialize request".to_owned()),
            );
        }
        let ghost all = params;
        let InitializeParams {
            options,
            unknowns,
            deprecated,
            duplicated,
            capabilities,
            workspace_folders,
            root_uri,
            files,
        } = params;
        let ghost shown = all.settings_shown();
        let ghost answer = EffectView::RespondInitialize {
            id: id@,
            result: introduction(version@),
        };
        out.push(Effect::RespondInitialize { id, result: introduce(version) });
        show_settings(&unknowns, &deprecated, &duplicated, out);
        assert(out@ =~= before + seq![answer] + shown);
        let _ = ctx.init(&options, capabilities, &files, out);
        let folders: Vec<Workspace> = match workspace_folders {
            Some(folders) => folders,
            None => match root_uri {
                Some(root) => {
                    let mut folders: Vec<Workspace> = Vec::new();
                    folders.push(
                        Workspace { uri: root.uri, name: "root".to_owned(), path: root.path },
                    );
                    folders
                },
                None => Vec::new(),
            },
        };
        assert(all.names_folders(folders@));
        assert(roots_are_paths(folders@));
        match ctx {
            ActionContext::Init(inited) => {
                let none: Vec<Workspace> = Vec::new();
                let ghost first = *inited;
                inited.update_workspaces(folders, &none);
                proof {
                    reveal(Seq::filter);
                    assert(inited.workspace_roots@ =~= folders@);
                }
                let resolver = inited.construct_resolver();
                out.push(
                    Effect::AnalyzeBuiltins {
                        resolver,
                        files: copy_texts(&inited.implicit_imports),
                    },
                );
                assert(start_effects(first, files) == start_effects(*inited, files));
                assert(out@ =~= before + initialize_effects(id@, all, version@, *inited));
            },
            ActionContext::Uninit(_) => {},
        }
        Ok(NoResponse)
    }
}

/// What has the files analysed that were found.
pub open spec fn found_analysed(found: Seq<Option<CanonPath>>, n: int) -> Seq<EffectView>
    decreases n,
{
    if n <= 0 {
        Seq::empty()
    } else {
        found_analysed(found, n - 1) + (match found[n - 1] {
            Some(path) => seq![EffectView::IsolatedAnalyze { path: path@, context: None }],
            None => Seq::empty(),
        })
    }
}

/// Has the files analysed that were found.
pub fn analyze_found(found: &Vec<Option<CanonPath>>, out: &mut Outbox)
    ensures
        final(out)@ == old(out)@ + found_analysed(found@, found@.len() as int),
{
    let ghost before = out@;
    let mut i: usize = 0;
    assert(out@ =~= before + found_analysed(found@, 0));
    while i < found.len()
        invariant
            i <= found@.len(),
            out@ == before + found_analysed(found@, i as int),
        decreases found@.len() - i,
    {
        if let Some(path) = &found[i] {
            out.push(Effect::IsolatedAnalyze { path: path.duplicate(), context: None });
        }
        i += 1;
        assert(out@ =~= before + found_analysed(found@, i as int));
    }
}

} // verus!
