//! Initializing the server.
use crate::actions::analysis::{AnalysisQueue, AnalysisStorage, PathKey};
use crate::actions::compile_info::{
    compile_info_effects, compile_info_effects_in, compile_info_needs_roots,
    compile_info_taken_over, info_read, roots_are_paths, ConfigFiles,
};
use crate::actions::config_change::{lint_config_after, lint_config_shown};
use crate::actions::context::{
    ClientCapabilities, CompilationInfo, CompilationInfoStorage, ContextKey, InitActionContext, UninitActionContext,
    Workspace,
};
use crate::collections::{push_new, without, Keyed, VecMap, VecSet};
use crate::config::{Config, ConfigView};
use crate::effects::{EffectView, Outbox};
use crate::lint::config::{default_lint_cfg, LintCfg};
use crate::path::CanonPath;
use crate::server::message::{ClientRequestKind, IdView};
use crate::server::notify::{lint_cfg_read, LintCfgReading};
use crate::text::{copy_texts, texts};
use vstd::prelude::*;
use vstd::string::*;

verus! {

/// What the server keeps between messages.
pub enum ActionContext {
    /// After initialization.
    Init(InitActionContext),
    /// Before initialization.
    Uninit(UninitActionContext),
}

/// The server is not in the state that was asked for: initialized where it
/// should not be, or the other way round.
#[derive(Clone, Copy, PartialEq, Eq, Structural, Debug)]
pub struct InitError;

impl From<()> for InitError {
    fn from(_nothing: ()) -> (error: InitError) {
        InitError
    }
}

impl vstd::std_specs::convert::FromSpecImpl<()> for InitError {
    open spec fn obeys_from_spec() -> bool {
        true
    }

    open spec fn from_spec(_nothing: ()) -> InitError {
        InitError
    }
}

impl InitError {
    /// The error in words.
    pub fn to_text(&self) -> (text: String)
        ensures
            text@ == "Initialization error"@,
    {
        "Initialization error".to_owned()
    }
}

/// What the client asks for when it initializes the server.
pub struct InitializationOptions {
    /// The configuration, where the client gives one.
    pub settings: Option<Config>,
    /// Whether the client can run commands.
    pub cmd_run: bool,
}

/// The configuration that the server starts with.
pub open spec fn config_at_start(settings: Option<Config>, usual: Config) -> ConfigView {
    match settings {
        Some(config) => config@,
        None => usual@,
    }
}

/// Whether this is what the server keeps when it has just been set up, the
/// folders that the client works in, the compile information and the lint
/// configuration aside.
pub open spec fn is_fresh(
    ctx: InitActionContext,
    uninit: UninitActionContext,
    settings: Option<Config>,
    capabilities: ClientCapabilities,
) -> bool {
    &&& ctx.analysis == uninit.analysis
    &&& ctx.analysis_queue.is_idle()
    &&& ctx.current_notifier is None
    &&& !ctx.quiescent
    &&& ctx.direct_opens@ == Set::<PathKey>::empty()
    &&& ctx.device_active_contexts@ == Set::<ContextKey>::empty()
    &&& ctx.previously_checked_contexts@ == Set::<ContextKey>::empty()
    &&& ctx.prev_changes@ == Map::<PathKey, i32>::empty()
    &&& ctx.active_waits@.len() == 0
    &&& ctx.outstanding_requests@ == Map::<IdView, ClientRequestKind>::empty()
    &&& ctx.config@ == config_at_start(settings, uninit.config)
    &&& ctx.sent_warnings@ == Set::<(u64, PathKey)>::empty()
    &&& ctx.client_capabilities == capabilities
    &&& !ctx.has_notified_missing_builtins
    &&& !ctx.shut_down
    &&& ctx.pid == uninit.pid
    &&& texts(ctx.implicit_imports@) == texts(uninit.implicit_imports@)
}

/// The lint configuration that the server starts with: the one that is
/// configured, or the usual one where none is or it cannot be read.
pub open spec fn lint_config_at_start(config: ConfigView, reading: LintCfgReading) -> LintCfg {
    match (config.lint_cfg_path, lint_cfg_read(reading)) {
        (Some(_), Some(cfg)) => cfg,
        _ => default_lint_cfg(),
    }
}

/// Whether this is what the server keeps when it has been initialized, the
/// folders aside that the client works in.
pub open spec fn is_initialized(
    ctx: InitActionContext,
    uninit: UninitActionContext,
    settings: Option<Config>,
    capabilities: ClientCapabilities,
    files: ConfigFiles,
) -> bool {
    &&& is_fresh(ctx, uninit, settings, capabilities)
    &&& ctx.lint_config == lint_config_at_start(ctx.config@, files.lint_cfg)
    &&& match (ctx.config.compile_info_path, files.compile_info.commands) {
        (Some(_), Ok(commands)) => info_read(ctx.compilation_info, commands@),
        _ => ctx.compilation_info@ == Map::<PathKey, CompilationInfo>::empty(),
    }
}

/// What taking over what the files hold sets off that the configuration names.
/// `info` is what is known of the compilation afterwards.
pub open spec fn init_effects(
    ctx: InitActionContext,
    files: ConfigFiles,
    info: CompilationInfoStorage,
) -> Seq<EffectView> {
    compile_info_effects(ctx, files.compile_info, info) + lint_config_shown(ctx, files.lint_cfg)
}

/// What initializing the server sets off when it knows of no folders yet. The
/// context is the one afterwards.
pub open spec fn start_effects(ctx: InitActionContext, files: ConfigFiles) -> Seq<EffectView> {
    (if ctx.config.compile_info_path is None {
        Seq::empty()
    } else {
        compile_info_effects_in(
            ctx.client_capabilities.root,
            Seq::empty(),
            files.compile_info,
            ctx.compilation_info,
        )
    }) + lint_config_shown(ctx, files.lint_cfg)
}

impl UninitActionContext {
    /// What the server keeps before it has been initialized.
    pub fn new(
        analysis: AnalysisStorage,
        config: Config,
        pid: u32,
        implicit_imports: Vec<String>,
    ) -> (ctx: Self)
        ensures
            ctx == (UninitActionContext { analysis, config, pid, implicit_imports }),
    {
        UninitActionContext { analysis, config, pid, implicit_imports }
    }
}

impl InitActionContext {
    /// What the server keeps when it is being initialized.
    pub fn new(
        analysis: AnalysisStorage,
        config: Config,
        client_capabilities: ClientCapabilities,
        pid: u32,
        implicit_imports: Vec<String>,
    ) -> (ctx: Self)
        ensures
            is_fresh(
                ctx,
                UninitActionContext { analysis, config, pid, implicit_imports },
                None,
                client_capabilities,
            ),
            ctx.workspace_roots@ == Seq::<Workspace>::empty(),
            ctx.config == config,
            ctx.implicit_imports == implicit_imports,
            ctx.compilation_info@ == Map::<PathKey, CompilationInfo>::empty(),
            ctx.lint_config == default_lint_cfg(),
    {
        InitActionContext {
            analysis,
            analysis_queue: AnalysisQueue::init(),
            current_notifier: None,
            quiescent: false,
            workspace_roots: Vec::new(),
            direct_opens: VecSet::new(),
            compilation_info: VecMap::new(),
            device_active_contexts: VecSet::new(),
            previously_checked_contexts: VecSet::new(),
            prev_changes: VecMap::new(),
            active_waits: Vec::new(),
            outstanding_requests: VecMap::new(),
            config,
            lint_config: LintCfg::default(),
            sent_warnings: VecSet::new(),
            client_capabilities,
            has_notified_missing_builtins: false,
            shut_down: false,
            pid,
            implicit_imports,
        }
    }

    /// Takes over what the files hold that the configuration names.
    pub fn init(&mut self, files: &ConfigFiles, out: &mut Outbox)
        requires
            compile_info_needs_roots(*old(self), files.compile_info) ==> roots_are_paths(
                old(self).workspace_roots@,
            ),
        ensures
            *final(self) == (InitActionContext {
                compilation_info: final(self).compilation_info,
                lint_config: lint_config_after(*old(self), files.lint_cfg),
                ..*old(self)
            }),
            compile_info_taken_over(
                *old(self),
                files.compile_info,
                final(self).compilation_info,
            ),
            final(out)@ == old(out)@ + init_effects(
                *old(self),
                *files,
                final(self).compilation_info,
            ),
    {
        let ghost before = out@;
        self.update_compilation_info(&files.compile_info, out);
        self.update_linter_config(&files.lint_cfg, out);
        assert(out@ =~= before + init_effects(*old(self), *files, self.compilation_info));
    }

    /// The client has opened a file.
    pub fn add_direct_open(&mut self, canon_path: &CanonPath)
        ensures
            *final(self) == (InitActionContext {
                direct_opens: final(self).direct_opens,
                ..*old(self)
            }),
            final(self).direct_opens@ == old(self).direct_opens@.insert(canon_path.key()),
            final(self).direct_opens.views() == push_new(
                old(self).direct_opens@,
                old(self).direct_opens.views(),
                canon_path.key(),
                canon_path@,
            ),
    {
        let _ = self.direct_opens.insert(canon_path.duplicate());
    }

    /// The client has closed a file.
    pub fn remove_direct_open(&mut self, canon_path: &CanonPath)
        ensures
            *final(self) == (InitActionContext {
                direct_opens: final(self).direct_opens,
                ..*old(self)
            }),
            final(self).direct_opens@ == old(self).direct_opens@.remove(canon_path.key()),
            final(self).direct_opens.members() == without(
                old(self).direct_opens,
                canon_path.key(),
            ),
    {
        let _ = self.direct_opens.remove(canon_path);
    }
}

impl ActionContext {
    /// What the server keeps when it starts.
    pub fn new(config: Config, pid: u32, implicit_imports: Vec<String>) -> (ctx: Self)
        ensures
            ctx matches ActionContext::Uninit(uninit) && uninit == (UninitActionContext {
                analysis: uninit.analysis,
                config,
                pid,
                implicit_imports,
            }) && uninit.analysis.is_empty(),
    {
        ActionContext::Uninit(
            UninitActionContext::new(AnalysisStorage::init(), config, pid, implicit_imports),
        )
    }

    /// Initializes the server, if it has not been initialized. `files` is what
    /// the files hold that the configuration names.
    pub fn init(
        &mut self,
        init_options: &InitializationOptions,
        client_capabilities: ClientCapabilities,
        files: &ConfigFiles,
        out: &mut Outbox,
    ) -> (result: Result<(), InitError>)
        ensures
            match *old(self) {
                ActionContext::Init(_) => {
                    &&& result == Err::<(), InitError>(InitError)
                    &&& *final(self) == *old(self)
                    &&& final(out)@ == old(out)@
                },
                ActionContext::Uninit(uninit) => {
                    &&& result is Ok
                    &&& *final(self) matches ActionContext::Init(ctx) && is_initialized(
                        ctx,
                        uninit,
                        init_options.settings,
                        client_capabilities,
                        *files,
                    ) && ctx.workspace_roots@ == Seq::<Workspace>::empty() && final(out)@ == old(
                        out,
                    )@ + start_effects(ctx, *files)
                },
            },
    {
        let ghost start = *self;
        let mut analysis = AnalysisStorage::init();
        let (config, pid, implicit_imports) = match self {
            ActionContext::Init(_) => {
                return Err(InitError::from(()));
            },
            ActionContext::Uninit(uninit) => {
                std::mem::swap(&mut analysis, &mut uninit.analysis);
                let config = match &init_options.settings {
                    Some(settings) => settings.copy(),
                    None => uninit.config.copy(),
                };
                (config, uninit.pid, copy_texts(&uninit.implicit_imports))
            },
        };
        let mut ctx = InitActionContext::new(
            analysis,
            config,
            client_capabilities,
            pid,
            implicit_imports,
        );
        let ghost fresh = ctx;
        ctx.init(files, out);
        assert(init_effects(fresh, *files, ctx.compilation_info) == start_effects(ctx, *files));
        *self = ActionContext::Init(ctx);
        Ok(())
    }

    /// What the server keeps, if it has been initialized.
    pub fn inited(&self) -> (result: Result<&InitActionContext, InitError>)
        ensures
            match (*self, result) {
                (ActionContext::Init(ctx), Ok(found)) => *found == ctx,
                (ActionContext::Uninit(_), Err(_)) => true,
                _ => false,
            },
    {
        match self {
            ActionContext::Uninit(_) => Err(InitError::from(())),
            ActionContext::Init(ctx) => Ok(ctx),
        }
    }

    /// The id of the server's process.
    pub fn pid(&self) -> (pid: u32)
        ensures
            pid == (match *self {
                ActionContext::Uninit(ctx) => ctx.pid,
                ActionContext::Init(ctx) => ctx.pid,
            }),
    {
        match self {
            ActionContext::Uninit(ctx) => ctx.pid,
            ActionContext::Init(ctx) => ctx.pid,
        }
    }
}

} // verus!
