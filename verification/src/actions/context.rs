//! What the server keeps between messages.
use crate::actions::analysis::{AnalysisQueue, AnalysisStorage, PathKey};
use crate::collections::{Keyed, VecMap, VecSet};
use crate::config::Config;
use crate::lint::config::LintCfg;
use crate::path::{CanonPath, FilePath, PathView};
use crate::server::message::{ClientRequestKind, RequestId};
use vstd::prelude::*;
use vstd::string::*;

verus! {

/// A context under which files are analysed.
pub enum ContextDefinition {
    /// A made-up context; the path is that of the topmost file that it
    /// imports.
    Simulated(CanonPath),
    /// A device.
    Device(CanonPath),
}

/// What tells a context apart from others.
pub enum ContextKey {
    Simulated(PathKey),
    Device(PathKey),
}

/// What a context says.
pub enum ContextView {
    Simulated(PathView),
    Device(PathView),
}

impl View for ContextDefinition {
    type V = ContextView;

    open spec fn view(&self) -> ContextView {
        match self {
            ContextDefinition::Simulated(p) => ContextView::Simulated(p@),
            ContextDefinition::Device(p) => ContextView::Device(p@),
        }
    }
}

impl Keyed for ContextDefinition {
    type Key = ContextKey;

    open spec fn key(&self) -> ContextKey {
        match self {
            ContextDefinition::Simulated(p) => ContextKey::Simulated(p.key()),
            ContextDefinition::Device(p) => ContextKey::Device(p.key()),
        }
    }

    fn same_key(&self, other: &Self) -> (same: bool) {
        match (self, other) {
            (ContextDefinition::Simulated(a), ContextDefinition::Simulated(b)) => a.same_key(b),
            (ContextDefinition::Device(a), ContextDefinition::Device(b)) => a.same_key(b),
            _ => false,
        }
    }

    fn duplicate(&self) -> (copy: Self) {
        match self {
            ContextDefinition::Simulated(p) => ContextDefinition::Simulated(p.duplicate()),
            ContextDefinition::Device(p) => ContextDefinition::Device(p.duplicate()),
        }
    }
}

impl From<CanonPath> for ContextDefinition {
    fn from(path: CanonPath) -> (context: ContextDefinition) {
        ContextDefinition::Device(path)
    }
}

impl vstd::std_specs::convert::FromSpecImpl<CanonPath> for ContextDefinition {
    open spec fn obeys_from_spec() -> bool {
        true
    }

    open spec fn from_spec(path: CanonPath) -> ContextDefinition {
        ContextDefinition::Device(path)
    }
}

impl ContextDefinition {
    /// The path of the context.
    pub open spec fn path_view(&self) -> PathView {
        match self {
            ContextDefinition::Simulated(p) => p@,
            ContextDefinition::Device(p) => p@,
        }
    }

    /// The path of the context.
    pub fn as_canon_path(&self) -> (path: &CanonPath)
        ensures
            path@ == self.path_view(),
    {
        match self {
            ContextDefinition::Simulated(p) => p,
            ContextDefinition::Device(p) => p,
        }
    }
}

/// The contexts that are active.
pub type ActiveDeviceContexts = VecSet<ContextDefinition>;

/// A definition handed to the compiler.
pub struct CompilationDefine {
    pub name: String,
    pub expression: String,
}

/// How a device is compiled.
pub struct CompilationInfo {
    pub extra_defines: Vec<CompilationDefine>,
    pub include_paths: VecSet<FilePath>,
}

/// How devices are compiled, by device.
pub type CompilationInfoStorage = VecMap<CanonPath, CompilationInfo>;

/// Where imports are looked for, by device.
pub open spec fn includes_of(
    info: Map<PathKey, CompilationInfo>,
) -> Map<PathKey, Set<PathKey>> {
    info.map_values(|i: CompilationInfo| i.include_paths@)
}

/// The devices with where their imports are looked for, in order.
pub open spec fn include_views(info: CompilationInfoStorage) -> Seq<(PathView, Seq<PathView>)> {
    info.entries().map_values(
        |e: (CanonPath, CompilationInfo)| (e.0@, e.1.include_paths.views()),
    )
}

/// What kind of analysis is waited for.
#[derive(Clone, Copy, PartialEq, Eq, Structural, Debug)]
pub enum AnalysisProgressKind {
    /// Analyses of files on their own.
    Isolated,
    /// Analyses of devices, and thereby those of the files on their own and
    /// of what they import.
    Device,
    /// Analyses of the devices that the files set off, and thereby those of
    /// all files on their own. For all files this is the same as `Device`.
    DeviceDependencies,
}

/// Which files are waited for.
pub enum AnalysisCoverageSpec {
    Paths(Vec<CanonPath>),
    All,
}

/// What is waited for.
#[derive(Clone, Copy, PartialEq, Eq, Structural, Debug)]
pub enum AnalysisWaitKind {
    /// That no work on it is left.
    Work,
    /// That it exists at all, even if it may soon be out of date.
    Existence,
}

/// A wait for analyses.
pub struct AnalysisStateWaitDefinition {
    pub progress_kind: AnalysisProgressKind,
    pub coverage: AnalysisCoverageSpec,
    pub wait_kind: AnalysisWaitKind,
    /// Who waits.
    pub response: u64,
}

/// A folder that the client works in.
pub struct Workspace {
    pub uri: String,
    pub name: String,
    /// The path that the URI stands for, where it is that of a file.
    pub path: Option<FilePath>,
}

/// What the client can do.
pub struct ClientCapabilities {
    /// The root that the client gave.
    pub root: Option<FilePath>,
    /// Whether the client tells of configuration changes, and whether the
    /// server may register for that.
    pub did_change_configuration: (bool, bool),
    /// Whether the server may ask for the configuration.
    pub configuration: bool,
}

/// A warning that was sent for a file.
pub struct SentWarning {
    pub id: u64,
    pub file: FilePath,
}

impl View for SentWarning {
    type V = (u64, PathView);

    open spec fn view(&self) -> (u64, PathView) {
        (self.id, self.file@)
    }
}

impl Keyed for SentWarning {
    type Key = (u64, PathKey);

    open spec fn key(&self) -> (u64, PathKey) {
        (self.id, self.file.key())
    }

    fn same_key(&self, other: &Self) -> (same: bool) {
        self.id == other.id && self.file.same_key(&other.file)
    }

    fn duplicate(&self) -> (copy: Self) {
        SentWarning { id: self.id, file: self.file.duplicate() }
    }
}

/// What the server keeps once it has been initialized.
pub struct InitActionContext {
    /// The analyses that exist.
    pub analysis: AnalysisStorage,
    /// The analyses that are under way.
    pub analysis_queue: AnalysisQueue,
    /// The progress report that has been begun and not yet ended.
    pub current_notifier: Option<String>,
    /// Whether no change has come since it was last set.
    pub quiescent: bool,
    /// The folders that the client works in.
    pub workspace_roots: Vec<Workspace>,
    /// The files that the client has open.
    pub direct_opens: VecSet<CanonPath>,
    pub compilation_info: CompilationInfoStorage,
    /// The contexts under which files are analysed.
    pub device_active_contexts: ActiveDeviceContexts,
    /// The devices for which it has been decided whether they become active
    /// contexts by themselves.
    pub previously_checked_contexts: ActiveDeviceContexts,
    /// The version of the last change of a file.
    pub prev_changes: VecMap<FilePath, i32>,
    /// The waits that are not over.
    pub active_waits: Vec<AnalysisStateWaitDefinition>,
    /// The requests to the client that have not been answered.
    pub outstanding_requests: VecMap<RequestId, ClientRequestKind>,
    pub config: Config,
    pub lint_config: LintCfg,
    /// The warnings that have been sent.
    pub sent_warnings: VecSet<SentWarning>,
    pub client_capabilities: ClientCapabilities,
    /// Whether the user has been told that the built-in file is missing.
    pub has_notified_missing_builtins: bool,
    /// Whether the server has been asked to shut down and now waits for the
    /// client to end it.
    pub shut_down: bool,
    pub pid: u32,
    /// The names of the files that every file imports.
    pub implicit_imports: Vec<String>,
}

/// What the server keeps before it has been initialized.
pub struct UninitActionContext {
    pub analysis: AnalysisStorage,
    pub config: Config,
    pub pid: u32,
    /// The names of the files that every file imports.
    pub implicit_imports: Vec<String>,
}

/// Contexts are told apart by their kind and the components of their path, and say the
/// kind and the path.
pub proof fn contexts_are_told_apart(path: CanonPath)
    ensures
        ContextDefinition::Device(path).key() == ContextKey::Device(path@.components),
        ContextDefinition::Simulated(path).key() == ContextKey::Simulated(path@.components),
        ContextDefinition::Device(path)@ == ContextView::Device(path@),
        ContextDefinition::Simulated(path)@ == ContextView::Simulated(path@),
        ContextDefinition::Device(path).path_view() == path@,
        ContextDefinition::Simulated(path).path_view() == path@,
{
}

} // verus!
