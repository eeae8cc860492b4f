//! The files that the client watches for the server.
use crate::actions::context::InitActionContext;
use crate::collections::Keyed;
use crate::effects::opt_path;
use crate::path::{FilePath, PathView};
use crate::server::message::{FileSystemWatcher, WatcherView, WatchersConfig};
use vstd::prelude::*;
use vstd::string::*;

verus! {

/// How a file changed.
#[derive(Clone, Copy, PartialEq, Eq, Structural, Debug)]
pub enum FileChangeType {
    Created,
    Changed,
    Deleted,
}

/// A file changed.
pub struct FileEvent {
    /// The path of the document, where it is a file.
    pub path: Option<FilePath>,
    pub typ: FileChangeType,
}

/// The file that the client watches: the compile information.
pub struct FileWatch {
    pub file_path: FilePath,
}

/// What the client is asked to watch.
pub open spec fn watchers_for(pattern: Seq<char>) -> Seq<WatcherView> {
    seq![WatcherView { glob_pattern: pattern, kind: None }]
}

/// Whether the document is the file that is watched: it is a file, and its path
/// leads to the same place.
pub open spec fn is_watched(watched: PathView, document: Option<PathView>) -> bool {
    document matches Some(path) && path.components == watched.components
}

impl FileWatch {
    /// The watch that the configuration asks for: one on the compile
    /// information, where it is configured.
    pub fn new(ctx: &InitActionContext) -> (watch: Option<FileWatch>)
        ensures
            watch is Some == ctx.config.compile_info_path is Some,
            watch matches Some(w) ==> w.file_path@ == ctx.config.compile_info_path->0@,
    {
        match &ctx.config.compile_info_path {
            Some(path) => Some(FileWatch { file_path: path.duplicate() }),
            None => None,
        }
    }

    /// Whether a change of the document is one of the file that is watched,
    /// whatever the kind of change.
    fn relevant_change_kind(&self, path: &Option<FilePath>, _kind: FileChangeType) -> (b: bool)
        ensures
            b == is_watched(self.file_path@, opt_path(*path)),
    {
        match path {
            Some(path) => path.same_as(&self.file_path),
            None => false,
        }
    }

    /// Whether an event is one of the file that is watched.
    pub fn is_relevant(&self, change: &FileEvent) -> (b: bool)
        ensures
            b == is_watched(self.file_path@, opt_path(change.path)),
    {
        self.relevant_change_kind(&change.path, change.typ)
    }

    /// Whether the document that was saved is the file that is watched. `saved`
    /// is its path, where it is a file.
    pub fn is_relevant_save_doc(&self, saved: &Option<FilePath>) -> (b: bool)
        ensures
            b == is_watched(self.file_path@, opt_path(*saved)),
    {
        self.relevant_change_kind(saved, FileChangeType::Changed)
    }

    /// What the client is asked to watch: the file, for all kinds of changes.
    pub fn watchers_config(&self) -> (config: WatchersConfig)
        ensures
            config@ == watchers_for(self.file_path@.text),
    {
        let mut watchers: Vec<FileSystemWatcher> = Vec::new();
        watchers.push(
            FileSystemWatcher { glob_pattern: self.file_path.text.clone(), kind: None },
        );
        let config = WatchersConfig { watchers };
        assert(config@ =~= watchers_for(self.file_path@.text));
        config
    }
}

} // verus!
