//! The configuration of the server.
use crate::effects::{copy_opt_path, opt_path};
use crate::path::{FilePath, PathView};
use vstd::prelude::*;

verus! {

/// When a device that has just become known is made an active context.
#[derive(Clone, Copy, PartialEq, Eq, Structural, Debug, Hash)]
pub enum DeviceContextMode {
    /// Always.
    Always,
    /// When some file that it depends on is in no active context.
    AnyNew,
    /// When no file that it depends on, core files aside, is in an active
    /// context.
    First,
    /// When a known device lies in its directory or above or below.
    SameModule,
    /// Never.
    Never,
}

/// The configuration.
pub struct Config {
    /// The file that says where imports are looked for.
    pub compile_info_path: Option<FilePath>,
    /// The file that holds the lint configuration.
    pub lint_cfg_path: Option<FilePath>,
    /// Whether files are linted.
    pub linting_enabled: bool,
    /// Whether imported files are left alone.
    pub suppress_imports: bool,
    /// Whether lint findings are shown only in files that the client has
    /// open.
    pub lint_direct_only: bool,
    /// Whether a file is analysed when it is saved, and not when it changes.
    pub analyse_on_save: bool,
    pub new_device_context_mode: DeviceContextMode,
    /// For how many seconds an analysis is kept.
    pub analysis_retain_duration: Option<u64>,
}

/// What a configuration says.
pub struct ConfigView {
    pub compile_info_path: Option<PathView>,
    pub lint_cfg_path: Option<PathView>,
    pub linting_enabled: bool,
    pub suppress_imports: bool,
    pub lint_direct_only: bool,
    pub analyse_on_save: bool,
    pub new_device_context_mode: DeviceContextMode,
    pub analysis_retain_duration: Option<u64>,
}

impl View for Config {
    type V = ConfigView;

    open spec fn view(&self) -> ConfigView {
        ConfigView {
            compile_info_path: opt_path(self.compile_info_path),
            lint_cfg_path: opt_path(self.lint_cfg_path),
            linting_enabled: self.linting_enabled,
            suppress_imports: self.suppress_imports,
            lint_direct_only: self.lint_direct_only,
            analyse_on_save: self.analyse_on_save,
            new_device_context_mode: self.new_device_context_mode,
            analysis_retain_duration: self.analysis_retain_duration,
        }
    }
}

impl Config {
    /// A copy of the configuration.
    pub fn copy(&self) -> (copy: Self)
        ensures
            copy@ == self@,
    {
        Config {
            compile_info_path: copy_opt_path(&self.compile_info_path),
            lint_cfg_path: copy_opt_path(&self.lint_cfg_path),
            linting_enabled: self.linting_enabled,
            suppress_imports: self.suppress_imports,
            lint_direct_only: self.lint_direct_only,
            analyse_on_save: self.analyse_on_save,
            new_device_context_mode: self.new_device_context_mode,
            analysis_retain_duration: self.analysis_retain_duration,
        }
    }

    /// Takes a new configuration over.
    pub fn update(&mut self, new: Config)
        ensures
            *final(self) == new,
    {
        *self = new;
    }
}

/// Whether two paths that may be absent lead to the same place, or are both
/// absent.
pub open spec fn same_place(a: Option<PathView>, b: Option<PathView>) -> bool {
    match (a, b) {
        (Some(p), Some(q)) => p.components == q.components,
        (None, None) => true,
        _ => false,
    }
}

/// Whether the two paths lead to the same place, or are both absent.
pub fn same_opt_path(a: &Option<FilePath>, b: &Option<FilePath>) -> (same: bool)
    ensures
        same == same_place(opt_path(*a), opt_path(*b)),
{
    match (a, b) {
        (Some(p), Some(q)) => p.same_as(q),
        (None, None) => true,
        _ => false,
    }
}

/// A configuration says what its fields hold.
pub proof fn configurations_say_what_they_hold(config: Config)
    ensures
        config@.linting_enabled == config.linting_enabled,
        config@.suppress_imports == config.suppress_imports,
        config@.lint_direct_only == config.lint_direct_only,
        config@.analyse_on_save == config.analyse_on_save,
        config@.new_device_context_mode == config.new_device_context_mode,
        config@.analysis_retain_duration == config.analysis_retain_duration,
        config@.compile_info_path is Some == config.compile_info_path is Some,
        config.compile_info_path is Some ==> config@.compile_info_path->0
            == config.compile_info_path->0@,
        config@.lint_cfg_path is Some == config.lint_cfg_path is Some,
        config.lint_cfg_path is Some ==> config@.lint_cfg_path->0 == config.lint_cfg_path->0@,
{
}

} // verus!
