//! What a change of the configuration sets off.
use crate::actions::analysis::IsolatedInfo;
use crate::actions::compile_info::{
    compile_info_effects, compile_info_needs_roots, compile_info_taken_over, roots_are_paths,
    CompileInfoReading, ConfigFiles,
};
use crate::actions::context::{CompilationInfoStorage, InitActionContext};
use crate::actions::jobs::lint_triggered;
use crate::config::{same_opt_path, same_place, Config, ConfigView};
use crate::effects::{Effect, EffectView, Outbox};
use crate::lint::config::{default_lint_cfg, LintCfg};
use crate::path::{CanonPath, PathView};
use crate::server::notify::{
    lint_cfg_read, lint_reading_shown, maybe_parse_lint_cfg, LintCfgReading,
};
use vstd::prelude::*;

verus! {

/// What a change of the configuration asks of the lint findings. Each asks for
/// more than the ones before.
#[derive(Clone, Copy, PartialEq, Eq, Structural, Debug)]
pub enum LintReissueRequirement {
    /// They stay as they are.
    Nothing,
    /// They are reported anew.
    ReReport,
    /// Files that have not been linted are, and then all is reported anew.
    AnalyzeMissing,
    /// All files are linted, and then all is reported anew.
    AnalyzeAll,
}

impl LintReissueRequirement {
    /// How much is asked for.
    pub open spec fn rank(self) -> int {
        match self {
            LintReissueRequirement::Nothing => 0,
            LintReissueRequirement::ReReport => 1,
            LintReissueRequirement::AnalyzeMissing => 2,
            LintReissueRequirement::AnalyzeAll => 3,
        }
    }

    /// Whichever of the two asks for more.
    pub fn upgrade_to(self, to: LintReissueRequirement) -> (more: LintReissueRequirement)
        ensures
            more == (if self.rank() >= to.rank() {
                self
            } else {
                to
            }),
    {
        match (self, to) {
            (LintReissueRequirement::Nothing, o) => o,
            (o, LintReissueRequirement::Nothing) => o,
            (LintReissueRequirement::AnalyzeAll, _) => LintReissueRequirement::AnalyzeAll,
            (_, LintReissueRequirement::AnalyzeAll) => LintReissueRequirement::AnalyzeAll,
            (LintReissueRequirement::AnalyzeMissing, _) => LintReissueRequirement::AnalyzeMissing,
            (_, LintReissueRequirement::AnalyzeMissing) => LintReissueRequirement::AnalyzeMissing,
            _ => LintReissueRequirement::ReReport,
        }
    }
}

/// What a change of the configuration asks of the lint findings.
///
/// Another lint configuration asks for everything to be linted again. Where
/// more files are to be linted or shown than before, the missing ones are.
/// Where fewer are, it is enough to report anew.
pub open spec fn lint_reissue(old: ConfigView, new: ConfigView) -> LintReissueRequirement {
    if !same_place(old.lint_cfg_path, new.lint_cfg_path) {
        LintReissueRequirement::AnalyzeAll
    } else if (new.linting_enabled && !old.linting_enabled) || (old.suppress_imports
        && !new.suppress_imports) || (old.lint_direct_only && !new.lint_direct_only) {
        LintReissueRequirement::AnalyzeMissing
    } else if new.linting_enabled != old.linting_enabled || new.suppress_imports
        != old.suppress_imports || new.lint_direct_only != old.lint_direct_only {
        LintReissueRequirement::ReReport
    } else {
        LintReissueRequirement::Nothing
    }
}

/// The lint configuration once the file that holds it has been taken over: the
/// usual one where no file is configured; what was in force where the file
/// cannot be read.
pub open spec fn lint_config_after(ctx: InitActionContext, reading: LintCfgReading) -> LintCfg {
    if ctx.config.lint_cfg_path is None {
        default_lint_cfg()
    } else {
        match lint_cfg_read(reading) {
            Some(cfg) => cfg,
            None => ctx.lint_config,
        }
    }
}

/// What the user is told when the lint configuration is taken over.
pub open spec fn lint_config_shown(
    ctx: InitActionContext,
    reading: LintCfgReading,
) -> Seq<EffectView> {
    if ctx.config.lint_cfg_path is None {
        Seq::empty()
    } else {
        lint_reading_shown(reading)
    }
}

/// What linting the first `n` files sets off, those aside that have been
/// linted if only missing ones are wanted.
pub open spec fn lints_triggered(
    ctx: InitActionContext,
    files: Seq<PathView>,
    missing_only: bool,
    n: int,
) -> Seq<EffectView>
    decreases n,
{
    if n <= 0 {
        Seq::empty()
    } else {
        let before = lints_triggered(ctx, files, missing_only, n - 1);
        let file = files[n - 1];
        if missing_only && ctx.analysis.lint_analysis@.contains(file.components) {
            before
        } else {
            before + lint_triggered(ctx, file, file.components)
        }
    }
}

/// The files that have been analysed on their own, in order.
pub open spec fn analysed_files(ctx: InitActionContext) -> Seq<PathView> {
    ctx.analysis.isolated_analysis.entries().map_values(|e: (CanonPath, IsolatedInfo)| e.0@)
}

/// What is done about the lint findings.
pub open spec fn reissue_effects(
    ctx: InitActionContext,
    required: LintReissueRequirement,
) -> Seq<EffectView> {
    let files = analysed_files(ctx);
    match required {
        LintReissueRequirement::Nothing => Seq::empty(),
        LintReissueRequirement::ReReport => seq![EffectView::ReportErrors],
        LintReissueRequirement::AnalyzeMissing => lints_triggered(
            ctx,
            files,
            true,
            files.len() as int,
        ) + seq![EffectView::ReportErrors],
        LintReissueRequirement::AnalyzeAll => lints_triggered(
            ctx,
            files,
            false,
            files.len() as int,
        ) + seq![EffectView::ReportErrors],
    }
}

/// The lint configuration after a change of the configuration.
pub open spec fn lint_config_changed(
    ctx: InitActionContext,
    old_config: ConfigView,
    reading: LintCfgReading,
) -> LintCfg {
    if same_place(old_config.lint_cfg_path, ctx.config@.lint_cfg_path) {
        ctx.lint_config
    } else {
        lint_config_after(ctx, reading)
    }
}

/// What is done about the compile information: it is taken over if another
/// file holds it. `info` is what is known afterwards.
pub open spec fn compile_info_part(
    ctx: InitActionContext,
    old_config: ConfigView,
    reading: CompileInfoReading,
    info: CompilationInfoStorage,
) -> Seq<EffectView> {
    if same_place(old_config.compile_info_path, ctx.config@.compile_info_path) {
        Seq::empty()
    } else {
        compile_info_effects(ctx, reading, info)
    }
}

/// What is done about the lint configuration: it is taken over if another file
/// holds it.
pub open spec fn lint_config_part(
    ctx: InitActionContext,
    old_config: ConfigView,
    reading: LintCfgReading,
) -> Seq<EffectView> {
    if same_place(old_config.lint_cfg_path, ctx.config@.lint_cfg_path) {
        Seq::empty()
    } else {
        lint_config_shown(ctx, reading)
    }
}

/// What a change of the configuration sets off: the compile information and
/// the lint configuration are taken over where other files hold them, and then
/// the lint findings are brought in line. `info` is what is known of the
/// compilation afterwards.
pub open spec fn config_change_effects(
    ctx: InitActionContext,
    old_config: ConfigView,
    files: ConfigFiles,
    info: CompilationInfoStorage,
) -> Seq<EffectView> {
    compile_info_part(ctx, old_config, files.compile_info, info) + lint_config_part(
        ctx,
        old_config,
        files.lint_cfg,
    ) + reissue_effects(
        InitActionContext {
            lint_config: lint_config_changed(ctx, old_config, files.lint_cfg),
            ..ctx
        },
        lint_reissue(old_config, ctx.config@),
    )
}

/// Whether a change of the configuration needs the roots of the workspaces.
pub open spec fn config_change_needs_roots(
    ctx: InitActionContext,
    old_config: ConfigView,
    files: ConfigFiles,
) -> bool {
    !same_place(old_config.compile_info_path, ctx.config@.compile_info_path)
        && compile_info_needs_roots(ctx, files.compile_info)
}

/// Whether `info` is what is known of the compilation after a change of the
/// configuration.
pub open spec fn compile_info_changed(
    ctx: InitActionContext,
    old_config: ConfigView,
    reading: CompileInfoReading,
    info: CompilationInfoStorage,
) -> bool {
    if same_place(old_config.compile_info_path, ctx.config@.compile_info_path) {
        info == ctx.compilation_info
    } else {
        compile_info_taken_over(ctx, reading, info)
    }
}

/// Four sequences, one after the other.
proof fn lemma_concat(
    a: Seq<EffectView>,
    b: Seq<EffectView>,
    c: Seq<EffectView>,
    d: Seq<EffectView>,
)
    ensures
        a + b + c + d == a + (b + c + d),
{
    assert(a + b + c + d =~= a + (b + c + d));
}

/// What is set off does not depend on the compile information.
proof fn lemma_lints_same(
    a: InitActionContext,
    b: InitActionContext,
    files: Seq<PathView>,
    missing_only: bool,
    n: int,
)
    requires
        a == (InitActionContext { compilation_info: a.compilation_info, ..b }),
    ensures
        lints_triggered(a, files, missing_only, n) == lints_triggered(b, files, missing_only, n),
    decreases n,
{
    if n > 0 {
        lemma_lints_same(a, b, files, missing_only, n - 1);
    }
}

impl InitActionContext {
    /// Takes the lint configuration over that the configuration names.
    pub fn update_linter_config(&mut self, reading: &LintCfgReading, out: &mut Outbox)
        ensures
            *final(self) == (InitActionContext {
                lint_config: lint_config_after(*old(self), *reading),
                ..*old(self)
            }),
            final(out)@ == old(out)@ + lint_config_shown(*old(self), *reading),
    {
        if self.config.lint_cfg_path.is_some() {
            match maybe_parse_lint_cfg(reading, out) {
                Some(cfg) => {
                    self.lint_config = cfg;
                },
                None => {},
            }
        } else {
            self.lint_config = LintCfg::default();
            assert(out@ =~= old(out)@ + Seq::<EffectView>::empty());
        }
    }

    /// Has the files linted that have been analysed on their own, those aside
    /// that have been linted if only missing ones are wanted.
    fn trigger_lints(&self, missing_only: bool, out: &mut Outbox)
        ensures
            final(out)@ == old(out)@ + lints_triggered(
                *self,
                analysed_files(*self),
                missing_only,
                analysed_files(*self).len() as int,
            ),
    {
        let ghost before = out@;
        let ghost files = analysed_files(*self);
        let entries = self.analysis.isolated_analysis.as_vec();
        let mut i: usize = 0;
        assert(out@ =~= before + lints_triggered(*self, files, missing_only, 0));
        while i < entries.len()
            invariant
                i <= entries@.len(),
                entries@ == self.analysis.isolated_analysis.entries(),
                files == analysed_files(*self),
                out@ == before + lints_triggered(*self, files, missing_only, i as int),
            decreases entries@.len() - i,
        {
            let file = &entries[i].0;
            assert(files[i as int] == file@);
            if !(missing_only && self.analysis.lint_analysis.contains(file)) {
                self.maybe_trigger_lint_analysis(file, file, out);
            }
            i += 1;
            assert(out@ =~= before + lints_triggered(*self, files, missing_only, i as int));
        }
    }

    /// Takes the compile information over if another file holds it now.
    fn change_compile_info(
        &mut self,
        old_config: &Config,
        reading: &CompileInfoReading,
        out: &mut Outbox,
    )
        requires
            !same_place(old_config@.compile_info_path, old(self).config@.compile_info_path)
                && compile_info_needs_roots(*old(self), *reading) ==> roots_are_paths(
                old(self).workspace_roots@,
            ),
        ensures
            *final(self) == (InitActionContext {
                compilation_info: final(self).compilation_info,
                ..*old(self)
            }),
            compile_info_changed(
                *old(self),
                old_config@,
                *reading,
                final(self).compilation_info,
            ),
            final(out)@ == old(out)@ + compile_info_part(
                *old(self),
                old_config@,
                *reading,
                final(self).compilation_info,
            ),
    {
        if !same_opt_path(&old_config.compile_info_path, &self.config.compile_info_path) {
            self.update_compilation_info(reading, out);
        } else {
            assert(out@ =~= old(out)@ + Seq::<EffectView>::empty());
        }
    }

    /// Takes the lint configuration over if another file holds it now.
    fn change_lint_config(
        &mut self,
        old_config: &Config,
        reading: &LintCfgReading,
        out: &mut Outbox,
    )
        ensures
            *final(self) == (InitActionContext {
                lint_config: lint_config_changed(*old(self), old_config@, *reading),
                ..*old(self)
            }),
            final(out)@ == old(out)@ + lint_config_part(*old(self), old_config@, *reading),
    {
        if !same_opt_path(&old_config.lint_cfg_path, &self.config.lint_cfg_path) {
            self.update_linter_config(reading, out);
        } else {
            assert(out@ =~= old(out)@ + Seq::<EffectView>::empty());
        }
    }

    /// What a change of the configuration asks of the lint findings.
    fn lint_requirement(&self, old_config: &Config) -> (required: LintReissueRequirement)
        ensures
            required == lint_reissue(old_config@, self.config@),
    {
        let mut required = LintReissueRequirement::Nothing;
        if self.config.linting_enabled != old_config.linting_enabled {
            if self.config.linting_enabled {
                required = required.upgrade_to(LintReissueRequirement::AnalyzeMissing);
            } else {
                required = required.upgrade_to(LintReissueRequirement::ReReport);
            }
        }
        if self.config.suppress_imports != old_config.suppress_imports {
            if self.config.suppress_imports {
                required = required.upgrade_to(LintReissueRequirement::ReReport);
            } else {
                required = required.upgrade_to(LintReissueRequirement::AnalyzeMissing);
            }
        }
        if self.config.lint_direct_only != old_config.lint_direct_only {
            if self.config.lint_direct_only {
                required = required.upgrade_to(LintReissueRequirement::ReReport);
            } else {
                required = required.upgrade_to(LintReissueRequirement::AnalyzeMissing);
            }
        }
        if !same_opt_path(&old_config.lint_cfg_path, &self.config.lint_cfg_path) {
            required = LintReissueRequirement::AnalyzeAll;
        }
        required
    }

    /// Brings the lint findings in line, as far as it is required. The compile
    /// information has no part in it.
    fn reissue_lints(
        &self,
        required: LintReissueRequirement,
        like: Ghost<InitActionContext>,
        out: &mut Outbox,
    )
        requires
            *self == (InitActionContext { compilation_info: self.compilation_info, ..like@ }),
        ensures
            final(out)@ == old(out)@ + reissue_effects(like@, required),
    {
        let ghost before = out@;
        let ghost all = analysed_files(like@);
        proof {
            assert(analysed_files(*self) == all);
            lemma_lints_same(*self, like@, all, true, all.len() as int);
            lemma_lints_same(*self, like@, all, false, all.len() as int);
        }
        match required {
            LintReissueRequirement::Nothing => {},
            LintReissueRequirement::ReReport => {
                out.push(Effect::ReportErrors);
            },
            LintReissueRequirement::AnalyzeMissing => {
                self.trigger_lints(true, out);
                out.push(Effect::ReportErrors);
            },
            LintReissueRequirement::AnalyzeAll => {
                self.trigger_lints(false, out);
                out.push(Effect::ReportErrors);
            },
        }
        assert(out@ =~= before + reissue_effects(like@, required));
    }

    /// Does what a change of the configuration asks for. `files` is what the
    /// files hold that the new configuration names.
    pub fn maybe_changed_config(
        &mut self,
        old_config: &Config,
        files: &ConfigFiles,
        out: &mut Outbox,
    )
        requires
            config_change_needs_roots(*old(self), old_config@, *files) ==> roots_are_paths(
                old(self).workspace_roots@,
            ),
        ensures
            *final(self) == (InitActionContext {
                compilation_info: final(self).compilation_info,
                lint_config: lint_config_changed(*old(self), old_config@, files.lint_cfg),
                ..*old(self)
            }),
            compile_info_changed(
                *old(self),
                old_config@,
                files.compile_info,
                final(self).compilation_info,
            ),
            final(out)@ == old(out)@ + config_change_effects(
                *old(self),
                old_config@,
                *files,
                final(self).compilation_info,
            ),
    {
        let ghost before = out@;
        let ghost start = *self;
        let required = self.lint_requirement(old_config);
        self.change_compile_info(old_config, &files.compile_info, out);
        let ghost first = compile_info_part(
            start,
            old_config@,
            files.compile_info,
            self.compilation_info,
        );
        self.change_lint_config(old_config, &files.lint_cfg, out);
        let ghost second = lint_config_part(start, old_config@, files.lint_cfg);
        let ghost changed = InitActionContext {
            lint_config: lint_config_changed(start, old_config@, files.lint_cfg),
            ..start
        };
        self.reissue_lints(required, Ghost(changed), out);
        let ghost third = reissue_effects(changed, required);
        proof {
            lemma_concat(before, first, second, third);
        }
    }
}

} // verus!
