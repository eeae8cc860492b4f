//! What holds of a change of the configuration and of what is read on its account,
//! told by the configurations, the files read, and what is kept and set off.
use crate::actions::analysis::PathKey;
use crate::actions::compile_info::{
    compile_info_effects, compile_info_taken_over, has_command, includes, includes_read, info_read,
    is_among, names_device, names_include, place_warned, resolver_of, under_some_root,
    CompileCommand, CompileInfoReading, ConfigFiles,
};
use crate::actions::config_change::{
    analysed_files, compile_info_changed, compile_info_part, config_change_effects,
    lint_config_after, lint_config_changed, lint_config_part, lint_config_shown, lint_reissue,
    lints_triggered, reissue_effects, LintReissueRequirement,
};
use crate::actions::context::{
    includes_of, CompilationInfo, CompilationInfoStorage, InitActionContext, Workspace,
};
use crate::actions::jobs::lint_wanted;
use crate::collections::{keys_of, Keyed};
use crate::config::{same_place, ConfigView};
use crate::effects::{path_views, EffectView};
use crate::lint::config::default_lint_cfg;
use crate::path::{
    extension_of, file_name_of, has_extension, lies_under, parent_of, CanonPath, FilePath, PathView,
};
use crate::server::message::MessageType;
use crate::server::notify::{lint_reading_shown, LintCfgReading};
use vstd::prelude::*;
use vstd::string::*;

verus! {

/// When the configuration comes to name another compile information file that can
/// be read, what is known of the compilation is what its entries say afterwards,
/// and the contexts' dependencies are worked out anew, looking for files under the
/// client's root, in its folders, and where the entries say.
pub proof fn another_compile_info_is_taken_over(
    ctx: InitActionContext,
    old_config: ConfigView,
    files: ConfigFiles,
    info: CompilationInfoStorage,
)
    requires
        compile_info_changed(ctx, old_config, files.compile_info, info),
        ctx.config.compile_info_path is Some,
        old_config.compile_info_path is None || old_config.compile_info_path->0.components
            != ctx.config.compile_info_path->0@.components,
        files.compile_info.commands is Ok,
    ensures
        info_read(info, files.compile_info.commands->Ok_0@),
        exists|i: int|
            {
                &&& 0 <= i < config_change_effects(ctx, old_config, files, info).len()
                &&& (#[trigger] config_change_effects(ctx, old_config, files, info)[i]) matches
                    EffectView::UpdateContextDependencies { resolver } && resolver.include_paths
                    == info.entries().map_values(
                    |e: (CanonPath, CompilationInfo)| (e.0@, e.1.include_paths.views()),
                ) && resolver.paths == ctx.workspace_roots@.map_values(
                    |w: Workspace| w.path->0@,
                ) && (resolver.root is Some <==> ctx.client_capabilities.root is Some) && (
                resolver.root is Some ==> resolver.root->0 == ctx.client_capabilities.root->0@)
            },
{
    let first = compile_info_part(ctx, old_config, files.compile_info, info);
    let all = config_change_effects(ctx, old_config, files, info);
    let at = first.len() - 1;
    assert(all[at] == first[at]);
    let resolver = resolver_of(ctx.client_capabilities.root, ctx.workspace_roots@, info);
    assert(first[at] == EffectView::UpdateContextDependencies { resolver });
    assert(resolver.include_paths =~= info.entries().map_values(
        |e: (CanonPath, CompilationInfo)| (e.0@, e.1.include_paths.views()),
    ));
    assert(resolver.paths =~= ctx.workspace_roots@.map_values(|w: Workspace| w.path->0@));
}

/// When the file cannot be read, what is known stays, and the user is told why.
pub proof fn unreadable_compile_info_is_told(
    ctx: InitActionContext,
    old_config: ConfigView,
    files: ConfigFiles,
    info: CompilationInfoStorage,
)
    requires
        compile_info_changed(ctx, old_config, files.compile_info, info),
        ctx.config.compile_info_path is Some,
        old_config.compile_info_path is None || old_config.compile_info_path->0.components
            != ctx.config.compile_info_path->0@.components,
        files.compile_info.commands is Err,
    ensures
        info == ctx.compilation_info,
        config_change_effects(ctx, old_config, files, info).contains(
            EffectView::ShowMessage {
                typ: MessageType::Error,
                message: "Could not update compilation info: "@
                    + files.compile_info.commands->Err_0@,
            },
        ),
{
    let first = compile_info_part(ctx, old_config, files.compile_info, info);
    let all = config_change_effects(ctx, old_config, files, info);
    let at = first.len() - 1;
    assert(all[at] == first[at]);
}

/// When the configuration names the same compile information file as before, or
/// none, nothing is done about it and what is known stays.
pub proof fn same_compile_info_is_left_alone(
    ctx: InitActionContext,
    old_config: ConfigView,
    files: ConfigFiles,
    info: CompilationInfoStorage,
    i: int,
)
    requires
        compile_info_changed(ctx, old_config, files.compile_info, info),
        ctx.config.compile_info_path is None || (old_config.compile_info_path is Some
            && old_config.compile_info_path->0.components
            == ctx.config.compile_info_path->0@.components),
        0 <= i < config_change_effects(ctx, old_config, files, info).len(),
    ensures
        info == ctx.compilation_info,
        !(config_change_effects(ctx, old_config, files, info)[i] is UpdateContextDependencies),
{
    let changed = InitActionContext {
        lint_config: lint_config_changed(ctx, old_config, files.lint_cfg),
        ..ctx
    };
    let required = lint_reissue(old_config, ctx.config@);
    let last = reissue_effects(changed, required);
    lemma_reissue_kinds(changed, required);
    let second = lint_config_part(ctx, old_config, files.lint_cfg);
    let all = config_change_effects(ctx, old_config, files, info);
    assert(compile_info_part(ctx, old_config, files.compile_info, info).len() == 0);
    if i < second.len() {
        assert(all[i] == second[i]);
    } else {
        assert(all[i] == last[i - second.len()]);
    }
}

/// Bringing lint findings in line only lints and reports.
proof fn lemma_reissue_kinds(ctx: InitActionContext, required: LintReissueRequirement)
    ensures
        forall|i: int|
            0 <= i < reissue_effects(ctx, required).len() ==> (#[trigger] reissue_effects(
                ctx,
                required,
            )[i]) is LintAnalyze || reissue_effects(ctx, required)[i] is ReportErrors,
{
    let files = analysed_files(ctx);
    lemma_lint_kinds(ctx, files, true, files.len() as int);
    lemma_lint_kinds(ctx, files, false, files.len() as int);
}

/// Linting files only lints.
proof fn lemma_lint_kinds(
    ctx: InitActionContext,
    files: Seq<PathView>,
    missing_only: bool,
    n: int,
)
    ensures
        forall|i: int|
            0 <= i < lints_triggered(ctx, files, missing_only, n).len() ==> (
            #[trigger] lints_triggered(ctx, files, missing_only, n)[i]) is LintAnalyze,
    decreases n,
{
    if n > 0 {
        lemma_lint_kinds(ctx, files, missing_only, n - 1);
    }
}

/// What a change asks of the lint findings, setting by setting: another lint
/// configuration has everything linted; turning linting on, leaving imports alone
/// no more, or showing findings in all files again has what is missing linted;
/// the reverse of these has the findings reported anew; anything else nothing.
pub proof fn settings_decide_what_is_linted(old: ConfigView, new: ConfigView)
    ensures
        ({
            let other_file = match (old.lint_cfg_path, new.lint_cfg_path) {
                (Some(a), Some(b)) => a.components != b.components,
                (None, None) => false,
                _ => true,
            };
            &&& other_file <==> lint_reissue(old, new) == LintReissueRequirement::AnalyzeAll
            &&& !other_file && !old.linting_enabled && new.linting_enabled ==> lint_reissue(
                old,
                new,
            ) == LintReissueRequirement::AnalyzeMissing
            &&& !other_file && old.suppress_imports && !new.suppress_imports ==> lint_reissue(
                old,
                new,
            ) == LintReissueRequirement::AnalyzeMissing
            &&& !other_file && old.lint_direct_only && !new.lint_direct_only ==> lint_reissue(
                old,
                new,
            ) == LintReissueRequirement::AnalyzeMissing
            &&& lint_reissue(old, new) == LintReissueRequirement::AnalyzeMissing ==> (
            !old.linting_enabled && new.linting_enabled) || (old.suppress_imports
                && !new.suppress_imports) || (old.lint_direct_only && !new.lint_direct_only)
            &&& lint_reissue(old, new) == LintReissueRequirement::Nothing ==> old.linting_enabled
                == new.linting_enabled && old.suppress_imports == new.suppress_imports
                && old.lint_direct_only == new.lint_direct_only
            &&& !other_file && old.linting_enabled == new.linting_enabled && old.suppress_imports
                == new.suppress_imports && old.lint_direct_only == new.lint_direct_only
                ==> lint_reissue(old, new) == LintReissueRequirement::Nothing
        }),
{
}

/// When everything is to be linted, each file that has been analysed on its own is
/// linted if linting is on and, where imports are left alone, the client has it
/// open; and when only what is missing is to be, each of these that has not been
/// linted. No other file is. Errors are reported last.
pub proof fn analysed_files_are_linted(ctx: InitActionContext, i: int)
    requires
        0 <= i < ctx.analysis.isolated_analysis.entries().len(),
    ensures
        ({
            let file = ctx.analysis.isolated_analysis.entries()[i].0@;
            let lint = EffectView::LintAnalyze { path: file, cfg: ctx.lint_config };
            let wanted = ctx.config.linting_enabled && (!ctx.config.suppress_imports
                || ctx.direct_opens@.contains(file.components));
            let all = reissue_effects(ctx, LintReissueRequirement::AnalyzeAll);
            let missing = reissue_effects(ctx, LintReissueRequirement::AnalyzeMissing);
            &&& wanted ==> all.contains(lint)
            &&& wanted && !ctx.analysis.lint_analysis@.contains(file.components)
                ==> missing.contains(lint)
            &&& all.last() is ReportErrors
            &&& missing.last() is ReportErrors
        }),
        reissue_effects(ctx, LintReissueRequirement::ReReport) == seq![EffectView::ReportErrors],
        reissue_effects(ctx, LintReissueRequirement::Nothing).len() == 0,
{
    let files = analysed_files(ctx);
    let n = files.len() as int;
    assert(files[i] == ctx.analysis.isolated_analysis.entries()[i].0@);
    let lint = EffectView::LintAnalyze { path: files[i], cfg: ctx.lint_config };
    if lint_wanted(ctx, files[i].components) {
        lemma_linted(ctx, files, false, n, i);
        let lints = lints_triggered(ctx, files, false, n);
        let j = choose|j: int| 0 <= j < lints.len() && lints[j] == lint;
        assert(reissue_effects(ctx, LintReissueRequirement::AnalyzeAll)[j] == lint);
        if !ctx.analysis.lint_analysis@.contains(files[i].components) {
            lemma_linted(ctx, files, true, n, i);
            let lints = lints_triggered(ctx, files, true, n);
            let j = choose|j: int| 0 <= j < lints.len() && lints[j] == lint;
            assert(reissue_effects(ctx, LintReissueRequirement::AnalyzeMissing)[j] == lint);
        }
    }
}

/// A file among the first is linted.
proof fn lemma_linted(
    ctx: InitActionContext,
    files: Seq<PathView>,
    missing_only: bool,
    n: int,
    i: int,
)
    requires
        0 <= i < n <= files.len(),
        lint_wanted(ctx, files[i].components),
        missing_only ==> !ctx.analysis.lint_analysis@.contains(files[i].components),
    ensures
        lints_triggered(ctx, files, missing_only, n).contains(
            EffectView::LintAnalyze { path: files[i], cfg: ctx.lint_config },
        ),
    decreases n,
{
    let lint = EffectView::LintAnalyze { path: files[i], cfg: ctx.lint_config };
    let now = lints_triggered(ctx, files, missing_only, n);
    let before = lints_triggered(ctx, files, missing_only, n - 1);
    if i == n - 1 {
        assert(now[before.len() as int] == lint);
    } else {
        lemma_linted(ctx, files, missing_only, n - 1, i);
        let j = choose|j: int| 0 <= j < before.len() && before[j] == lint;
        assert(now[j] == lint);
    }
}

/// No file is linted that has not been analysed, none that is not to be linted,
/// and, where only what is missing is to be, none that has been linted.
pub proof fn no_other_file_is_linted(
    ctx: InitActionContext,
    missing_only: bool,
    n: int,
    k: int,
)
    requires
        0 <= n <= analysed_files(ctx).len(),
        0 <= k < lints_triggered(ctx, analysed_files(ctx), missing_only, n).len(),
    ensures
        exists|i: int|
            {
                &&& 0 <= i < ctx.analysis.isolated_analysis.entries().len()
                &&& lints_triggered(ctx, analysed_files(ctx), missing_only, n)[k] == (
                EffectView::LintAnalyze {
                    path: (#[trigger] ctx.analysis.isolated_analysis.entries()[i]).0@,
                    cfg: ctx.lint_config,
                })
                &&& ctx.config.linting_enabled
                &&& !ctx.config.suppress_imports || ctx.direct_opens@.contains(
                    ctx.analysis.isolated_analysis.entries()[i].0@.components,
                )
                &&& missing_only ==> !ctx.analysis.lint_analysis@.contains(
                    ctx.analysis.isolated_analysis.entries()[i].0@.components,
                )
            },
    decreases n,
{
    let files = analysed_files(ctx);
    let before = lints_triggered(ctx, files, missing_only, n - 1);
    if k < before.len() {
        no_other_file_is_linted(ctx, missing_only, n - 1, k);
        assert(lints_triggered(ctx, files, missing_only, n)[k] == before[k]);
    } else {
        assert(files[n - 1] == ctx.analysis.isolated_analysis.entries()[n - 1].0@);
    }
}

/// The lint configuration after it was taken over: what the file says, with the
/// size of a level handed on to the rules that are on; the usual one where no file
/// is configured; what was in force where it cannot be read. A change that names
/// the same file leaves it alone.
pub proof fn lint_config_is_what_the_file_says(
    ctx: InitActionContext,
    old_config: ConfigView,
    reading: LintCfgReading,
)
    ensures
        ctx.config.lint_cfg_path is None ==> lint_config_after(ctx, reading) == default_lint_cfg(),
        ctx.config.lint_cfg_path is Some && reading is Err ==> lint_config_after(ctx, reading)
            == ctx.lint_config,
        ctx.config.lint_cfg_path is Some && reading is Ok ==> {
            let cfg = reading->Ok_0.0;
            let after = lint_config_after(ctx, reading);
            let size = if cfg.indent_size is Some {
                cfg.indent_size->0.indentation_spaces
            } else {
                4u32
            };
            &&& after.sp_brace == cfg.sp_brace
            &&& after.sp_punct == cfg.sp_punct
            &&& after.nsp_funpar == cfg.nsp_funpar
            &&& after.nsp_inparen == cfg.nsp_inparen
            &&& after.nsp_unary == cfg.nsp_unary
            &&& after.nsp_trailing == cfg.nsp_trailing
            &&& after.long_lines == cfg.long_lines
            &&& after.indent_size == cfg.indent_size
            &&& after.indent_no_tabs == cfg.indent_no_tabs
            &&& after.indent_paren_expr == cfg.indent_paren_expr
            &&& after.annotate_lints == cfg.annotate_lints
            &&& after.indent_code_block is Some == cfg.indent_code_block is Some
            &&& after.indent_closing_brace is Some == cfg.indent_closing_brace is Some
            &&& after.indent_switch_case is Some == cfg.indent_switch_case is Some
            &&& after.indent_empty_loop is Some == cfg.indent_empty_loop is Some
            &&& cfg.indent_code_block is Some ==> after.indent_code_block->0.indentation_spaces
                == size
            &&& cfg.indent_closing_brace is Some
                ==> after.indent_closing_brace->0.indentation_spaces == size
            &&& cfg.indent_switch_case is Some ==> after.indent_switch_case->0.indentation_spaces
                == size
            &&& cfg.indent_empty_loop is Some ==> after.indent_empty_loop->0.indentation_spaces
                == size
        },
        match (old_config.lint_cfg_path, ctx.config.lint_cfg_path) {
            (Some(a), Some(b)) => a.components == b@.components,
            (None, None) => true,
            _ => false,
        } ==> lint_config_changed(ctx, old_config, reading) == ctx.lint_config,
        !(match (old_config.lint_cfg_path, ctx.config.lint_cfg_path) {
            (Some(a), Some(b)) => a.components == b@.components,
            (None, None) => true,
            _ => false,
        }) ==> lint_config_changed(ctx, old_config, reading) == lint_config_after(ctx, reading),
{
}

/// The usual lint configuration has every rule on, lines of 80 characters, levels
/// of 4 spaces, and findings that name their rule.
pub proof fn every_rule_is_usually_on()
    ensures
        ({
            let cfg = default_lint_cfg();
            &&& cfg.sp_brace is Some && cfg.sp_punct is Some && cfg.nsp_funpar is Some
            &&& cfg.nsp_inparen is Some && cfg.nsp_unary is Some && cfg.nsp_trailing is Some
            &&& cfg.indent_no_tabs is Some && cfg.indent_paren_expr is Some
            &&& cfg.long_lines is Some && cfg.long_lines->0.max_length == 80
            &&& cfg.indent_size is Some && cfg.indent_size->0.indentation_spaces == 4
            &&& cfg.indent_code_block is Some && cfg.indent_code_block->0.indentation_spaces == 4
            &&& cfg.indent_closing_brace is Some
            &&& cfg.indent_closing_brace->0.indentation_spaces == 4
            &&& cfg.indent_switch_case is Some && cfg.indent_switch_case->0.indentation_spaces == 4
            &&& cfg.indent_empty_loop is Some && cfg.indent_empty_loop->0.indentation_spaces == 4
            &&& cfg.annotate_lints
        }),
{
}

/// Each entry for a DML file that is really there brings its includes to the device
/// that it leads to.
pub proof fn entries_bring_their_includes(
    info: CompilationInfoStorage,
    commands: Seq<CompileCommand>,
    i: int,
    j: int,
)
    requires
        info_read(info, commands),
        0 <= i < commands.len(),
        has_extension(commands[i].file@.components, "dml"@),
        commands[i].canon_path is Some,
        0 <= j < commands[i].includes@.len(),
    ensures
        info@.contains_key(commands[i].canon_path->0@.components),
        info@[commands[i].canon_path->0@.components].include_paths@.contains(
            commands[i].includes@[j]@.components,
        ),
{
    let k = commands[i].canon_path->0@.components;
    let path = commands[i].includes@[j]@.components;
    assert(commands[i].is_for(k));
    assert(has_command(commands, k));
    assert(includes_read(commands).contains_key(k));
    assert(includes_of(info@).contains_key(k));
    assert(keys_of(commands[i].includes@)[j] == path);
    assert(includes(commands, k, path));
    assert(includes_read(commands)[k].contains(path));
    assert(includes_of(info@)[k].contains(path));
}

/// A device is known even if its entry includes nothing; and what is known of
/// devices stems from entries for DML files that are really there: each device is
/// named as in such an entry, and each include is one of such an entry for the
/// device.
pub proof fn nothing_else_is_known_of_the_compilation(
    info: CompilationInfoStorage,
    commands: Seq<CompileCommand>,
    n: int,
    m: int,
)
    requires
        info_read(info, commands),
        0 <= n < info.entries().len(),
        info@.contains_key(info.entries()[n].0.key()),
        0 <= m < info@[info.entries()[n].0.key()].include_paths.views().len(),
    ensures
        exists|i: int|
            {
                &&& 0 <= i < commands.len()
                &&& has_extension((#[trigger] commands[i]).file@.components, "dml"@)
                &&& commands[i].canon_path is Some
                &&& commands[i].canon_path->0@ == info.entries()[n].0@
            },
        exists|i: int, j: int|
            {
                &&& 0 <= i < commands.len()
                &&& has_extension(commands[i].file@.components, "dml"@)
                &&& commands[i].canon_path is Some
                &&& commands[i].canon_path->0@.components == info.entries()[n].0@.components
                &&& 0 <= j < commands[i].includes@.len()
                &&& (#[trigger] commands[i].includes@[j])@
                    == info@[info.entries()[n].0.key()].include_paths.views()[m]
            },
        info@[info.entries()[n].0.key()].extra_defines@.len() == 0,
{
    let device = info.entries()[n].0;
    let k = device.key();
    assert(names_device(commands, device@));
    let i = choose|i: int|
        0 <= i < commands.len() && (#[trigger] commands[i]).is_for(device@.components)
            && commands[i].canon_path->0@ == device@;
    assert(commands[i].canon_path is Some);
    let v = info@[k].include_paths.views()[m];
    assert(names_include(commands, k, v));
    let a = choose|a: int|
        0 <= a < commands.len() && (#[trigger] commands[a]).is_for(k) && path_views(
            commands[a].includes@,
        ).contains(v);
    let b = choose|b: int|
        0 <= b < path_views(commands[a].includes@).len() && path_views(commands[a].includes@)[b]
            == v;
    assert(commands[a].includes@[b]@ == v);
}

/// The user is warned about where the compile information file is if and only if
/// it is there, the client works in some folder, and the file lies at or below
/// none of those that are paths.
pub proof fn place_is_warned_about(canon_path: Option<CanonPath>, roots: Seq<Workspace>)
    ensures
        place_warned(canon_path, roots) <==> canon_path is Some && roots.len() > 0 && forall|i: int|
            0 <= i < roots.len() && (#[trigger] roots[i]).path is Some
                ==> !roots[i].path->0@.components.is_prefix_of(canon_path->0@.components),
{
    assert forall|a: PathKey, b: PathKey|
        #[trigger] a.is_prefix_of(b) <==> a.len() <= b.len() && b.take(a.len() as int) == a by {
        assert(b.subrange(0, a.len() as int) =~= b.take(a.len() as int));
    }
    if canon_path is Some {
        let file = canon_path->0;
        if under_some_root(file.key(), roots) {
            let i = choose|i: int|
                0 <= i < roots.len() && ((#[trigger] roots[i]).path matches Some(root)
                    && lies_under(file.key(), root.key()));
            assert(roots[i].path is Some);
        }
    }
}

/// The warning is the first thing that taking the file over sets off, and it is
/// shown only where it is due.
pub proof fn place_warning_is_shown(
    ctx: InitActionContext,
    reading: CompileInfoReading,
    info: CompilationInfoStorage,
)
    ensures
        ctx.config.compile_info_path is None ==> compile_info_effects(ctx, reading, info).len()
            == 0,
        ctx.config.compile_info_path is Some && place_warned(
            reading.canon_path,
            ctx.workspace_roots@,
        ) ==> compile_info_effects(ctx, reading, info).len() == 2 && compile_info_effects(
            ctx,
            reading,
            info,
        )[0] == (EffectView::ShowMessage {
            typ: MessageType::Warning,
            message: "Compilation info file is not under any workspace root, might be configured for a different workspace."@,
        }),
        ctx.config.compile_info_path is Some && !place_warned(
            reading.canon_path,
            ctx.workspace_roots@,
        ) ==> compile_info_effects(ctx, reading, info).len() == 1,
        ctx.config.compile_info_path is Some ==> (reading.commands is Ok <==> compile_info_effects(
            ctx,
            reading,
            info,
        ).last() is UpdateContextDependencies),
        ctx.config.compile_info_path is Some && reading.commands is Err ==> compile_info_effects(
            ctx,
            reading,
            info,
        ).last() == (EffectView::ShowMessage {
            typ: MessageType::Error,
            message: "Could not update compilation info: "@ + reading.commands->Err_0@,
        }),
        ctx.config.compile_info_path is Some && reading.commands is Ok && compile_info_taken_over(
            ctx,
            reading,
            info,
        ) ==> info_read(info, reading.commands->Ok_0@),
        (ctx.config.compile_info_path is None || reading.commands is Err)
            && compile_info_taken_over(ctx, reading, info) ==> info == ctx.compilation_info,
{
}

/// What a file name's extension is: a name that is a non-empty stem, a dot and
/// something without a dot has that something; a name without a dot has none, and
/// neither has one whose only dot comes first.
pub proof fn extensions_follow_the_last_dot(stem: Seq<char>, extension: Seq<char>)
    requires
        !extension.contains('.'),
    ensures
        stem.len() > 0 ==> extension_of(stem.push('.') + extension) == Some(extension),
        extension_of(extension) is None,
        extension_of(seq!['.'] + extension) is None,
{
    let name = stem.push('.') + extension;
    let at = stem.len() as int;
    assert(name[at] == '.');
    assert forall|i: int| at < i < name.len() implies name[i] != '.' by {
        assert(name[i] == extension[i - at - 1]);
        assert(extension.contains(extension[i - at - 1]));
    }
    name.index_of_last_ensures('.');
    assert(name.contains('.'));
    assert(name.skip(at + 1) =~= extension);
    extension.index_of_last_ensures('.');
    let hidden = seq!['.'] + extension;
    assert(hidden[0] == '.');
    assert forall|i: int| 0 < i < hidden.len() implies hidden[i] != '.' by {
        assert(hidden[i] == extension[i - 1]);
        assert(extension.contains(extension[i - 1]));
    }
    hidden.index_of_last_ensures('.');
    assert(hidden.contains('.'));
}

/// What a path's extension, file name and parent are: those of its last component,
/// where it is a name. Neither the root directory nor a step within the tree is.
pub proof fn parts_of_a_path(components: Seq<Seq<char>>, last: Seq<char>, extension: Seq<char>)
    ensures
        last != "/"@ && last != "."@ && last != ".."@ ==> file_name_of(components.push(last))
            == Some(last),
        last == "/"@ || last == "."@ || last == ".."@ ==> file_name_of(components.push(last))
            is None,
        file_name_of(Seq::empty()) is None,
        last != "/"@ ==> parent_of(components.push(last)) == Some(components),
        last == "/"@ ==> parent_of(components.push(last)) is None,
        parent_of(Seq::empty()) is None,
        has_extension(components.push(last), extension) <==> last != "/"@ && last != "."@ && last
            != ".."@ && extension_of(last) == Some(extension),
        !has_extension(Seq::empty(), extension),
{
    assert(components.push(last).drop_last() =~= components);
}

/// Which folders stay: those that are removed under their URI and their name go,
/// and no others.
pub proof fn folders_are_known_by_uri_and_name(w: Workspace, named: Seq<Workspace>)
    ensures
        is_among(w, named) <==> exists|i: int|
            0 <= i < named.len() && (#[trigger] named[i]).uri@ == w.uri@ && named[i].name@
                == w.name@,
{
}

/// Where files are looked for: under the client's root, under the roots of the
/// folders in their order, and where the compile information says.
pub proof fn files_are_looked_for_in_folders(
    root: Option<FilePath>,
    roots: Seq<Workspace>,
    info: CompilationInfoStorage,
    i: int,
    j: int,
)
    requires
        0 <= i < roots.len(),
        roots[i].path is Some,
        0 <= j < info.entries().len(),
    ensures
        resolver_of(root, roots, info).root is Some == root is Some,
        root is Some ==> resolver_of(root, roots, info).root->0 == root->0@,
        resolver_of(root, roots, info).paths.len() == roots.len(),
        resolver_of(root, roots, info).paths[i] == roots[i].path->0@,
        resolver_of(root, roots, info).include_paths.len() == info.entries().len(),
        resolver_of(root, roots, info).include_paths[j].0 == info.entries()[j].0@,
        resolver_of(root, roots, info).include_paths[j].1
            == info.entries()[j].1.include_paths.views(),
{
}

/// Two optional paths are at the same place if and only if both are absent or both
/// have the same components.
pub proof fn places_are_told_by_components(a: Option<PathView>, b: Option<PathView>)
    ensures
        same_place(a, b) == same_place(b, a),
        same_place(a, a),
        a is None && b is Some ==> !same_place(a, b),
        a is Some && b is Some ==> (same_place(a, b) <==> a->0.components == b->0.components),
{
}

/// What a change of the configuration sets off ends with what is done about the
/// lint findings, under the lint configuration that is in force by then: errors
/// are reported last, and each file is linted that is to be.
pub proof fn changed_settings_have_files_linted(
    ctx: InitActionContext,
    old_config: ConfigView,
    files: ConfigFiles,
    info: CompilationInfoStorage,
    i: int,
)
    requires
        0 <= i < ctx.analysis.isolated_analysis.entries().len(),
    ensures
        ({
            let file = ctx.analysis.isolated_analysis.entries()[i].0@;
            let all = config_change_effects(ctx, old_config, files, info);
            let lint = EffectView::LintAnalyze {
                path: file,
                cfg: lint_config_changed(ctx, old_config, files.lint_cfg),
            };
            let required = lint_reissue(old_config, ctx.config@);
            let wanted = ctx.config.linting_enabled && (!ctx.config.suppress_imports
                || ctx.direct_opens@.contains(file.components));
            &&& required != LintReissueRequirement::Nothing ==> all.last() is ReportErrors
            &&& required == LintReissueRequirement::AnalyzeAll && wanted ==> all.contains(lint)
            &&& required == LintReissueRequirement::AnalyzeMissing && wanted
                && !ctx.analysis.lint_analysis@.contains(file.components) ==> all.contains(lint)
        }),
{
    let changed = InitActionContext {
        lint_config: lint_config_changed(ctx, old_config, files.lint_cfg),
        ..ctx
    };
    let required = lint_reissue(old_config, ctx.config@);
    let tail = reissue_effects(changed, required);
    let head = compile_info_part(ctx, old_config, files.compile_info, info) + lint_config_part(
        ctx,
        old_config,
        files.lint_cfg,
    );
    let all = config_change_effects(ctx, old_config, files, info);
    analysed_files_are_linted(changed, i);
    let file = ctx.analysis.isolated_analysis.entries()[i].0@;
    let lint = EffectView::LintAnalyze { path: file, cfg: changed.lint_config };
    if required != LintReissueRequirement::Nothing {
        assert(all.last() == tail.last());
    }
    if tail.contains(lint) {
        let j = choose|j: int| 0 <= j < tail.len() && tail[j] == lint;
        assert(all[head.len() + j] == lint);
    }
}

/// What is shown when the lint configuration is taken over: what is shown of the reading
/// where a file is configured. Taking over both files shows first what the compile
/// information brings.
pub proof fn what_taking_files_over_shows(
    ctx: InitActionContext,
    old_config: ConfigView,
    files: ConfigFiles,
    info: CompilationInfoStorage,
)
    ensures
        ctx.config.lint_cfg_path is None ==> lint_config_shown(ctx, files.lint_cfg).len() == 0,
        ctx.config.lint_cfg_path is Some ==> lint_config_shown(ctx, files.lint_cfg)
            == lint_reading_shown(files.lint_cfg),
        crate::actions::init::init_effects(ctx, files, info) == compile_info_effects(
            ctx,
            files.compile_info,
            info,
        ) + lint_config_shown(ctx, files.lint_cfg),
        !same_place(old_config.lint_cfg_path, ctx.config@.lint_cfg_path) ==> {
            let all = config_change_effects(ctx, old_config, files, info);
            let first = compile_info_part(ctx, old_config, files.compile_info, info);
            let second = lint_config_shown(ctx, files.lint_cfg);
            &&& all.len() >= first.len() + second.len()
            &&& all.subrange(first.len() as int, (first.len() + second.len()) as int) == second
        },
        !same_place(old_config.compile_info_path, ctx.config@.compile_info_path) ==> {
            let all = config_change_effects(ctx, old_config, files, info);
            let first = compile_info_effects(ctx, files.compile_info, info);
            &&& all.len() >= first.len()
            &&& all.take(first.len() as int) == first
        },
        ctx.config@.lint_cfg_path is Some == ctx.config.lint_cfg_path is Some,
        ctx.config@.compile_info_path is Some == ctx.config.compile_info_path is Some,
{
    let all = config_change_effects(ctx, old_config, files, info);
    let first = compile_info_part(ctx, old_config, files.compile_info, info);
    let second = lint_config_part(ctx, old_config, files.lint_cfg);
    assert(all.subrange(first.len() as int, (first.len() + second.len()) as int) =~= second);
    assert(all.take(first.len() as int) =~= first);
}

/// What the entries say of a device: it is known if and only if some entry for a DML file
/// leads to it, and imports are looked for exactly where some such entry says.
pub proof fn what_the_entries_say(
    commands: Seq<CompileCommand>,
    device: PathKey,
    path: PathKey,
)
    ensures
        includes_read(commands).contains_key(device) <==> exists|i: int|
            {
                &&& 0 <= i < commands.len()
                &&& has_extension((#[trigger] commands[i]).file@.components, "dml"@)
                &&& commands[i].canon_path is Some
                &&& commands[i].canon_path->0@.components == device
            },
        includes_read(commands).contains_key(device) ==> (includes_read(commands)[device].contains(
            path,
        ) <==> exists|i: int, j: int|
            {
                &&& 0 <= i < commands.len()
                &&& has_extension(commands[i].file@.components, "dml"@)
                &&& commands[i].canon_path is Some
                &&& commands[i].canon_path->0@.components == device
                &&& 0 <= j < commands[i].includes@.len()
                &&& (#[trigger] commands[i].includes@[j])@.components == path
            }),
{
    if has_command(commands, device) {
        let i = choose|i: int| 0 <= i < commands.len() && (#[trigger] commands[i]).is_for(device);
        assert(commands[i].canon_path is Some);
    }
    if exists|i: int|
        {
            &&& 0 <= i < commands.len()
            &&& has_extension((#[trigger] commands[i]).file@.components, "dml"@)
            &&& commands[i].canon_path is Some
            &&& commands[i].canon_path->0@.components == device
        } {
        let i = choose|i: int|
            {
                &&& 0 <= i < commands.len()
                &&& has_extension((#[trigger] commands[i]).file@.components, "dml"@)
                &&& commands[i].canon_path is Some
                &&& commands[i].canon_path->0@.components == device
            };
        assert(commands[i].is_for(device));
    }
    if includes(commands, device, path) {
        let i = choose|i: int|
            0 <= i < commands.len() && (#[trigger] commands[i]).is_for(device) && keys_of(
                commands[i].includes@,
            ).contains(path);
        let keys = keys_of(commands[i].includes@);
        let j = choose|j: int| 0 <= j < keys.len() && keys[j] == path;
        assert(commands[i].includes@[j]@.components == path);
    }
    if exists|i: int, j: int|
        {
            &&& 0 <= i < commands.len()
            &&& has_extension(commands[i].file@.components, "dml"@)
            &&& commands[i].canon_path is Some
            &&& commands[i].canon_path->0@.components == device
            &&& 0 <= j < commands[i].includes@.len()
            &&& (#[trigger] commands[i].includes@[j])@.components == path
        } {
        let (i, j) = choose|i: int, j: int|
            {
                &&& 0 <= i < commands.len()
                &&& has_extension(commands[i].file@.components, "dml"@)
                &&& commands[i].canon_path is Some
                &&& commands[i].canon_path->0@.components == device
                &&& 0 <= j < commands[i].includes@.len()
                &&& (#[trigger] commands[i].includes@[j])@.components == path
            };
        assert(commands[i].is_for(device));
        assert(keys_of(commands[i].includes@)[j] == path);
    }
}

/// What is known of the compilation, read from entries, is what they say.
pub proof fn what_is_known_is_what_was_read(
    info: CompilationInfoStorage,
    commands: Seq<CompileCommand>,
    device: PathKey,
)
    requires
        info_read(info, commands),
    ensures
        info@.contains_key(device) <==> includes_read(commands).contains_key(device),
        info@.contains_key(device) ==> info@[device].include_paths@ == includes_read(
            commands,
        )[device],
{
    assert(includes_of(info@).contains_key(device) <==> info@.contains_key(device));
}

} // verus!
