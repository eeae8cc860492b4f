use dls::actions::analysis::{AnalysisStorage, IsolatedInfo};
use dls::actions::compile_info::{CompileCommand, CompileInfoReading, ConfigFiles};
use dls::actions::config_change::LintReissueRequirement;
use dls::actions::context::{ClientCapabilities, ContextDefinition, InitActionContext, Workspace};
use dls::actions::file_watch::{FileChangeType, FileEvent, FileWatch};
use dls::actions::report::{GatheredErrors, LintErrors};
use dls::actions::words::{find_word_at_pos, word_around};
use dls::collections::{VecMap, VecSet};
use dls::config::{Config, DeviceContextMode};
use dls::effects::{Effect, Outbox};
use dls::errors::{
    DMLError, Diagnostic, DiagnosticSeverity, DocumentPosition, DocumentRange, SourcedDMLError,
    ZeroSpan,
};
use dls::lint::config::LintCfg;
use dls::path::FilePath;
use dls::server::message::MessageType;
use dls::span::{Column, Position, Row, ZeroRange};
use dls::actions::versions::VersionOrdering;

fn path(text: &str) -> FilePath {
    let mut components: Vec<String> = Vec::new();
    if text.starts_with('/') {
        components.push("/".to_string());
    }
    for part in text.split('/') {
        if !part.is_empty() {
            components.push(part.to_string());
        }
    }
    FilePath::new(text.to_string(), components)
}

fn config() -> Config {
    Config {
        compile_info_path: None,
        lint_cfg_path: None,
        linting_enabled: true,
        suppress_imports: false,
        lint_direct_only: false,
        analyse_on_save: false,
        new_device_context_mode: DeviceContextMode::AnyNew,
        analysis_retain_duration: None,
    }
}

fn capabilities() -> ClientCapabilities {
    ClientCapabilities { root: None, did_change_configuration: (false, false), configuration: false }
}

fn context(config: Config) -> InitActionContext {
    InitActionContext::new(
        AnalysisStorage::init(), config, capabilities(), 7,
        vec!["dml-builtins.dml".to_string()])
}

fn files() -> ConfigFiles {
    ConfigFiles {
        compile_info: CompileInfoReading { canon_path: None, commands: Ok(vec![]) },
        lint_cfg: Ok((LintCfg::default(), vec![])),
    }
}

fn shown(effect: &Effect) -> (MessageType, &str) {
    match effect {
        Effect::ShowMessage { typ, message } => (*typ, message.as_str()),
        _ => panic!("not a message"),
    }
}

fn workspace(uri: &str, name: &str) -> Workspace {
    Workspace { uri: uri.to_string(), name: name.to_string(), path: Some(path(uri)) }
}

fn error(row: u32, col: u32, description: &str) -> DMLError {
    DMLError {
        span: ZeroSpan { range: ZeroRange::from_u32(row, row, col, col + 1), file: path("/f.dml") },
        description: description.to_string(),
        severity: Some(DiagnosticSeverity::Error),
        related: vec![],
    }
}

fn lint_paths(out: &Outbox) -> Vec<String> {
    out.effects.iter().filter_map(|e| match e {
        Effect::LintAnalyze { path, .. } => Some(path.text.clone()),
        _ => None,
    }).collect()
}

fn with_analysed(config: Config) -> InitActionContext {
    let mut ctx = context(config);
    for file in ["/a.dml", "/b.dml", "/c.dml"] {
        ctx.analysis.isolated_analysis.insert(path(file), IsolatedInfo { is_device_file: false });
    }
    ctx.analysis.lint_analysis.insert(path("/b.dml"));
    ctx
}

#[test]
fn requirements_upgrade() {
    let all = [LintReissueRequirement::Nothing, LintReissueRequirement::ReReport,
               LintReissueRequirement::AnalyzeMissing, LintReissueRequirement::AnalyzeAll];
    for i in 0..4 {
        for j in 0..4 {
            let more = if i > j { i } else { j };
            assert_eq!(all[i].upgrade_to(all[j]), all[more]);
        }
    }
}

#[test]
fn same_config_does_nothing() {
    let mut ctx = with_analysed(config());
    let mut out = Outbox::new();
    ctx.maybe_changed_config(&config(), &files(), &mut out);
    assert!(out.effects.is_empty());
}

#[test]
fn turning_linting_on_lints_the_missing() {
    let mut old = config();
    old.linting_enabled = false;
    let mut ctx = with_analysed(config());
    let mut out = Outbox::new();
    ctx.maybe_changed_config(&old, &files(), &mut out);
    assert_eq!(lint_paths(&out), vec!["/a.dml", "/c.dml"]);
    assert!(matches!(out.effects.last(), Some(Effect::ReportErrors)));
    assert_eq!(out.effects.len(), 3);
}

#[test]
fn turning_linting_off_reports_anew() {
    let mut new = config();
    new.linting_enabled = false;
    let mut ctx = with_analysed(new);
    let mut out = Outbox::new();
    ctx.maybe_changed_config(&config(), &files(), &mut out);
    assert_eq!(out.effects.len(), 1);
    assert!(matches!(out.effects[0], Effect::ReportErrors));
}

#[test]
fn imports_and_open_files() {
    // Imports are left alone from now on: it is enough to report anew.
    let mut new = config();
    new.suppress_imports = true;
    let mut ctx = with_analysed(new);
    let mut out = Outbox::new();
    ctx.maybe_changed_config(&config(), &files(), &mut out);
    assert_eq!(out.effects.len(), 1);
    // And the other way round, with findings in all files shown again too.
    let mut old = config();
    old.suppress_imports = true;
    old.lint_direct_only = true;
    let mut ctx = with_analysed(config());
    let mut out = Outbox::new();
    ctx.maybe_changed_config(&old, &files(), &mut out);
    assert_eq!(lint_paths(&out), vec!["/a.dml", "/c.dml"]);
    // Only open files count: those alone are linted.
    let mut new = config();
    new.suppress_imports = true;
    let mut old = config();
    old.suppress_imports = true;
    old.lint_direct_only = true;
    let mut ctx = with_analysed(new);
    ctx.add_direct_open(&path("/c.dml"));
    let mut out = Outbox::new();
    ctx.maybe_changed_config(&old, &files(), &mut out);
    assert_eq!(lint_paths(&out), vec!["/c.dml"]);
}

#[test]
fn another_lint_config_lints_everything() {
    let mut new = config();
    new.lint_cfg_path = Some(path("/lint.json"));
    let mut ctx = with_analysed(new);
    let mut cfg = LintCfg::default();
    cfg.sp_brace = None;
    let mut given = files();
    given.lint_cfg = Ok((cfg, vec!["one".to_string(), "two".to_string()]));
    let mut out = Outbox::new();
    ctx.maybe_changed_config(&config(), &given, &mut out);
    assert_eq!(ctx.lint_config.sp_brace, None);
    assert_eq!(shown(&out.effects[0]),
               (MessageType::Error,
                "Unknown lint configuration fields: one, two. These will be ignored."));
    assert_eq!(lint_paths(&out), vec!["/a.dml", "/b.dml", "/c.dml"]);
    match &out.effects[1] {
        Effect::LintAnalyze { cfg, .. } => assert_eq!(cfg.sp_brace, None),
        _ => panic!("not a lint"),
    }
    assert!(matches!(out.effects.last(), Some(Effect::ReportErrors)));
}

#[test]
fn lint_config_that_cannot_be_read() {
    let mut new = config();
    new.lint_cfg_path = Some(path("/lint.json"));
    let mut ctx = context(new);
    ctx.lint_config.sp_punct = None;
    let mut out = Outbox::new();
    ctx.update_linter_config(&Err("no such file".to_string()), &mut out);
    assert_eq!(ctx.lint_config.sp_punct, None);
    assert!(out.effects.is_empty());
    ctx.update_linter_config(&Ok((LintCfg::default(), vec!["odd".to_string()])), &mut out);
    assert_eq!(ctx.lint_config, LintCfg::default());
    assert_eq!(shown(&out.effects[0]).1,
               "Unknown lint configuration field: odd. These will be ignored.");
    // Without a file the usual configuration is in force.
    ctx.lint_config.sp_punct = None;
    ctx.config.lint_cfg_path = None;
    ctx.update_linter_config(&Err("no such file".to_string()), &mut out);
    assert_eq!(ctx.lint_config, LintCfg::default());
}

fn command(file: &str, canon: Option<&str>, includes: &[&str]) -> CompileCommand {
    CompileCommand {
        file: path(file),
        canon_path: canon.map(|c| path(c)),
        includes: includes.iter().map(|i| path(i)).collect(),
    }
}

#[test]
fn compile_information_is_merged() {
    let ctx = context(config());
    let commands = vec![
        command("a.dml", Some("/r/a.dml"), &["/i1", "/i2"]),
        command("link/a.dml", Some("/r/a.dml"), &["/i2", "/i3"]),
        command("b.dml", Some("/r/b.dml"), &[]),
        command("gone.dml", None, &["/i4"]),
        command("c.py", Some("/r/c.py"), &["/i5"]),
        command("dml", Some("/r/dml"), &["/i6"]),
        command(".dml", Some("/r/.dml"), &["/i7"]),
    ];
    let info = ctx.compilation_info_from_file(&Ok(commands)).unwrap();
    assert_eq!(info.len(), 2);
    let a = info.get(&path("/r/a.dml")).unwrap();
    assert_eq!(a.include_paths.len(), 3);
    assert!(a.include_paths.contains(&path("/i3")));
    assert!(a.extra_defines.is_empty());
    assert!(info.get(&path("/r/b.dml")).unwrap().include_paths.is_empty());
    assert_eq!(ctx.compilation_info_from_file(&Err("bad".to_string())).err(),
               Some("bad".to_string()));
}

#[test]
fn the_order_of_compile_information_is_irrelevant() {
    let ctx = context(config());
    let one = || command("a.dml", Some("/r/a.dml"), &["/i1"]);
    let two = || command("b/../a.dml", Some("/r/a.dml"), &["/i2"]);
    for commands in [vec![one(), two()], vec![two(), one()], vec![two(), one(), one()]] {
        let info = ctx.compilation_info_from_file(&Ok(commands)).unwrap();
        assert_eq!(info.len(), 1);
        let paths = &info.get(&path("/r/a.dml")).unwrap().include_paths;
        assert_eq!(paths.len(), 2);
        assert!(paths.contains(&path("/i1")) && paths.contains(&path("/i2")));
    }
}

#[test]
fn taking_compile_information_over() {
    let mut new = config();
    new.compile_info_path = Some(path("/w/info.json"));
    let mut ctx = context(new);
    ctx.workspace_roots.push(workspace("/w", "w"));
    ctx.client_capabilities.root = Some(path("/root"));
    let reading = CompileInfoReading {
        canon_path: Some(path("/w/info.json")),
        commands: Ok(vec![command("a.dml", Some("/r/a.dml"), &["/i1"])]),
    };
    let mut out = Outbox::new();
    ctx.update_compilation_info(&reading, &mut out);
    assert_eq!(out.effects.len(), 1);
    match &out.effects[0] {
        Effect::UpdateContextDependencies { resolver } => {
            assert_eq!(resolver.root.as_ref().unwrap().text, "/root");
            assert_eq!(resolver.paths.len(), 1);
            assert_eq!(resolver.paths[0].text, "/w");
            assert!(resolver.include_paths.get(&path("/r/a.dml")).unwrap().contains(&path("/i1")));
            assert_eq!(resolver.include_paths.as_vec()[0].0.text, "/r/a.dml");
            assert_eq!(resolver.include_paths.as_vec()[0].1.as_vec()[0].text, "/i1");
        }
        _ => panic!("no update"),
    }
    // Elsewhere there is a warning; and what cannot be read changes nothing.
    let reading = CompileInfoReading {
        canon_path: Some(path("/elsewhere/info.json")),
        commands: Err("not json".to_string()),
    };
    let mut out = Outbox::new();
    ctx.update_compilation_info(&reading, &mut out);
    assert_eq!(out.effects.len(), 2);
    assert_eq!(shown(&out.effects[0]),
               (MessageType::Warning,
                "Compilation info file is not under any workspace root, might be configured \
                 for a different workspace."));
    assert_eq!(shown(&out.effects[1]),
               (MessageType::Error, "Could not update compilation info: not json"));
    assert_eq!(ctx.compilation_info.len(), 1);
    // Without folders, or where the file is not there, there is no warning.
    ctx.workspace_roots.push(workspace("/elsewhere", "e"));
    let mut out = Outbox::new();
    ctx.update_compilation_info(&reading, &mut out);
    assert_eq!(out.effects.len(), 1);
    ctx.workspace_roots.clear();
    ctx.update_compilation_info(&reading, &mut out);
    assert_eq!(out.effects.len(), 2);
    ctx.workspace_roots.push(workspace("/w", "w"));
    let nowhere = CompileInfoReading { canon_path: None, commands: Err("gone".to_string()) };
    ctx.update_compilation_info(&nowhere, &mut out);
    assert_eq!(out.effects.len(), 3);
    // Where none is configured, none is taken over.
    ctx.config.compile_info_path = None;
    let mut out = Outbox::new();
    ctx.update_compilation_info(
        &CompileInfoReading { canon_path: None, commands: Ok(vec![]) }, &mut out);
    assert!(out.effects.is_empty());
    assert_eq!(ctx.compilation_info.len(), 1);
}

#[test]
fn folders_come_and_go() {
    let mut ctx = context(config());
    ctx.update_workspaces(vec![workspace("/a", "a"), workspace("/b", "b"), workspace("/b", "b")],
                          &vec![]);
    // A folder is told apart by its name, too.
    ctx.update_workspaces(vec![workspace("/c", "c")],
                          &vec![workspace("/b", "b"), workspace("/a", "z")]);
    let uris: Vec<&str> = ctx.workspace_roots.iter().map(|w| w.uri.as_str()).collect();
    assert_eq!(uris, vec!["/a", "/c"]);
    let mut out = Outbox::new();
    ctx.update_analysis(&mut out);
    match &out.effects[0] {
        Effect::UpdateAnalysis { resolver } => assert_eq!(resolver.paths.len(), 2),
        _ => panic!("no update"),
    }
}

#[test]
fn an_error_becomes_a_diagnostic() {
    let sourced = SourcedDMLError {
        error: DMLError {
            span: ZeroSpan { range: ZeroRange::from_u32(1, 3, 2, 4), file: path("/f.dml") },
            description: "wrong".to_string(),
            severity: Some(DiagnosticSeverity::Warning),
            related: vec![(
                ZeroSpan { range: ZeroRange::from_u32(5, 6, 7, 8), file: path("/g.dml") },
                "because".to_string())],
        },
        source: "dml",
    };
    let Diagnostic { range, severity, code, source, message, related_information, tags } =
        sourced.to_diagnostic();
    assert_eq!(range, DocumentRange {
        start: DocumentPosition { line: 1, character: 2 },
        end: DocumentPosition { line: 3, character: 4 },
    });
    assert_eq!(severity, Some(DiagnosticSeverity::Warning));
    assert_eq!((code, tags), (None, None));
    assert_eq!(source.as_deref(), Some("dml"));
    assert_eq!(message, "wrong");
    let related = related_information.unwrap();
    assert_eq!(related.len(), 1);
    assert_eq!(related[0].message, "because");
    assert_eq!(related[0].location.file.text, "/g.dml");
    assert_eq!(related[0].location.range.end, DocumentPosition { line: 6, character: 8 });
}

fn gathered() -> GatheredErrors {
    let mut isolated = VecMap::new();
    isolated.insert(path("/f.dml"), vec![error(4, 0, "four"), error(2, 0, "two")]);
    isolated.insert(path("/empty.dml"), vec![]);
    let mut device = VecMap::new();
    device.insert(path("/f.dml"), vec![error(3, 0, "three")]);
    let mut lint = VecMap::new();
    lint.insert(path("/f.dml"),
                LintErrors { canon_path: path("/real/f.dml"), errors: vec![error(2, 5, "style")] });
    lint.insert(path("/l.dml"),
                LintErrors { canon_path: path("/real/l.dml"), errors: vec![error(0, 0, "only")] });
    GatheredErrors { isolated, device, lint }
}

fn published(out: &Outbox) -> Vec<(String, Vec<(String, String)>)> {
    let n = out.effects.len();
    assert!(matches!(out.effects[0], Effect::BeginDiagnostics));
    assert!(matches!(out.effects[n - 1], Effect::EndDiagnostics));
    out.effects[1..n - 1].iter().map(|e| match e {
        Effect::PublishDiagnostics { file, diagnostics } => (
            file.text.clone(),
            diagnostics.iter().map(|d| (d.message.clone(), d.source.clone().unwrap())).collect()),
        _ => panic!("not diagnostics"),
    }).collect()
}

fn pairs(items: &[(&str, &str)]) -> Vec<(String, String)> {
    items.iter().map(|(a, b)| (a.to_string(), b.to_string())).collect()
}

#[test]
fn errors_are_reported_in_order() {
    let ctx = context(config());
    let mut out = Outbox::new();
    ctx.report_errors(&gathered(), &mut out);
    assert_eq!(published(&out), vec![
        ("/f.dml".to_string(), pairs(&[("two", "dml"), ("style", "dml-lint"), ("three", "dml"),
                                       ("four", "dml")])),
        ("/empty.dml".to_string(), vec![]),
        ("/l.dml".to_string(), pairs(&[("only", "dml-lint")])),
    ]);
}

#[test]
fn lint_findings_can_be_hidden() {
    let mut ctx = context(config());
    ctx.config.lint_direct_only = true;
    ctx.add_direct_open(&path("/real/l.dml"));
    let mut out = Outbox::new();
    ctx.report_errors(&gathered(), &mut out);
    let all = published(&out);
    assert_eq!(all[0].1, pairs(&[("two", "dml"), ("three", "dml"), ("four", "dml")]));
    assert_eq!(all[2].1, pairs(&[("only", "dml-lint")]));
    ctx.config.linting_enabled = false;
    let mut out = Outbox::new();
    ctx.report_errors(&gathered(), &mut out);
    let files: Vec<String> = published(&out).into_iter().map(|p| p.0).collect();
    assert_eq!(files, vec!["/f.dml", "/empty.dml"]);
}

#[test]
fn a_report_starts_with_an_update() {
    let mut ctx = context(config());
    ctx.device_active_contexts.insert(ContextDefinition::Device(path("/d.dml")));
    let mut out = Outbox::new();
    ctx.start_report(&mut out);
    assert_eq!(out.effects.len(), 2);
    assert!(matches!(out.effects[0], Effect::UpdateAnalysis { .. }));
    match &out.effects[1] {
        Effect::GatherErrors { contexts } => {
            assert!(contexts.contains(&ContextDefinition::Device(path("/d.dml"))));
            assert_eq!(contexts.as_vec()[0].as_canon_path().text, "/d.dml");
        }
        _ => panic!("nothing gathered"),
    }
}

#[test]
fn progress_is_reported_once() {
    let mut ctx = context(config());
    let mut out = Outbox::new();
    ctx.maybe_end_progress(&mut out);
    assert!(out.effects.is_empty());
    ctx.isolated_analyze(&path("a.dml"), &None, &Some(path("/r/a.dml")), "p1", &mut out);
    ctx.isolated_analyze(&path("b.dml"), &Some(path("/c.dml")), &Some(path("/r/b.dml")), "p2",
                         &mut out);
    assert_eq!(out.effects.len(), 3);
    match (&out.effects[0], &out.effects[2]) {
        (Effect::BeginProgress { id, title },
         Effect::EnqueueIsolated { path, client_path, context }) => {
            assert_eq!((id.as_str(), title.as_str()), ("p1", "Analysing"));
            assert_eq!(path.text, "/r/b.dml");
            assert_eq!(client_path.text, "b.dml");
            assert_eq!(context.as_ref().unwrap().text, "/c.dml");
        }
        _ => panic!("no progress"),
    }
    // Work is left.
    ctx.analysis_queue.lint_jobs.insert(path("/r/a.dml"));
    let mut out = Outbox::new();
    ctx.maybe_end_progress(&mut out);
    assert!(out.effects.is_empty());
    ctx.analysis_queue.lint_jobs.remove(&path("/r/a.dml"));
    ctx.maybe_end_progress(&mut out);
    assert_eq!(out.effects.len(), 2);
    assert!(matches!(&out.effects[0], Effect::EndProgress { id, .. } if id == "p1"));
    assert_eq!(shown(&out.effects[1]).1,
               "Unable to find dml-builtins, various essential built-in templates, methods, and \
                paramters will be unavailable and semantic analysis is likely to produce errors \
                as a result");
    // The user is told once.
    ctx.maybe_start_progress("p3", &mut out);
    let mut out = Outbox::new();
    ctx.maybe_end_progress(&mut out);
    assert_eq!(out.effects.len(), 1);
}

#[test]
fn builtins_that_are_there() {
    let mut ctx = context(config());
    ctx.analysis.client_files.insert(path("dml-builtins.dml"));
    let mut out = Outbox::new();
    ctx.maybe_warn_missing_builtins(&mut out);
    assert!(out.effects.is_empty());
    assert!(!ctx.has_notified_missing_builtins);
}

#[test]
fn what_is_not_analysed() {
    let mut ctx = context(config());
    let mut out = Outbox::new();
    ctx.isolated_analyze(&path("a.dml"), &None, &None, "p1", &mut out);
    ctx.analysis.isolated_analysis.insert(path("/r/a.dml"), IsolatedInfo { is_device_file: true });
    ctx.isolated_analyze(&path("a.dml"), &None, &Some(path("/r/a.dml")), "p1", &mut out);
    assert!(out.effects.is_empty());
    assert_eq!(ctx.current_notifier, None);
    // Linting reports progress even if the file cannot be found.
    ctx.lint_analyze(&None, LintCfg::default(), "p1", &mut out);
    assert_eq!(out.effects.len(), 1);
    assert!(matches!(out.effects[0], Effect::BeginProgress { .. }));
    ctx.lint_analyze(&Some(path("/r/a.dml")), LintCfg::default(), "p2", &mut out);
    assert!(matches!(&out.effects[1], Effect::EnqueueLint { path, .. } if path.text == "/r/a.dml"));
}

#[test]
fn devices_are_triggered() {
    let mut ctx = context(config());
    ctx.config.new_device_context_mode = DeviceContextMode::Always;
    ctx.analysis.device_triggers.insert(path("/f.dml"), VecSet::from_vec(vec![
        path("/ready.dml"), path("/template.dml"), path("/missing.dml"), path("/fresh.dml"),
        path("/ready2.dml")]));
    for (file, is_device_file) in [("/ready.dml", true), ("/template.dml", false),
                                   ("/fresh.dml", true), ("/ready2.dml", true)] {
        ctx.analysis.isolated_analysis.insert(path(file), IsolatedInfo { is_device_file });
        ctx.analysis.with_dependencies.insert(path(file));
    }
    ctx.analysis.newer_than_dependencies.insert(path("/fresh.dml"));
    ctx.analysis.all_dependencies.insert(path("/ready.dml"),
                                         VecSet::from_vec(vec![path("/dep.dml")]));
    let mut out = Outbox::new();
    ctx.trigger_device_analysis(&path("/f.dml"), "p1", &mut out);
    assert_eq!(out.effects.len(), 3);
    assert!(matches!(out.effects[0], Effect::BeginProgress { .. }));
    match (&out.effects[1], &out.effects[2]) {
        (Effect::EnqueueDevice { device, dependencies },
         Effect::EnqueueDevice { device: second, dependencies: none }) => {
            assert_eq!(device.text, "/ready.dml");
            assert!(dependencies.contains(&path("/dep.dml")));
            assert_eq!(dependencies.as_vec()[0].text, "/dep.dml");
            assert_eq!(second.text, "/ready2.dml");
            assert!(none.is_empty());
        }
        _ => panic!("no devices"),
    }
    assert_eq!(ctx.device_active_contexts.len(), 2);
    let mut out = Outbox::new();
    ctx.trigger_device_analysis(&path("/g.dml"), "p2", &mut out);
    assert!(out.effects.is_empty());
}

#[test]
fn versions_are_checked() {
    let mut ctx = context(config());
    let (a, b) = (path("/a.dml"), path("/b.dml"));
    assert_eq!(ctx.check_change_version(&a, 3), VersionOrdering::InOrder);
    assert_eq!(ctx.check_change_version(&a, 3), VersionOrdering::Duplicate);
    assert_eq!(ctx.check_change_version(&a, 2), VersionOrdering::OutOfOrder);
    assert_eq!(ctx.check_change_version(&b, 2), VersionOrdering::InOrder);
    assert_eq!(ctx.check_change_version(&a, 7), VersionOrdering::InOrder);
    assert_eq!(ctx.check_change_version(&a, 4), VersionOrdering::OutOfOrder);
    ctx.reset_change_version(&a);
    assert_eq!(ctx.check_change_version(&a, -1), VersionOrdering::InOrder);
    assert_eq!(ctx.check_change_version(&b, 2), VersionOrdering::Duplicate);
}

fn word(line: &str, col: u32) -> (u32, u32) {
    let (start, end) = find_word_at_pos(line, Column(col));
    (start.0, end.0)
}

#[test]
fn words_at_cursors() {
    assert_eq!(word("struct Def {", 0), (0, 6));
    assert_eq!(word("struct Def {", 4), (0, 6));
    assert_eq!(word("struct Def {", 6), (0, 6));
    assert_eq!(word("struct Def {", 7), (7, 10));
    assert_eq!(word("struct Def {", 11), (11, 11));
    assert_eq!(word("a_b9.c", 2), (0, 4));
    assert_eq!(word("\u{e4}\u{f6} x", 1), (0, 2));
    // A word may end the line.
    for col in 0..4 {
        assert_eq!(word("foo", col), (0, 3));
    }
    assert_eq!(word("a foo", 3), (2, 5));
    assert_eq!(word("", 0), (0, 0));
    assert_eq!(word("", 4), (0, 4));
    assert_eq!(word("a b", 9), (2, 9));
    assert_eq!(word_around(&vec![true, false, true, true, false], Column(3)),
               (Column(2), Column(4)));
    assert_eq!(word_around(&vec![true, true, true], Column(1)), (Column(0), Column(3)));
}

#[test]
fn every_cursor_finds_the_word() {
    for line in ["struct Def {", "foo", " a__b.c9 ", "", "..", "x y"] {
        for col in 0..=line.len() as u32 {
            let (start, end) = word(line, col);
            assert!(start <= col && col <= end);
            for other in start..=end {
                assert_eq!(word(line, other), (start, end), "{} at {}", line, other);
            }
        }
    }
}

#[test]
fn positions_become_spans() {
    let ctx = context(config());
    let position = DocumentPosition { line: 5, character: 8 };
    let span = ctx.convert_pos_to_span(&path("/a.dml"), position, "struct Def {");
    assert_eq!(span.range, ZeroRange::from_u32(5, 5, 7, 10));
    assert_eq!(span.file.text, "/a.dml");
    let place = ctx.text_doc_pos_to_pos(&Some(path("/a.dml")), position, "struct Def {").unwrap();
    assert_eq!(place.position, Position { row: Row(5), col: Column(7) });
    assert_eq!(place.file.text, "/a.dml");
    assert!(ctx.text_doc_pos_to_pos(&None, position, "struct Def {").is_none());
}

#[test]
fn watching_the_compile_information() {
    let mut ctx = context(config());
    assert!(FileWatch::new(&ctx).is_none());
    ctx.config.compile_info_path = Some(path("/w/info.json"));
    let watch = FileWatch::new(&ctx).unwrap();
    for typ in [FileChangeType::Created, FileChangeType::Changed, FileChangeType::Deleted] {
        assert!(watch.is_relevant(&FileEvent { path: Some(path("/w/info.json")), typ }));
        // The same path, written otherwise.
        assert!(watch.is_relevant(&FileEvent { path: Some(path("/w//info.json")), typ }));
        assert!(!watch.is_relevant(&FileEvent { path: Some(path("/w/other.json")), typ }));
        assert!(!watch.is_relevant(&FileEvent { path: None, typ }));
    }
    assert!(watch.is_relevant_save_doc(&Some(path("/w/info.json"))));
    assert!(!watch.is_relevant_save_doc(&Some(path("/w/info.jso"))));
    assert!(!watch.is_relevant_save_doc(&None));
    let config = watch.watchers_config();
    assert_eq!(config.watchers.len(), 1);
    assert_eq!(config.watchers[0].glob_pattern, "/w/info.json");
    assert_eq!(config.watchers[0].kind, None);
}

#[test]
fn parts_of_paths() {
    let file = path("/a/b/c.tar.dml");
    assert!(file.starts_with(&path("/a/b")));
    assert!(file.starts_with(&file));
    assert!(!file.starts_with(&path("/a/bc")));
    assert!(!file.starts_with(&path("a/b")));
    assert!(file.file_name_is("c.tar.dml"));
    assert!(file.extension_is("dml"));
    assert!(!file.extension_is("tar.dml"));
    assert!(!path("/a/.dml").extension_is("dml"));
    assert!(path("/a/x.").extension_is(""));
    assert!(!path("/").file_name_is("/"));
    assert!(file.is_beside(&path("/a/b/d.dml")));
    assert!(!file.is_beside(&path("/a/x/d.dml")));
}

#[test]
fn ranges_are_ordered_by_their_start() {
    let r = |a, b, c, d| ZeroRange::from_u32(a, b, c, d);
    assert!(r(1, 9, 5, 0).comes_before(&r(2, 2, 0, 0)));
    assert!(r(1, 9, 5, 0).comes_before(&r(1, 1, 6, 0)));
    assert!(r(1, 1, 5, 0).comes_before(&r(1, 2, 5, 0)));
    assert!(r(1, 1, 5, 6).comes_before(&r(1, 1, 5, 7)));
    assert!(!r(1, 1, 5, 6).comes_before(&r(1, 1, 5, 6)));
}
