use dls::actions::analysis::{AnalysisStorage, IsolatedInfo};
use dls::actions::context::{
    AnalysisCoverageSpec, AnalysisProgressKind, AnalysisWaitKind, ClientCapabilities,
    ContextDefinition, InitActionContext,
};
use dls::actions::contexts::ContextInfo;
use dls::actions::waits::ends_wait;
use dls::collections::{Keyed, VecMap, VecSet};
use dls::config::{Config, DeviceContextMode};
use dls::effects::{AnalysisStateResponse, Effect, Outbox};
use dls::path::FilePath;

fn path(text: &str) -> FilePath {
    let mut components: Vec<String> = Vec::new();
    if text.starts_with('/') {
        components.push("/".to_string());
    }
    for part in text.split('/') {
        if !part.is_empty() {
            components.push(part.to_string());
        }
    }
    FilePath::new(text.to_string(), components)
}

fn config() -> Config {
    Config {
        compile_info_path: None,
        lint_cfg_path: None,
        linting_enabled: true,
        suppress_imports: false,
        lint_direct_only: false,
        analyse_on_save: false,
        new_device_context_mode: DeviceContextMode::AnyNew,
        analysis_retain_duration: None,
    }
}

fn capabilities() -> ClientCapabilities {
    ClientCapabilities { root: None, did_change_configuration: (false, false), configuration: false }
}

fn context(config: Config) -> InitActionContext {
    InitActionContext::new(
        AnalysisStorage::init(), config, capabilities(), 7,
        vec!["dml-builtins.dml".to_string()])
}

fn device(text: &str) -> ContextDefinition {
    ContextDefinition::from(path(text))
}

fn under(map: &mut VecMap<FilePath, VecSet<FilePath>>, key: &str, values: &[&str]) {
    let items: Vec<FilePath> = values.iter().map(|v| path(v)).collect();
    map.insert(path(key), VecSet::from_vec(items));
}

fn mode(mode: DeviceContextMode) -> InitActionContext {
    let mut config = config();
    config.new_device_context_mode = mode;
    context(config)
}

fn is_active(ctx: &InitActionContext, text: &str) -> bool {
    ctx.device_active_contexts.contains(&device(text))
}

fn outcome(ctx: &mut InitActionContext, kind: AnalysisProgressKind, wait: AnalysisWaitKind,
           paths: Option<&[&str]>) -> Option<AnalysisStateResponse> {
    let coverage = match paths {
        Some(paths) => AnalysisCoverageSpec::Paths(paths.iter().map(|p| path(p)).collect()),
        None => AnalysisCoverageSpec::All,
    };
    ctx.wait_for_state(kind, wait, coverage, 1)
}

fn analysed(ctx: &mut InitActionContext, text: &str, is_device_file: bool) {
    ctx.analysis.isolated_analysis.insert(path(text), IsolatedInfo { is_device_file });
}

#[test]
fn always_and_never() {
    let mut ctx = mode(DeviceContextMode::Always);
    ctx.maybe_add_device_context(&path("/d/a.dml"));
    assert!(is_active(&ctx, "/d/a.dml"));
    assert_eq!(ctx.device_active_contexts.as_vec()[0].as_canon_path().text, "/d/a.dml");
    let mut ctx = mode(DeviceContextMode::Never);
    ctx.maybe_add_device_context(&path("/d/a.dml"));
    assert!(!is_active(&ctx, "/d/a.dml"));
    assert!(ctx.previously_checked_contexts.contains(&device("/d/a.dml")));
}

#[test]
fn a_device_is_checked_once() {
    let mut ctx = mode(DeviceContextMode::Never);
    ctx.maybe_add_device_context(&path("/d/a.dml"));
    ctx.config.new_device_context_mode = DeviceContextMode::Always;
    ctx.maybe_add_device_context(&path("/d/a.dml"));
    assert!(!is_active(&ctx, "/d/a.dml"));
    ctx.maybe_add_device_context(&path("/d/b.dml"));
    assert!(is_active(&ctx, "/d/b.dml"));
    assert!(!is_active(&ctx, "/d/a.dml"));
}

#[test]
fn any_new_file_brings_a_context() {
    let mut ctx = mode(DeviceContextMode::AnyNew);
    under(&mut ctx.analysis.device_dependencies, "/d/b.dml", &["/d/one.dml", "/d/two.dml"]);
    under(&mut ctx.analysis.device_triggers, "/d/one.dml", &["/d/a.dml"]);
    under(&mut ctx.analysis.device_triggers, "/d/two.dml", &["/d/a.dml", "/d/b.dml"]);
    ctx.device_active_contexts.insert(device("/d/a.dml"));
    // Both files are covered by the device that is active already.
    ctx.maybe_add_device_context(&path("/d/b.dml"));
    assert!(!is_active(&ctx, "/d/b.dml"));
    // One is not.
    under(&mut ctx.analysis.device_dependencies, "/d/c.dml", &["/d/one.dml", "/d/three.dml"]);
    ctx.maybe_add_device_context(&path("/d/c.dml"));
    assert!(is_active(&ctx, "/d/c.dml"));
    // One that depends on nothing brings nothing new.
    ctx.maybe_add_device_context(&path("/d/d.dml"));
    assert!(!is_active(&ctx, "/d/d.dml"));
}

#[test]
fn only_the_first_device_counts() {
    let mut ctx = mode(DeviceContextMode::First);
    under(&mut ctx.analysis.device_triggers, "/lib/dml-builtins.dml", &["/d/a.dml", "/d/b.dml"]);
    under(&mut ctx.analysis.device_triggers, "/d/one.dml", &["/d/a.dml", "/d/c.dml"]);
    under(&mut ctx.analysis.device_dependencies, "/d/b.dml",
          &["/lib/dml-builtins.dml", "/d/two.dml"]);
    under(&mut ctx.analysis.device_dependencies, "/d/c.dml", &["/d/one.dml"]);
    ctx.device_active_contexts.insert(device("/d/a.dml"));
    // A core file that is covered does not count.
    ctx.maybe_add_device_context(&path("/d/b.dml"));
    assert!(is_active(&ctx, "/d/b.dml"));
    ctx.maybe_add_device_context(&path("/d/c.dml"));
    assert!(!is_active(&ctx, "/d/c.dml"));
    // One that depends on nothing is the first.
    ctx.maybe_add_device_context(&path("/d/e.dml"));
    assert!(is_active(&ctx, "/d/e.dml"));
}

#[test]
fn devices_of_one_module() {
    let mut ctx = mode(DeviceContextMode::SameModule);
    ctx.maybe_add_device_context(&path("/m/x.dml"));
    assert!(!is_active(&ctx, "/m/x.dml"));
    under(&mut ctx.analysis.device_dependencies, "/m/sub/a.dml", &[]);
    for (file, wanted) in [("/m/sub/b.dml", true), ("/m/sub/deep/c.dml", true),
                           ("/m/d.dml", true), ("/m/subs/e.dml", false),
                           ("/n/f.dml", false)] {
        ctx.maybe_add_device_context(&path(file));
        assert_eq!(is_active(&ctx, file), wanted, "{}", file);
    }
}

#[test]
fn choosing_contexts_for_a_file() {
    let mut ctx = mode(DeviceContextMode::Never);
    under(&mut ctx.analysis.device_triggers, "/d/f.dml", &["/d/a.dml", "/d/b.dml"]);
    ctx.device_active_contexts.insert(device("/d/a.dml"));
    ctx.device_active_contexts.insert(device("/d/other.dml"));
    ctx.device_active_contexts.insert(ContextDefinition::Simulated(path("/d/s.dml")));
    let chosen = VecSet::from_vec(vec![
        device("/d/b.dml"), device("/d/unknown.dml"),
        ContextDefinition::Simulated(path("/d/t.dml"))]);
    ctx.update_contexts(&path("/d/f.dml"), &chosen);
    assert!(!is_active(&ctx, "/d/a.dml"));
    assert!(is_active(&ctx, "/d/b.dml"));
    assert!(is_active(&ctx, "/d/other.dml"));
    assert!(!is_active(&ctx, "/d/unknown.dml"));
    assert!(ctx.device_active_contexts.contains(&ContextDefinition::Simulated(path("/d/s.dml"))));
    assert!(!ctx.device_active_contexts.contains(&ContextDefinition::Simulated(path("/d/t.dml"))));
    assert_eq!(ctx.device_active_contexts.len(), 3);
    // What is known of the contexts says what was chosen.
    let infos = ctx.get_context_info(&path("/d/f.dml"));
    assert!(infos.contains(
        &ContextInfo { context: device("/d/a.dml"), active: false, ready: false }));
    assert!(infos.contains(
        &ContextInfo { context: device("/d/b.dml"), active: true, ready: false }));
    // The same choice again changes nothing.
    ctx.update_contexts(&path("/d/f.dml"), &chosen);
    assert_eq!(ctx.device_active_contexts.len(), 3);
}

#[test]
fn what_is_known_of_contexts() {
    let mut ctx = mode(DeviceContextMode::Never);
    under(&mut ctx.analysis.device_triggers, "/d/f.dml", &["/d/a.dml", "/d/b.dml"]);
    under(&mut ctx.analysis.device_triggers, "/d/g.dml", &["/d/b.dml", "/d/c.dml"]);
    ctx.device_active_contexts.insert(device("/d/a.dml"));
    ctx.analysis.device_analysis.insert(path("/d/b.dml"));
    // What exists is brought up to date first.
    let mut out = Outbox::new();
    ctx.start_context_info(&mut out);
    assert_eq!(out.effects.len(), 1);
    assert!(matches!(out.effects[0], Effect::UpdateAnalysis { .. }));
    let of_file = ctx.get_context_info(&path("/d/f.dml"));
    assert_eq!(of_file.len(), 2);
    assert!(of_file.contains(
        &ContextInfo { context: device("/d/a.dml"), active: true, ready: false }));
    assert!(of_file.contains(
        &ContextInfo { context: device("/d/b.dml"), active: false, ready: true }));
    let all = ctx.get_all_context_info();
    assert_eq!(all.len(), 3);
    assert!(all.contains(
        &ContextInfo { context: device("/d/c.dml"), active: false, ready: false }));
    assert!(ctx.get_context_info(&path("/d/none.dml")).is_empty());
    assert_eq!(all.as_vec()[0].context.as_canon_path().text, "/d/a.dml");
}

#[test]
fn waiting_for_work() {
    let mut ctx = context(config());
    let (isolated, device_kind, dependants) = (
        AnalysisProgressKind::Isolated, AnalysisProgressKind::Device,
        AnalysisProgressKind::DeviceDependencies);
    let work = AnalysisWaitKind::Work;
    // Nothing is under way, and nothing exists.
    for kind in [isolated, device_kind, dependants] {
        assert_eq!(outcome(&mut ctx, kind, work, None), Some(AnalysisStateResponse::Satisfied));
        assert_eq!(outcome(&mut ctx, kind, work, Some(&["/a.dml"])),
                   Some(AnalysisStateResponse::Satisfied));
        // Of no paths at all everything exists.
        assert_eq!(outcome(&mut ctx, kind, work, Some(&[])),
                   Some(AnalysisStateResponse::Achieved));
    }
    ctx.analysis_queue.isolated_jobs.insert(path("/b.dml"));
    assert_eq!(outcome(&mut ctx, isolated, work, None), None);
    assert!(outcome(&mut ctx, isolated, work, Some(&["/a.dml"])).is_some());
    assert_eq!(outcome(&mut ctx, isolated, work, Some(&["/a.dml", "/b.dml"])), None);
    assert!(outcome(&mut ctx, device_kind, work, Some(&["/a.dml"])).is_some());
    // Waiting for what depends on a file is waiting for all files.
    assert_eq!(outcome(&mut ctx, dependants, work, Some(&["/a.dml"])), None);
    // Waiting for a device is waiting for what it imports.
    under(&mut ctx.analysis.all_dependencies, "/a.dml", &["/b.dml"]);
    assert_eq!(outcome(&mut ctx, device_kind, work, Some(&["/a.dml"])), None);
    assert!(outcome(&mut ctx, isolated, work, Some(&["/a.dml"])).is_some());
}

#[test]
fn waiting_for_work_on_devices() {
    let mut ctx = context(config());
    let work = AnalysisWaitKind::Work;
    ctx.analysis_queue.device_jobs.insert(path("/dev.dml"));
    under(&mut ctx.analysis.device_triggers, "/a.dml", &["/dev.dml"]);
    let device_kind = AnalysisProgressKind::Device;
    let dependants = AnalysisProgressKind::DeviceDependencies;
    assert_eq!(outcome(&mut ctx, device_kind, work, None), None);
    assert_eq!(outcome(&mut ctx, dependants, work, None), None);
    assert!(outcome(&mut ctx, AnalysisProgressKind::Isolated, work, None).is_some());
    assert_eq!(outcome(&mut ctx, device_kind, work, Some(&["/dev.dml"])), None);
    assert!(outcome(&mut ctx, device_kind, work, Some(&["/a.dml"])).is_some());
    assert_eq!(outcome(&mut ctx, dependants, work, Some(&["/a.dml"])), None);
    assert!(outcome(&mut ctx, dependants, work, Some(&["/dev.dml"])).is_some());
}

#[test]
fn waiting_for_existence() {
    let mut ctx = context(config());
    let exists = AnalysisWaitKind::Existence;
    let (isolated, device_kind, dependants) = (
        AnalysisProgressKind::Isolated, AnalysisProgressKind::Device,
        AnalysisProgressKind::DeviceDependencies);
    for kind in [isolated, device_kind, dependants] {
        assert_eq!(outcome(&mut ctx, kind, exists, None), None);
        assert_eq!(outcome(&mut ctx, kind, exists, Some(&["/a.dml"])), None);
    }
    analysed(&mut ctx, "/a.dml", false);
    assert_eq!(outcome(&mut ctx, isolated, exists, None), Some(AnalysisStateResponse::Achieved));
    assert_eq!(outcome(&mut ctx, device_kind, exists, None), None);
    assert_eq!(outcome(&mut ctx, isolated, exists, Some(&["/a.dml"])),
               Some(AnalysisStateResponse::Achieved));
    assert_eq!(outcome(&mut ctx, device_kind, exists, Some(&["/a.dml"])), None);
    // No device depends on the file: the wait is over, but there is nothing.
    assert_eq!(outcome(&mut ctx, dependants, exists, Some(&["/a.dml"])),
               Some(AnalysisStateResponse::Satisfied));
    under(&mut ctx.analysis.device_triggers, "/a.dml", &["/dev.dml", "/dev2.dml"]);
    under(&mut ctx.analysis.all_dependencies, "/dev.dml", &["/lib.dml"]);
    assert_eq!(outcome(&mut ctx, dependants, exists, Some(&["/a.dml"])), None);
    ctx.analysis.device_analysis.insert(path("/dev.dml"));
    ctx.analysis.device_analysis.insert(path("/dev2.dml"));
    // What a device imports has to exist too.
    assert_eq!(outcome(&mut ctx, dependants, exists, Some(&["/a.dml"])), None);
    analysed(&mut ctx, "/lib.dml", false);
    assert_eq!(outcome(&mut ctx, dependants, exists, Some(&["/a.dml"])),
               Some(AnalysisStateResponse::Achieved));
    assert_eq!(outcome(&mut ctx, device_kind, exists, None),
               Some(AnalysisStateResponse::Achieved));
    ctx.analysis.device_analysis.insert(path("/a.dml"));
    under(&mut ctx.analysis.all_dependencies, "/a.dml", &["/missing.dml"]);
    assert_eq!(outcome(&mut ctx, device_kind, exists, Some(&["/a.dml"])), None);
}

#[test]
fn waits_are_answered_once() {
    let mut ctx = context(config());
    ctx.analysis_queue.isolated_jobs.insert(path("/a.dml"));
    ctx.analysis_queue.isolated_jobs.insert(path("/b.dml"));
    for (waiter, file) in [(1, "/a.dml"), (2, "/b.dml"), (3, "/a.dml")] {
        assert_eq!(ctx.wait_for_state(
            AnalysisProgressKind::Isolated, AnalysisWaitKind::Work,
            AnalysisCoverageSpec::Paths(vec![path(file)]), waiter), None);
    }
    let mut out = Outbox::new();
    ctx.check_state_waits(&mut out);
    assert!(out.effects.is_empty());
    ctx.analysis_queue.isolated_jobs.remove(&path("/a.dml"));
    analysed(&mut ctx, "/a.dml", false);
    ctx.check_state_waits(&mut out);
    let answers: Vec<(u64, AnalysisStateResponse)> = out.effects.iter().map(|e| match e {
        Effect::AnswerWait { waiter, response } => (*waiter, *response),
        _ => unreachable!(),
    }).collect();
    assert_eq!(answers, vec![(1, AnalysisStateResponse::Achieved),
                             (3, AnalysisStateResponse::Achieved)]);
    assert_eq!(ctx.active_waits.len(), 1);
    ctx.check_state_waits(&mut out);
    assert_eq!(out.effects.len(), 2);
}

#[test]
fn waits_of_the_gone_are_dropped() {
    let mut ctx = context(config());
    ctx.analysis_queue.isolated_jobs.insert(path("/a.dml"));
    for waiter in [5, 6, 7] {
        ctx.wait_for_state(AnalysisProgressKind::Isolated, AnalysisWaitKind::Work,
                           AnalysisCoverageSpec::All, waiter);
    }
    let mut out = Outbox::new();
    ctx.ping_waits(&mut out);
    assert_eq!(out.effects.len(), 3);
    assert!(matches!(out.effects[1],
                     Effect::AnswerWait { waiter: 6, response: AnalysisStateResponse::Ping }));
    ctx.retain_live_waits(&VecSet::from_vec(vec![6u64]));
    let left: Vec<u64> = ctx.active_waits.iter().map(|w| w.response).collect();
    assert_eq!(left, vec![5, 7]);
    assert!(!ends_wait(AnalysisStateResponse::Ping));
    assert!(ends_wait(AnalysisStateResponse::Cancelled));
}

#[test]
fn sets_hold_no_duplicates() {
    let mut set: VecSet<FilePath> = VecSet::new();
    assert!(set.insert(path("/a/b")));
    // The same components, written otherwise.
    assert!(!set.insert(FilePath::new("/a//b".to_string(), path("/a/b").components)));
    assert_eq!(set.len(), 1);
    assert!(set.remove(&path("/a/b")));
    assert!(!set.remove(&path("/a/b")));
    assert!(set.is_empty());
    assert!(path("/a/b").same_key(&path("/a/b")));
    let mut map: VecMap<u32, u32> = VecMap::new();
    assert_eq!(map.insert(1, 10), None);
    assert_eq!(map.insert(2, 20), None);
    assert_eq!(map.insert(1, 11), Some(10));
    assert_eq!(map.as_vec(), &vec![(1, 11), (2, 20)]);
    assert_eq!(map.remove(&2), Some(20));
    assert_eq!(map.get(&1), Some(&11));
    assert_eq!(map.remove(&2), None);
    assert_eq!(map.remove(&1), Some(11));
    assert!(map.is_empty());
}
