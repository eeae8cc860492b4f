//! Starting analyses, and telling the client that they go on.
use crate::actions::analysis::{views_under, AnalysisStorage, PathKey};
use crate::actions::context::{ContextKey, ContextView, InitActionContext};
use crate::actions::contexts::{checked_active, checked_views, context_decidable};
use crate::collections::{push_new, Keyed, VecSet};
use crate::effects::{copy_opt_path, copy_paths, opt_path, path_views, Effect, EffectView, Outbox};
use crate::lint::config::LintCfg;
use crate::path::{CanonPath, FilePath, PathView};
use crate::server::message::MessageType;
use crate::server::notify::{message_shown, warning_message};
use crate::text::opt_text;
use vstd::prelude::*;
use vstd::string::*;

verus! {

/// What is told of the progress when an analysis starts.
pub open spec fn progress_begun(notifier: Option<Seq<char>>, id: Seq<char>) -> Seq<EffectView> {
    if notifier is None {
        seq![EffectView::BeginProgress { id, title: "Analysing"@ }]
    } else {
        Seq::empty()
    }
}

/// The progress report that goes on once an analysis has started.
pub open spec fn notifier_begun(notifier: Option<Seq<char>>, id: Seq<char>) -> Option<Seq<char>> {
    if notifier is None {
        Some(id)
    } else {
        notifier
    }
}

/// The file without which hardly any analysis makes sense.
pub open spec fn builtins() -> PathKey {
    seq!["dml-builtins.dml"@]
}

/// The warning that the built-in file is missing.
pub open spec fn builtins_warning() -> EffectView {
    message_shown(
        MessageType::Warning,
        "Unable to find dml-builtins, various essential built-in templates, methods, and paramters will be unavailable and semantic analysis is likely to produce errors as a result"@,
    )
}

/// Whether the user is to be told that the built-in file is missing.
pub open spec fn builtins_missed(ctx: InitActionContext) -> bool {
    !ctx.has_notified_missing_builtins && !ctx.analysis.client_files@.contains(builtins())
}

/// Whether an analysis of a device makes sense now: the file has been analysed
/// together with all that it imports, declares a device, and an analysis of
/// the device would not be the same as the one that exists.
pub open spec fn device_ready(analysis: AnalysisStorage, device: PathKey) -> bool {
    &&& analysis.with_dependencies@.contains(device)
    &&& analysis.isolated_analysis@[device].is_device_file
    &&& !analysis.newer_than_dependencies@.contains(device)
}

/// What starting analyses of devices changes.
pub struct Started {
    pub active: Set<ContextKey>,
    pub active_views: Seq<ContextView>,
    pub checked: Set<ContextKey>,
    pub checked_views: Seq<ContextView>,
    pub notifier: Option<Seq<char>>,
    pub effects: Seq<EffectView>,
}

/// Where things stand before anything is started.
pub open spec fn nothing_started(ctx: InitActionContext) -> Started {
    Started {
        active: ctx.device_active_contexts@,
        active_views: ctx.device_active_contexts.views(),
        checked: ctx.previously_checked_contexts@,
        checked_views: ctx.previously_checked_contexts.views(),
        notifier: opt_text(ctx.current_notifier),
        effects: Seq::empty(),
    }
}

/// Where things stand after the analysis of one more device was started.
pub open spec fn device_started(
    ctx: InitActionContext,
    so_far: Started,
    device: PathView,
    id: Seq<char>,
) -> Started {
    Started {
        active: checked_active(ctx, so_far.active, so_far.checked, device.components),
        active_views: checked_views(
            ctx,
            so_far.active,
            so_far.active_views,
            so_far.checked,
            device,
        ),
        checked: so_far.checked.insert(ContextKey::Device(device.components)),
        checked_views: push_new(
            so_far.checked,
            so_far.checked_views,
            ContextKey::Device(device.components),
            ContextView::Device(device),
        ),
        notifier: notifier_begun(so_far.notifier, id),
        effects: so_far.effects + progress_begun(so_far.notifier, id) + seq![
            EffectView::EnqueueDevice {
                device,
                dependencies: views_under(ctx.analysis.all_dependencies@, device.components),
            },
        ],
    }
}

/// Where things stand after the first `n` devices were gone through and the
/// ready ones started.
pub open spec fn ready_started(
    ctx: InitActionContext,
    devices: Seq<PathView>,
    n: int,
    id: Seq<char>,
) -> Started
    decreases n,
{
    if n <= 0 {
        nothing_started(ctx)
    } else {
        let so_far = ready_started(ctx, devices, n - 1, id);
        if device_ready(ctx.analysis, devices[n - 1].components) {
            device_started(ctx, so_far, devices[n - 1], id)
        } else {
            so_far
        }
    }
}

/// The devices that an analysis of the file sets off, in order.
pub open spec fn triggers_in_order(analysis: AnalysisStorage, file: PathKey) -> Seq<PathView> {
    views_under(analysis.device_triggers@, file)
}

/// Whether what is known of a device suffices to go through with starting its
/// analysis.
pub open spec fn device_startable(ctx: InitActionContext, device: PathKey) -> bool {
    &&& ctx.analysis.with_dependencies@.contains(device)
        ==> ctx.analysis.isolated_analysis@.contains_key(device)
    &&& device_ready(ctx.analysis, device) && !ctx.previously_checked_contexts@.contains(
        ContextKey::Device(device),
    ) ==> context_decidable(ctx.config.new_device_context_mode, ctx.analysis, device)
}

/// Whether a file is to be linted: linting is on and, where imported files are
/// left alone, the client has the file open.
pub open spec fn lint_wanted(ctx: InitActionContext, file: PathKey) -> bool {
    ctx.config.linting_enabled && (!ctx.config.suppress_imports || ctx.direct_opens@.contains(
        file,
    ))
}

/// What linting a file sets off, where it is to be linted.
pub open spec fn lint_triggered(ctx: InitActionContext, file: PathView, canon: PathKey) -> Seq<
    EffectView,
> {
    if lint_wanted(ctx, canon) {
        seq![EffectView::LintAnalyze { path: file, cfg: ctx.lint_config }]
    } else {
        Seq::empty()
    }
}

/// Starting one more ready device.
proof fn lemma_checked_grows(ctx: InitActionContext, devices: Seq<PathView>, n: int, id: Seq<char>)
    requires
        0 <= n <= devices.len(),
    ensures
        ctx.previously_checked_contexts@.subset_of(ready_started(ctx, devices, n, id).checked),
    decreases n,
{
    if n > 0 {
        lemma_checked_grows(ctx, devices, n - 1, id);
    }
}

impl InitActionContext {
    /// Tells the client that an analysis goes on, unless it has been told.
    pub fn maybe_start_progress(&mut self, id: &str, out: &mut Outbox)
        ensures
            *final(self) == (InitActionContext {
                current_notifier: final(self).current_notifier,
                ..*old(self)
            }),
            opt_text(final(self).current_notifier) == notifier_begun(
                opt_text(old(self).current_notifier),
                id@,
            ),
            final(out)@ == old(out)@ + progress_begun(opt_text(old(self).current_notifier), id@),
    {
        if self.current_notifier.is_none() {
            self.current_notifier = Some(id.to_owned());
            out.push(Effect::BeginProgress { id: id.to_owned(), title: "Analysing".to_owned() });
        }
        assert(out@ =~= old(out)@ + progress_begun(opt_text(old(self).current_notifier), id@));
    }

    /// Tells the client that the analysis is over, if nothing is under way and
    /// the client has been told that something was; and warns the user if the
    /// built-in file has not been seen by then.
    pub fn maybe_end_progress(&mut self, out: &mut Outbox)
        ensures
            *final(self) == (InitActionContext {
                current_notifier: final(self).current_notifier,
                has_notified_missing_builtins: final(self).has_notified_missing_builtins,
                ..*old(self)
            }),
            old(self).analysis_queue.is_idle() && old(self).current_notifier is Some ==> {
                &&& final(self).current_notifier is None
                &&& final(self).has_notified_missing_builtins == (old(
                    self,
                ).has_notified_missing_builtins || builtins_missed(*old(self)))
                &&& final(out)@ == old(out)@ + seq![
                    EffectView::EndProgress {
                        id: old(self).current_notifier->0@,
                        title: "Analysing"@,
                    },
                ] + (if builtins_missed(*old(self)) {
                    seq![builtins_warning()]
                } else {
                    Seq::empty()
                })
            },
            !(old(self).analysis_queue.is_idle() && old(self).current_notifier is Some) ==> {
                &&& *final(self) == *old(self)
                &&& final(out)@ == old(out)@
            },
    {
        let ghost before = out@;
        if self.analysis_queue.has_work() {
            return;
        }
        let id = match &self.current_notifier {
            Some(id) => id.clone(),
            None => {
                return;
            },
        };
        let ghost name = id@;
        out.push(Effect::EndProgress { id, title: "Analysing".to_owned() });
        self.maybe_warn_missing_builtins(out);
        self.current_notifier = None;
        assert(out@ =~= before + seq![
            EffectView::EndProgress { id: name, title: "Analysing"@ },
        ] + (if builtins_missed(*old(self)) {
            seq![builtins_warning()]
        } else {
            Seq::empty()
        }));
    }

    /// Warns the user, once, if the built-in file has not been seen.
    pub fn maybe_warn_missing_builtins(&mut self, out: &mut Outbox)
        ensures
            *final(self) == (InitActionContext {
                has_notified_missing_builtins: old(self).has_notified_missing_builtins
                    || builtins_missed(*old(self)),
                ..*old(self)
            }),
            final(out)@ == (if builtins_missed(*old(self)) {
                old(out)@.push(builtins_warning())
            } else {
                old(out)@
            }),
    {
        let mut components: Vec<String> = Vec::new();
        components.push("dml-builtins.dml".to_owned());
        let builtins_file = FilePath::new("dml-builtins.dml".to_owned(), components);
        assert(builtins_file.key() =~= builtins());
        if !self.has_notified_missing_builtins && !self.analysis.client_files.contains(
            &builtins_file,
        ) {
            self.has_notified_missing_builtins = true;
            warning_message(
                out,
                "Unable to find dml-builtins, various essential built-in templates, methods, and paramters will be unavailable and semantic analysis is likely to produce errors as a result".to_owned(),
            );
        }
    }

    /// Waits until all jobs are done.
    pub fn wait_for_concurrent_jobs(&self, out: &mut Outbox)
        ensures
            final(out)@ == old(out)@.push(EffectView::WaitForJobs),
    {
        out.push(Effect::WaitForJobs);
    }

    /// Starts the analysis of a file on its own, unless it cannot be found or
    /// has been analysed. `resolved` is where the path leads to in the
    /// context.
    pub fn isolated_analyze(
        &mut self,
        client_path: &FilePath,
        context: &Option<CanonPath>,
        resolved: &Option<CanonPath>,
        id: &str,
        out: &mut Outbox,
    )
        ensures
            *final(self) == (InitActionContext {
                current_notifier: final(self).current_notifier,
                ..*old(self)
            }),
            resolved matches Some(path) && !old(self).analysis.isolated_analysis@.contains_key(
                path.key(),
            ) ==> {
                let notifier = opt_text(old(self).current_notifier);
                &&& opt_text(final(self).current_notifier) == notifier_begun(notifier, id@)
                &&& final(out)@ == old(out)@ + progress_begun(notifier, id@) + seq![
                    EffectView::EnqueueIsolated {
                        path: resolved->0@,
                        client_path: client_path@,
                        context: opt_path(*context),
                    },
                ]
            },
            !(resolved matches Some(path) && !old(self).analysis.isolated_analysis@.contains_key(
                path.key(),
            )) ==> {
                &&& *final(self) == *old(self)
                &&& final(out)@ == old(out)@
            },
    {
        let ghost before = out@;
        let path = match resolved {
            Some(path) => path.duplicate(),
            None => {
                return;
            },
        };
        if self.analysis.isolated_analysis.contains_key(&path) {
            return;
        }
        self.maybe_start_progress(id, out);
        out.push(
            Effect::EnqueueIsolated {
                path,
                client_path: client_path.duplicate(),
                context: copy_opt_path(context),
            },
        );
        assert(out@ =~= before + progress_begun(opt_text(old(self).current_notifier), id@) + seq![
            EffectView::EnqueueIsolated {
                path: resolved->0@,
                client_path: client_path@,
                context: opt_path(*context),
            },
        ]);
    }

    /// Starts the analysis of a device, which may make it an active context.
    pub fn device_analyze(&mut self, device: &CanonPath, id: &str, out: &mut Outbox)
        requires
            !old(self).previously_checked_contexts@.contains(ContextKey::Device(device.key()))
                ==> context_decidable(
                old(self).config.new_device_context_mode,
                old(self).analysis,
                device.key(),
            ),
        ensures
            *final(self) == (InitActionContext {
                current_notifier: final(self).current_notifier,
                device_active_contexts: final(self).device_active_contexts,
                previously_checked_contexts: final(self).previously_checked_contexts,
                ..*old(self)
            }),
            ({
                let started = device_started(*old(self), nothing_started(*old(self)), device@, id@);
                &&& final(self).device_active_contexts@ == started.active
                &&& final(self).device_active_contexts.views() == started.active_views
                &&& final(self).previously_checked_contexts@ == started.checked
                &&& final(self).previously_checked_contexts.views() == started.checked_views
                &&& opt_text(final(self).current_notifier) == started.notifier
                &&& final(out)@ == old(out)@ + started.effects
            }),
    {
        let ghost before = out@;
        self.maybe_start_progress(id, out);
        self.maybe_add_device_context(device);
        let dependencies = match self.analysis.all_dependencies.get(device) {
            Some(dependencies) => dependencies.copy(),
            None => VecSet::new(),
        };
        out.push(Effect::EnqueueDevice { device: device.duplicate(), dependencies });
        assert(out@ =~= before + device_started(
            *old(self),
            nothing_started(*old(self)),
            device@,
            id@,
        ).effects);
    }

    /// Starts the analyses of the devices that depend on a file and are ready
    /// for it.
    pub fn trigger_device_analysis(&mut self, file: &CanonPath, id: &str, out: &mut Outbox)
        requires
            forall|device: PathKey|
                #[trigger] old(self).analysis.triggers_of(file.key()).contains(device)
                    ==> device_startable(*old(self), device),
        ensures
            *final(self) == (InitActionContext {
                current_notifier: final(self).current_notifier,
                device_active_contexts: final(self).device_active_contexts,
                previously_checked_contexts: final(self).previously_checked_contexts,
                ..*old(self)
            }),
            ({
                let devices = triggers_in_order(old(self).analysis, file.key());
                let started = ready_started(*old(self), devices, devices.len() as int, id@);
                &&& final(self).device_active_contexts@ == started.active
                &&& final(self).device_active_contexts.views() == started.active_views
                &&& final(self).previously_checked_contexts@ == started.checked
                &&& final(self).previously_checked_contexts.views() == started.checked_views
                &&& opt_text(final(self).current_notifier) == started.notifier
                &&& final(out)@ == old(out)@ + started.effects
            }),
    {
        let ghost before = out@;
        let ghost start = *self;
        let ghost devices = triggers_in_order(self.analysis, file.key());
        let mut triggers: Vec<CanonPath> = Vec::new();
        match self.analysis.device_triggers.get(file) {
            Some(found) => {
                triggers = copy_paths(found.as_vec());
                proof {
                    assert forall|i: int| 0 <= i < devices.len() implies self.analysis.triggers_of(
                        file.key(),
                    ).contains((#[trigger] devices[i]).components) by {
                        assert(found.keys()[i] == found.members()[i].key());
                        assert(found@.contains(found.keys()[i]));
                    }
                }
            },
            None => {},
        }
        assert(path_views(triggers@) =~= devices);
        let mut i: usize = 0;
        assert(out@ =~= before + ready_started(start, devices, 0, id@).effects);
        while i < triggers.len()
            invariant
                i <= triggers@.len(),
                path_views(triggers@) == devices,
                *self == (InitActionContext {
                    current_notifier: self.current_notifier,
                    device_active_contexts: self.device_active_contexts,
                    previously_checked_contexts: self.previously_checked_contexts,
                    ..start
                }),
                forall|j: int|
                    0 <= j < devices.len() ==> device_startable(
                        start,
                        (#[trigger] devices[j]).components,
                    ),
                self.device_active_contexts@ == ready_started(start, devices, i as int, id@).active,
                self.device_active_contexts.views() == ready_started(
                    start,
                    devices,
                    i as int,
                    id@,
                ).active_views,
                self.previously_checked_contexts.views() == ready_started(
                    start,
                    devices,
                    i as int,
                    id@,
                ).checked_views,
                self.previously_checked_contexts@ == ready_started(
                    start,
                    devices,
                    i as int,
                    id@,
                ).checked,
                opt_text(self.current_notifier) == ready_started(
                    start,
                    devices,
                    i as int,
                    id@,
                ).notifier,
                out@ == before + ready_started(start, devices, i as int, id@).effects,
            decreases triggers@.len() - i,
        {
            let trigger = &triggers[i];
            let ghost so_far = ready_started(start, devices, i as int, id@);
            assert(devices[i as int] == trigger@);
            assert(device_startable(start, devices[i as int].components));
            let is_device = match self.analysis.isolated_analysis.get(trigger) {
                Some(info) => info.is_device_file,
                None => false,
            };
            let ready = self.analysis.with_dependencies.contains(trigger) && is_device
                && !self.analysis.newer_than_dependencies.contains(trigger);
            assert(ready == device_ready(start.analysis, trigger.key()));
            if ready {
                proof {
                    lemma_checked_grows(start, devices, i as int, id@);
                }
                self.device_analyze(trigger, id, out);
                assert(out@ =~= before + device_started(start, so_far, trigger@, id@).effects);
            }
            i += 1;
        }
    }

    /// Has a file linted, where it is to be linted. `canon_path` is where the
    /// path leads to.
    pub fn maybe_trigger_lint_analysis(
        &self,
        file: &FilePath,
        canon_path: &CanonPath,
        out: &mut Outbox,
    )
        ensures
            final(out)@ == old(out)@ + lint_triggered(*self, file@, canon_path.key()),
    {
        let ghost before = out@;
        if !self.config.linting_enabled {
            assert(out@ =~= before + Seq::<EffectView>::empty());
            return;
        }
        if self.config.suppress_imports {
            if !self.direct_opens.contains(canon_path) {
                assert(out@ =~= before + Seq::<EffectView>::empty());
                return;
            }
        }
        out.push(Effect::LintAnalyze { path: file.duplicate(), cfg: self.lint_config });
        assert(out@ =~= before + lint_triggered(*self, file@, canon_path.key()));
    }

    /// Starts linting a file, unless it cannot be found. `resolved` is where
    /// the path leads to. The client is told that an analysis goes on even if
    /// the file cannot be found.
    pub fn lint_analyze(
        &mut self,
        resolved: &Option<CanonPath>,
        cfg: LintCfg,
        id: &str,
        out: &mut Outbox,
    )
        ensures
            *final(self) == (InitActionContext {
                current_notifier: final(self).current_notifier,
                ..*old(self)
            }),
            opt_text(final(self).current_notifier) == notifier_begun(
                opt_text(old(self).current_notifier),
                id@,
            ),
            final(out)@ == old(out)@ + progress_begun(opt_text(old(self).current_notifier), id@)
                + (match *resolved {
                Some(path) => seq![EffectView::EnqueueLint { path: path@, cfg }],
                None => Seq::empty(),
            }),
    {
        let ghost before = out@;
        self.maybe_start_progress(id, out);
        match resolved {
            Some(path) => {
                out.push(Effect::EnqueueLint { path: path.duplicate(), cfg });
            },
            None => {},
        }
        assert(out@ =~= before + progress_begun(opt_text(old(self).current_notifier), id@) + (
        match *resolved {
            Some(path) => seq![EffectView::EnqueueLint { path: path@, cfg }],
            None => Seq::empty(),
        }));
    }
}

} // verus!
