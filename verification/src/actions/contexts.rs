//! Device contexts: which are active, and when one becomes active by itself.
use crate::actions::analysis::{views_under, AnalysisStorage, PathKey};
use crate::actions::compile_info::{resolver_of, roots_are_paths};
use crate::actions::context::{
    ActiveDeviceContexts, ContextDefinition, ContextKey, ContextView, InitActionContext,
};
use crate::collections::{
    add_marks, lemma_has_mark, push_new, Keyed, VecSet,
};
use crate::config::DeviceContextMode;
use crate::effects::{EffectView, Outbox};
use crate::path::{file_name_of, lies_beside, parent_of, CanonPath, PathView};
use crate::text::texts;
use vstd::prelude::*;

verus! {

/// Whether a device that an analysis of the file sets off is an active
/// context.
pub open spec fn in_active_context(
    analysis: AnalysisStorage,
    active: Set<ContextKey>,
    file: PathKey,
) -> bool {
    exists|device: PathKey| #[trigger]
        analysis.triggers_of(file).contains(device) && active.contains(ContextKey::Device(device))
}

/// Whether the file goes by the name of one that every file imports.
pub open spec fn is_core_file(implicit_imports: Seq<Seq<char>>, file: PathKey) -> bool {
    exists|i: int|
        0 <= i < implicit_imports.len() && file_name_of(file) == Some(
            #[trigger] implicit_imports[i],
        )
}

/// Whether a device that has just become known is to become an active context.
pub open spec fn wants_context(
    mode: DeviceContextMode,
    analysis: AnalysisStorage,
    active: Set<ContextKey>,
    implicit_imports: Seq<Seq<char>>,
    path: PathKey,
) -> bool {
    match mode {
        DeviceContextMode::Always => true,
        DeviceContextMode::AnyNew => exists|file: PathKey| #[trigger]
            analysis.dependencies_of(path).contains(file) && !in_active_context(
                analysis,
                active,
                file,
            ),
        DeviceContextMode::First => forall|file: PathKey| #[trigger]
            analysis.dependencies_of(path).contains(file) && !is_core_file(implicit_imports, file)
                ==> !in_active_context(analysis, active, file),
        DeviceContextMode::SameModule => exists|device: PathKey| #[trigger]
            analysis.device_dependencies@.contains_key(device) && (lies_beside(path, device)
                || lies_beside(device, path)),
        DeviceContextMode::Never => false,
    }
}

/// Whether the paths have the names and parents that the mode goes by.
pub open spec fn context_decidable(
    mode: DeviceContextMode,
    analysis: AnalysisStorage,
    path: PathKey,
) -> bool {
    match mode {
        DeviceContextMode::First => forall|file: PathKey| #[trigger]
            analysis.dependencies_of(path).contains(file) ==> file_name_of(file) is Some,
        DeviceContextMode::SameModule => forall|device: PathKey| #[trigger]
            analysis.device_dependencies@.contains_key(device) ==> parent_of(device) is Some && (
            lies_beside(path, device) || parent_of(path) is Some),
        _ => true,
    }
}

/// What is known of a context.
pub struct ContextInfo {
    pub context: ContextDefinition,
    pub active: bool,
    /// Whether an analysis of it exists.
    pub ready: bool,
}

impl View for ContextInfo {
    type V = (ContextView, bool, bool);

    open spec fn view(&self) -> (ContextView, bool, bool) {
        (self.context@, self.active, self.ready)
    }
}

impl Keyed for ContextInfo {
    type Key = (ContextKey, bool, bool);

    open spec fn key(&self) -> (ContextKey, bool, bool) {
        (self.context.key(), self.active, self.ready)
    }

    fn same_key(&self, other: &Self) -> (same: bool) {
        self.active == other.active && self.ready == other.ready && self.context.same_key(
            &other.context,
        )
    }

    fn duplicate(&self) -> (copy: Self) {
        ContextInfo {
            context: self.context.duplicate(),
            active: self.active,
            ready: self.ready,
        }
    }
}

/// What is known of the device.
pub open spec fn device_info(
    analysis: AnalysisStorage,
    active: Set<ContextKey>,
    device: PathKey,
) -> (ContextKey, bool, bool) {
    (
        ContextKey::Device(device),
        active.contains(ContextKey::Device(device)),
        analysis.device_analysis@.contains(device),
    )
}

/// What is known of the devices, in order, with what tells it apart.
pub open spec fn info_marks(
    analysis: AnalysisStorage,
    active: Set<ContextKey>,
    devices: Seq<PathView>,
) -> Seq<((ContextKey, bool, bool), (ContextView, bool, bool))> {
    devices.map_values(
        |d: PathView|
            {
                let info = device_info(analysis, active, d.components);
                (info, (ContextView::Device(d), info.1, info.2))
            },
    )
}

/// What is known of the devices that an analysis of one of the first `n` files
/// sets off, in order, with what tells it apart.
pub open spec fn all_info_marks(
    analysis: AnalysisStorage,
    active: Set<ContextKey>,
    n: int,
) -> Seq<((ContextKey, bool, bool), (ContextView, bool, bool))>
    decreases n,
{
    if n <= 0 {
        Seq::empty()
    } else {
        add_marks(
            all_info_marks(analysis, active, n - 1),
            info_marks(
                analysis,
                active,
                analysis.device_triggers.entries()[n - 1].1.views(),
            ),
        )
    }
}

/// What is known of the devices that an analysis of the file sets off.
pub open spec fn infos_for(
    analysis: AnalysisStorage,
    active: Set<ContextKey>,
    file: PathKey,
) -> Set<(ContextKey, bool, bool)> {
    Set::new(
        |info: (ContextKey, bool, bool)|
            exists|device: PathKey| #[trigger]
                analysis.triggers_of(file).contains(device) && info == device_info(
                    analysis,
                    active,
                    device,
                ),
    )
}

/// What is known of the devices that an analysis of any file sets off.
pub open spec fn all_infos(
    analysis: AnalysisStorage,
    active: Set<ContextKey>,
) -> Set<(ContextKey, bool, bool)> {
    Set::new(
        |info: (ContextKey, bool, bool)|
            exists|file: PathKey| #[trigger] infos_for(analysis, active, file).contains(info),
    )
}

/// The active contexts after those for a file have been chosen: of the devices
/// that an analysis of the file sets off exactly the chosen ones; all other
/// contexts stay as they were.
pub open spec fn contexts_chosen(
    analysis: AnalysisStorage,
    active: Set<ContextKey>,
    file: PathKey,
    chosen: Set<ContextKey>,
) -> Set<ContextKey> {
    Set::new(
        |c: ContextKey|
            match c {
                ContextKey::Device(device) => if analysis.triggers_of(file).contains(device) {
                    chosen.contains(c)
                } else {
                    active.contains(c)
                },
                ContextKey::Simulated(_) => active.contains(c),
            },
    )
}

/// The same with what the contexts say: those that stay keep their order, and
/// the chosen ones that become active and are not there yet follow in theirs.
pub open spec fn contexts_chosen_marks(
    analysis: AnalysisStorage,
    active: Seq<(ContextKey, ContextView)>,
    file: PathKey,
    chosen_keys: Set<ContextKey>,
    chosen: Seq<(ContextKey, ContextView)>,
) -> Seq<(ContextKey, ContextView)> {
    let known = analysis.triggers_of(file);
    add_marks(
        active.filter(|m: (ContextKey, ContextView)| stays(known, chosen_keys, m.0)),
        chosen.filter(|m: (ContextKey, ContextView)| activates(known, m.0)),
    )
}

/// One more value, one more step of the filter.
proof fn lemma_filter_step<A>(s: Seq<A>, p: spec_fn(A) -> bool, i: int)
    requires
        0 <= i < s.len(),
    ensures
        s.take(i + 1).filter(p) == (if p(s[i]) {
            s.take(i).filter(p).push(s[i])
        } else {
            s.take(i).filter(p)
        }),
{
    reveal(Seq::filter);
    assert(s.take(i + 1).drop_last() =~= s.take(i));
    assert(s.take(i + 1).last() == s[i]);
}

/// Filtering nothing gives nothing.
proof fn lemma_filter_nothing<A>(s: Seq<A>, p: spec_fn(A) -> bool)
    ensures
        s.take(0).filter(p) == Seq::<A>::empty(),
{
    reveal(Seq::filter);
    assert(s.take(0).filter(p) =~= Seq::<A>::empty());
}

/// A member of a set has its key in the set.
proof fn lemma_member<T: Keyed>(set: VecSet<T>, i: int)
    requires
        0 <= i < set.members().len(),
    ensures
        set@.contains(set.members()[i].key()),
{
    assert(set.keys()[i] == set.members()[i].key());
}

/// A key in a set belongs to some member.
proof fn lemma_member_of_key<T: Keyed>(set: VecSet<T>, k: T::Key) -> (i: int)
    requires
        set@.contains(k),
    ensures
        0 <= i < set.members().len(),
        set.members()[i].key() == k,
{
    let i = choose|i: int| 0 <= i < set.keys().len() && set.keys()[i] == k;
    assert(set.members()[i].key() == k);
    i
}

/// Whether some device of the set is an active context.
fn any_active(devices: &VecSet<CanonPath>, active: &ActiveDeviceContexts) -> (b: bool)
    ensures
        b == exists|device: PathKey| #[trigger]
            devices@.contains(device) && active@.contains(ContextKey::Device(device)),
{
    let items = devices.as_vec();
    let mut i: usize = 0;
    while i < items.len()
        invariant
            i <= items@.len(),
            items@ == devices.members(),
            forall|j: int|
                0 <= j < i ==> !active@.contains(ContextKey::Device((#[trigger] items@[j]).key())),
        decreases items@.len() - i,
    {
        if active.contains(&ContextDefinition::Device(items[i].duplicate())) {
            proof {
                lemma_member(*devices, i as int);
            }
            return true;
        }
        i += 1;
    }
    assert forall|device: PathKey| #[trigger] devices@.contains(device) implies !active@.contains(
        ContextKey::Device(device),
    ) by {
        let j = lemma_member_of_key(*devices, device);
        assert(items@[j].key() == device);
    }
    false
}

impl InitActionContext {
    /// Whether a device that an analysis of the file sets off is an active
    /// context.
    fn has_context(&self, file: &CanonPath) -> (b: bool)
        ensures
            b == in_active_context(self.analysis, self.device_active_contexts@, file.key()),
    {
        match self.analysis.device_triggers.get(file) {
            Some(devices) => {
                assert(self.analysis.triggers_of(file.key()) == devices@);
                any_active(devices, &self.device_active_contexts)
            },
            None => false,
        }
    }

    /// Whether some file that the device depends on is in no active context.
    fn any_uncontexted(&self, path: &CanonPath) -> (b: bool)
        ensures
            b == wants_context(
                DeviceContextMode::AnyNew,
                self.analysis,
                self.device_active_contexts@,
                texts(self.implicit_imports@),
                path.key(),
            ),
    {
        let files = match self.analysis.device_dependencies.get(path) {
            Some(files) => files,
            None => {
                return false;
            },
        };
        assert(self.analysis.dependencies_of(path.key()) == files@);
        let items = files.as_vec();
        let mut i: usize = 0;
        while i < items.len()
            invariant
                i <= items@.len(),
                items@ == files.members(),
                self.analysis.dependencies_of(path.key()) == files@,
                forall|j: int|
                    0 <= j < i ==> in_active_context(
                        self.analysis,
                        self.device_active_contexts@,
                        (#[trigger] items@[j]).key(),
                    ),
            decreases items@.len() - i,
        {
            if !self.has_context(&items[i]) {
                proof {
                    lemma_member(*files, i as int);
                }
                return true;
            }
            i += 1;
        }
        assert forall|file: PathKey| #[trigger]
            self.analysis.dependencies_of(path.key()).contains(file) implies in_active_context(
            self.analysis,
            self.device_active_contexts@,
            file,
        ) by {
            let j = lemma_member_of_key(*files, file);
            assert(items@[j].key() == file);
        }
        false
    }

    /// Whether the file goes by the name of one that every file imports.
    fn goes_by_core_name(&self, file: &CanonPath) -> (b: bool)
        ensures
            b == is_core_file(texts(self.implicit_imports@), file.key()),
    {
        let ghost names = texts(self.implicit_imports@);
        let mut i: usize = 0;
        while i < self.implicit_imports.len()
            invariant
                i <= self.implicit_imports@.len(),
                names == texts(self.implicit_imports@),
                forall|j: int|
                    0 <= j < i ==> file_name_of(file.key()) != Some(#[trigger] names[j]),
            decreases self.implicit_imports@.len() - i,
        {
            assert(names[i as int] == self.implicit_imports@[i as int]@);
            if file.file_name_is(self.implicit_imports[i].as_str()) {
                return true;
            }
            i += 1;
        }
        false
    }

    /// Whether no file that the device depends on, core files aside, is in an
    /// active context.
    fn all_uncontexted(&self, path: &CanonPath) -> (b: bool)
        ensures
            b == wants_context(
                DeviceContextMode::First,
                self.analysis,
                self.device_active_contexts@,
                texts(self.implicit_imports@),
                path.key(),
            ),
    {
        let files = match self.analysis.device_dependencies.get(path) {
            Some(files) => files,
            None => {
                return true;
            },
        };
        assert(self.analysis.dependencies_of(path.key()) == files@);
        let ghost names = texts(self.implicit_imports@);
        let items = files.as_vec();
        let mut i: usize = 0;
        while i < items.len()
            invariant
                i <= items@.len(),
                items@ == files.members(),
                names == texts(self.implicit_imports@),
                self.analysis.dependencies_of(path.key()) == files@,
                forall|j: int|
                    0 <= j < i ==> is_core_file(names, (#[trigger] items@[j]).key())
                        || !in_active_context(
                        self.analysis,
                        self.device_active_contexts@,
                        items@[j].key(),
                    ),
            decreases items@.len() - i,
        {
            if !self.goes_by_core_name(&items[i]) && self.has_context(&items[i]) {
                proof {
                    lemma_member(*files, i as int);
                }
                return false;
            }
            i += 1;
        }
        assert forall|file: PathKey| #[trigger]
            self.analysis.dependencies_of(path.key()).contains(file) && !is_core_file(
                names,
                file,
            ) implies !in_active_context(self.analysis, self.device_active_contexts@, file) by {
            let j = lemma_member_of_key(*files, file);
            assert(items@[j].key() == file);
        }
        true
    }

    /// Whether a known device lies in the directory of this one or above or
    /// below.
    fn in_known_module(&self, path: &CanonPath) -> (b: bool)
        requires
            context_decidable(DeviceContextMode::SameModule, self.analysis, path.key()),
        ensures
            b == wants_context(
                DeviceContextMode::SameModule,
                self.analysis,
                self.device_active_contexts@,
                texts(self.implicit_imports@),
                path.key(),
            ),
    {
        let ghost known = self.analysis.device_dependencies@;
        let entries = self.analysis.device_dependencies.as_vec();
        let mut i: usize = 0;
        while i < entries.len()
            invariant
                i <= entries@.len(),
                known == self.analysis.device_dependencies@,
                entries@ == self.analysis.device_dependencies.entries(),
                context_decidable(DeviceContextMode::SameModule, self.analysis, path.key()),
                forall|j: int|
                    0 <= j < entries@.len() ==> known.contains_key(
                        (#[trigger] entries@[j]).0.key(),
                    ),
                forall|j: int|
                    0 <= j < i ==> !lies_beside(path.key(), (#[trigger] entries@[j]).0.key())
                        && !lies_beside(entries@[j].0.key(), path.key()),
            decreases entries@.len() - i,
        {
            let device = &entries[i].0;
            assert(known.contains_key(device.key()));
            if path.is_beside(device) || device.is_beside(path) {
                return true;
            }
            i += 1;
        }
        assert forall|device: PathKey| #[trigger] known.contains_key(device) implies !lies_beside(
            path.key(),
            device,
        ) && !lies_beside(device, path.key()) by {
            let keys = self.analysis.device_dependencies.keys();
            let j = choose|j: int| 0 <= j < keys.len() && keys[j] == device;
            assert(entries@[j].0.key() == device);
        }
        false
    }

    /// Decides, the first time a device becomes known, whether it becomes an
    /// active context.
    pub fn maybe_add_device_context(&mut self, path: &CanonPath)
        requires
            !old(self).previously_checked_contexts@.contains(ContextKey::Device(path.key()))
                ==> context_decidable(
                old(self).config.new_device_context_mode,
                old(self).analysis,
                path.key(),
            ),
        ensures
            *final(self) == (InitActionContext {
                previously_checked_contexts: final(self).previously_checked_contexts,
                device_active_contexts: final(self).device_active_contexts,
                ..*old(self)
            }),
            final(self).previously_checked_contexts@ == old(
                self,
            ).previously_checked_contexts@.insert(ContextKey::Device(path.key())),
            final(self).device_active_contexts@ == active_after_check(*old(self), path.key()),
            views_after_check(*old(self), *final(self), path@),
    {
        let context = ContextDefinition::Device(path.duplicate());
        if self.previously_checked_contexts.contains(&context) {
            assert(self.previously_checked_contexts@.insert(ContextKey::Device(path.key()))
                =~= self.previously_checked_contexts@);
            return;
        }
        let _ = self.previously_checked_contexts.insert(context);
        let wanted = match self.config.new_device_context_mode {
            DeviceContextMode::Always => true,
            DeviceContextMode::AnyNew => self.any_uncontexted(path),
            DeviceContextMode::First => self.all_uncontexted(path),
            DeviceContextMode::SameModule => self.in_known_module(path),
            DeviceContextMode::Never => false,
        };
        if wanted {
            let _ = self.device_active_contexts.insert(
                ContextDefinition::Device(path.duplicate()),
            );
        }
    }

    /// Has the stored analyses brought up to date. This comes before asking what
    /// is known of contexts.
    pub fn start_context_info(&self, out: &mut Outbox)
        requires
            roots_are_paths(self.workspace_roots@),
        ensures
            final(out)@ == old(out)@.push(
                EffectView::UpdateAnalysis {
                    resolver: resolver_of(
                        self.client_capabilities.root,
                        self.workspace_roots@,
                        self.compilation_info,
                    ),
                },
            ),
    {
        self.update_analysis(out);
    }

    /// What is known of the devices that an analysis of any file sets off. The
    /// stored analyses are to be brought up to date first, with
    /// [`Self::start_context_info`].
    pub fn get_all_context_info(&self) -> (infos: VecSet<ContextInfo>)
        ensures
            infos@ == all_infos(self.analysis, self.device_active_contexts@),
            infos.marks() == all_info_marks(
                self.analysis,
                self.device_active_contexts@,
                self.analysis.device_triggers.entries().len() as int,
            ),
    {
        let mut infos: VecSet<ContextInfo> = VecSet::new();
        let ghost active = self.device_active_contexts@;
        let ghost known = self.analysis.device_triggers@;
        let entries = self.analysis.device_triggers.as_vec();
        let mut i: usize = 0;
        while i < entries.len()
            invariant
                i <= entries@.len(),
                active == self.device_active_contexts@,
                known == self.analysis.device_triggers@,
                entries@ == self.analysis.device_triggers.entries(),
                forall|j: int|
                    0 <= j < entries@.len() ==> known.contains_key(
                        (#[trigger] entries@[j]).0.key(),
                    ) && known[entries@[j].0.key()] == entries@[j].1,
                infos.marks() == all_info_marks(self.analysis, active, i as int),
                forall|info: (ContextKey, bool, bool)|
                    #[trigger] infos@.contains(info) <==> exists|j: int|
                        0 <= j < i && infos_for(
                            self.analysis,
                            active,
                            (#[trigger] entries@[j]).0.key(),
                        ).contains(info),
            decreases entries@.len() - i,
        {
            let ghost before = infos@;
            let ghost file = entries@[i as int].0.key();
            assert(known.contains_key(file));
            self.add_infos(&entries[i].1, &mut infos);
            proof {
                let here = infos_for(self.analysis, active, file);
                assert(self.analysis.triggers_of(file) == entries@[i as int].1@);
                assert(infos@ =~= before.union(here));
                assert forall|info: (ContextKey, bool, bool)|
                    #[trigger] infos@.contains(info) <==> exists|j: int|
                        0 <= j < i + 1 && infos_for(
                            self.analysis,
                            active,
                            (#[trigger] entries@[j]).0.key(),
                        ).contains(info) by {
                    if before.contains(info) {
                        let j = choose|j: int|
                            0 <= j < i && infos_for(
                                self.analysis,
                                active,
                                (#[trigger] entries@[j]).0.key(),
                            ).contains(info);
                        assert(infos_for(self.analysis, active, entries@[j].0.key()).contains(info));
                    }
                    if here.contains(info) {
                        assert(entries@[i as int].0.key() == file);
                    }
                }
            }
            i += 1;
        }
        proof {
            assert forall|info: (ContextKey, bool, bool)|
                #[trigger] infos@.contains(info) <==> all_infos(self.analysis, active).contains(info) by {
                if all_infos(self.analysis, active).contains(info) {
                    let file = choose|file: PathKey| #[trigger]
                        infos_for(self.analysis, active, file).contains(info);
                    assert(known.contains_key(file));
                    let keys = self.analysis.device_triggers.keys();
                    let j = choose|j: int| 0 <= j < keys.len() && keys[j] == file;
                    assert(entries@[j].0.key() == file);
                }
            }
            assert(infos@ =~= all_infos(self.analysis, active));
        }
        infos
    }

    /// Adds what is known of the devices.
    fn add_infos(&self, devices: &VecSet<CanonPath>, infos: &mut VecSet<ContextInfo>)
        ensures
            final(infos).marks() == add_marks(
                old(infos).marks(),
                info_marks(self.analysis, self.device_active_contexts@, devices.views()),
            ),
            final(infos)@ == old(infos)@.union(
                Set::new(
                    |info: (ContextKey, bool, bool)|
                        exists|device: PathKey| #[trigger]
                            devices@.contains(device) && info == device_info(
                                self.analysis,
                                self.device_active_contexts@,
                                device,
                            ),
                ),
            ),
    {
        let ghost before = infos@;
        let ghost start = infos.marks();
        let ghost active = self.device_active_contexts@;
        let ghost marks = info_marks(self.analysis, active, devices.views());
        let items = devices.as_vec();
        let mut i: usize = 0;
        while i < items.len()
            invariant
                i <= items@.len(),
                items@ == devices.members(),
                active == self.device_active_contexts@,
                marks == info_marks(self.analysis, active, devices.views()),
                infos.marks() == add_marks(start, marks.take(i as int)),
                forall|info: (ContextKey, bool, bool)|
                    #[trigger] infos@.contains(info) <==> before.contains(info) || exists|j: int|
                        0 <= j < i && info == device_info(
                            self.analysis,
                            active,
                            (#[trigger] items@[j]).key(),
                        ),
            decreases items@.len() - i,
        {
            let ghost was = infos@;
            let context = ContextDefinition::from(items[i].duplicate());
            let active_here = self.device_active_contexts.contains(&context);
            let ready = self.analysis.device_analysis.contains(context.as_canon_path());
            let _ = infos.insert(ContextInfo { context, active: active_here, ready });
            proof {
                let new = device_info(self.analysis, active, items@[i as int].key());
                assert(infos@ == was.insert(new));
                assert(devices.views()[i as int] == items@[i as int]@);
                assert(marks.take(i + 1).drop_last() =~= marks.take(i as int));
                assert(marks.take(i + 1).last() == marks[i as int]);
                assert forall|info: (ContextKey, bool, bool)|
                    #[trigger] infos@.contains(info) <==> before.contains(info) || exists|j: int|
                        0 <= j < i + 1 && info == device_info(
                            self.analysis,
                            active,
                            (#[trigger] items@[j]).key(),
                        ) by {
                    if was.contains(info) && !before.contains(info) {
                        let j = choose|j: int|
                            0 <= j < i && info == device_info(
                                self.analysis,
                                active,
                                (#[trigger] items@[j]).key(),
                            );
                        assert(info == device_info(self.analysis, active, items@[j].key()));
                    }
                    if info == new {
                        assert(info == device_info(self.analysis, active, items@[i as int].key()));
                    }
                }
            }
            i += 1;
        }
        assert(marks.take(i as int) =~= marks);
        proof {
            let here = Set::new(
                |info: (ContextKey, bool, bool)|
                    exists|device: PathKey| #[trigger]
                        devices@.contains(device) && info == device_info(
                            self.analysis,
                            self.device_active_contexts@,
                            device,
                        ),
            );
            assert forall|info: (ContextKey, bool, bool)|
                #[trigger] infos@.contains(info) <==> before.union(here).contains(info) by {
                if here.contains(info) {
                    let device = choose|device: PathKey| #[trigger]
                        devices@.contains(device) && info == device_info(
                            self.analysis,
                            self.device_active_contexts@,
                            device,
                        );
                    let j = lemma_member_of_key(*devices, device);
                    assert(items@[j].key() == device);
                }
                if infos@.contains(info) && !before.contains(info) {
                    let j = choose|j: int|
                        0 <= j < items@.len() && info == device_info(
                            self.analysis,
                            active,
                            (#[trigger] items@[j]).key(),
                        );
                    lemma_member(*devices, j);
                    assert(devices@.contains(items@[j].key()));
                }
            }
            assert(infos@ =~= before.union(here));
        }
    }

    /// What is known of the devices that an analysis of the file sets off. The
    /// stored analyses are to be brought up to date first, with
    /// [`Self::start_context_info`].
    pub fn get_context_info(&self, path: &CanonPath) -> (infos: VecSet<ContextInfo>)
        ensures
            infos@ == infos_for(self.analysis, self.device_active_contexts@, path.key()),
            infos.marks() == add_marks(
                Seq::empty(),
                info_marks(
                    self.analysis,
                    self.device_active_contexts@,
                    views_under(self.analysis.device_triggers@, path.key()),
                ),
            ),
    {
        let mut infos: VecSet<ContextInfo> = VecSet::new();
        match self.analysis.device_triggers.get(path) {
            Some(devices) => {
                assert(self.analysis.triggers_of(path.key()) == devices@);
                self.add_infos(devices, &mut infos);
            },
            None => {
                assert(info_marks(
                    self.analysis,
                    self.device_active_contexts@,
                    Seq::empty(),
                ) =~= Seq::empty());
            },
        }
        assert(infos@ =~= infos_for(self.analysis, self.device_active_contexts@, path.key()));
        infos
    }

    /// Makes the chosen contexts the only active ones for a file. Chosen
    /// devices that an analysis of the file does not set off are passed over,
    /// and so are contexts that are not devices.
    pub fn update_contexts(
        &mut self,
        path: &CanonPath,
        new_active_contexts: &VecSet<ContextDefinition>,
    )
        ensures
            *final(self) == (InitActionContext {
                device_active_contexts: final(self).device_active_contexts,
                ..*old(self)
            }),
            final(self).device_active_contexts@ == contexts_chosen(
                old(self).analysis,
                old(self).device_active_contexts@,
                path.key(),
                new_active_contexts@,
            ),
            final(self).device_active_contexts.marks() == contexts_chosen_marks(
                old(self).analysis,
                old(self).device_active_contexts.marks(),
                path.key(),
                new_active_contexts@,
                new_active_contexts.marks(),
            ),
    {
        let known = match self.analysis.device_triggers.get(path) {
            Some(devices) => devices.copy(),
            None => VecSet::new(),
        };
        let ghost active = self.device_active_contexts@;
        let ghost chosen = new_active_contexts@;
        assert(known@ == self.analysis.triggers_of(path.key()));
        let ghost old_marks = self.device_active_contexts.marks();
        let ghost new_marks = new_active_contexts.marks();
        let ghost p = |m: (ContextKey, ContextView)| stays(known@, chosen, m.0);
        let ghost q = |m: (ContextKey, ContextView)| activates(known@, m.0);
        proof {
            lemma_filter_nothing(old_marks, p);
            lemma_filter_nothing(new_marks, q);
        }
        let mut kept: ActiveDeviceContexts = VecSet::new();
        let old_contexts = self.device_active_contexts.as_vec();
        let mut i: usize = 0;
        while i < old_contexts.len()
            invariant
                i <= old_contexts@.len(),
                chosen == new_active_contexts@,
                old_contexts@ == self.device_active_contexts.members(),
                self.device_active_contexts.keys().no_duplicates(),
                old_marks == self.device_active_contexts.marks(),
                p == (|m: (ContextKey, ContextView)| stays(known@, chosen, m.0)),
                kept.marks() == old_marks.take(i as int).filter(p),
                forall|c: ContextKey|
                    #[trigger] kept@.contains(c) <==> stays(known@, chosen, c) && exists|j: int|
                        0 <= j < i && (#[trigger] old_contexts@[j]).key() == c,
            decreases old_contexts@.len() - i,
        {
            let ghost was = kept@;
            proof {
                lemma_filter_step(old_marks, p, i as int);
                let k = old_contexts@[i as int].key();
                assert(old_marks[i as int] == (k, old_contexts@[i as int]@));
                lemma_has_mark(kept.members(), k);
                if kept@.contains(k) {
                    let j = choose|j: int|
                        0 <= j < i && (#[trigger] old_contexts@[j]).key() == k;
                    assert(self.device_active_contexts.keys()[j] == k);
                    assert(self.device_active_contexts.keys()[i as int] == k);
                }
            }
            let context = &old_contexts[i];
            let stay = match context {
                ContextDefinition::Device(p) => !known.contains(p) || new_active_contexts.contains(
                    context,
                ),
                ContextDefinition::Simulated(_) => true,
            };
            if stay {
                let _ = kept.insert(context.duplicate());
            }
            proof {
                let k = old_contexts@[i as int].key();
                assert(stay == stays(known@, chosen, k));
                assert forall|c: ContextKey|
                    #[trigger] kept@.contains(c) <==> stays(known@, chosen, c) && exists|j: int|
                        0 <= j < i + 1 && (#[trigger] old_contexts@[j]).key() == c by {
                    if was.contains(c) {
                        let j = choose|j: int|
                            0 <= j < i && (#[trigger] old_contexts@[j]).key() == c;
                        assert(old_contexts@[j].key() == c);
                    }
                    if c == k {
                        assert(old_contexts@[i as int].key() == c);
                    }
                }
            }
            i += 1;
        }
        proof {
            assert forall|c: ContextKey|
                #[trigger] kept@.contains(c) <==> stays(known@, chosen, c) && active.contains(c) by {
                if active.contains(c) {
                    let j = lemma_member_of_key(self.device_active_contexts, c);
                    assert(old_contexts@[j].key() == c);
                }
                if kept@.contains(c) {
                    let j = choose|j: int|
                        0 <= j < old_contexts@.len() && (#[trigger] old_contexts@[j]).key() == c;
                    lemma_member(self.device_active_contexts, j);
                }
            }
        }
        assert(old_marks.take(i as int) =~= old_marks);
        let ghost first = old_marks.filter(p);
        let new_contexts = new_active_contexts.as_vec();
        let mut i: usize = 0;
        while i < new_contexts.len()
            invariant
                i <= new_contexts@.len(),
                new_contexts@ == new_active_contexts.members(),
                new_marks == new_active_contexts.marks(),
                q == (|m: (ContextKey, ContextView)| activates(known@, m.0)),
                kept.marks() == add_marks(first, new_marks.take(i as int).filter(q)),
                forall|c: ContextKey|
                    #[trigger] kept@.contains(c) <==> (stays(known@, chosen, c) && active.contains(c)) || (
                    activates(known@, c) && exists|j: int|
                        0 <= j < i && (#[trigger] new_contexts@[j]).key() == c),
            decreases new_contexts@.len() - i,
        {
            let ghost was = kept@;
            proof {
                let so_far = new_marks.take(i as int).filter(q);
                lemma_filter_step(new_marks, q, i as int);
                assert(new_marks[i as int] == (
                    new_contexts@[i as int].key(),
                    new_contexts@[i as int]@,
                ));
                assert(so_far.push(new_marks[i as int]).drop_last() =~= so_far);
            }
            let context = &new_contexts[i];
            let add = match context {
                ContextDefinition::Device(p) => known.contains(p),
                ContextDefinition::Simulated(_) => false,
            };
            if add {
                let _ = kept.insert(context.duplicate());
            }
            proof {
                let k = new_contexts@[i as int].key();
                assert(add == activates(known@, k));
                assert forall|c: ContextKey|
                    #[trigger] kept@.contains(c) <==> (stays(known@, chosen, c) && active.contains(c)) || (
                    activates(known@, c) && exists|j: int|
                        0 <= j < i + 1 && (#[trigger] new_contexts@[j]).key() == c) by {
                    if was.contains(c) && !(stays(known@, chosen, c) && active.contains(c)) {
                        let j = choose|j: int|
                            0 <= j < i && (#[trigger] new_contexts@[j]).key() == c;
                        assert(new_contexts@[j].key() == c);
                    }
                    if c == k {
                        assert(new_contexts@[i as int].key() == c);
                    }
                }
            }
            i += 1;
        }
        assert(new_marks.take(i as int) =~= new_marks);
        proof {
            let goal = contexts_chosen(self.analysis, active, path.key(), chosen);
            assert forall|c: ContextKey| #[trigger] kept@.contains(c) <==> goal.contains(c) by {
                if chosen.contains(c) {
                    let j = lemma_member_of_key(*new_active_contexts, c);
                    assert(new_contexts@[j].key() == c);
                }
                if kept@.contains(c) && !(stays(known@, chosen, c) && active.contains(c)) {
                    let j = choose|j: int|
                        0 <= j < new_contexts@.len() && (#[trigger] new_contexts@[j]).key() == c;
                    lemma_member(*new_active_contexts, j);
                }
            }
            assert(kept@ =~= goal);
        }
        self.device_active_contexts = kept;
    }
}

/// Whether a device joins the active contexts when it is checked: it has not
/// been checked before, and is wanted.
pub open spec fn joins(
    ctx: InitActionContext,
    active: Set<ContextKey>,
    checked: Set<ContextKey>,
    path: PathKey,
) -> bool {
    !checked.contains(ContextKey::Device(path)) && wants_context(
        ctx.config.new_device_context_mode,
        ctx.analysis,
        active,
        texts(ctx.implicit_imports@),
        path,
    )
}

/// The active contexts after a device has been checked.
pub open spec fn checked_active(
    ctx: InitActionContext,
    active: Set<ContextKey>,
    checked: Set<ContextKey>,
    path: PathKey,
) -> Set<ContextKey> {
    if joins(ctx, active, checked, path) {
        active.insert(ContextKey::Device(path))
    } else {
        active
    }
}

/// What the active contexts say after a device has been checked.
pub open spec fn checked_views(
    ctx: InitActionContext,
    active: Set<ContextKey>,
    views: Seq<ContextView>,
    checked: Set<ContextKey>,
    path: PathView,
) -> Seq<ContextView> {
    if joins(ctx, active, checked, path.components) {
        push_new(
            active,
            views,
            ContextKey::Device(path.components),
            ContextView::Device(path),
        )
    } else {
        views
    }
}

/// The active contexts after a device has been checked.
pub open spec fn active_after_check(ctx: InitActionContext, path: PathKey) -> Set<ContextKey> {
    checked_active(
        ctx,
        ctx.device_active_contexts@,
        ctx.previously_checked_contexts@,
        path,
    )
}

/// What the contexts say, active ones and checked ones, after a device has been
/// checked.
pub open spec fn views_after_check(
    before: InitActionContext,
    after: InitActionContext,
    path: PathView,
) -> bool {
    &&& after.device_active_contexts.views() == checked_views(
        before,
        before.device_active_contexts@,
        before.device_active_contexts.views(),
        before.previously_checked_contexts@,
        path,
    )
    &&& after.previously_checked_contexts.views() == push_new(
        before.previously_checked_contexts@,
        before.previously_checked_contexts.views(),
        ContextKey::Device(path.components),
        ContextView::Device(path),
    )
}

/// Whether an active context stays when the contexts of a file are chosen.
pub open spec fn stays(known: Set<PathKey>, chosen: Set<ContextKey>, c: ContextKey) -> bool {
    match c {
        ContextKey::Device(device) => !known.contains(device) || chosen.contains(c),
        ContextKey::Simulated(_) => true,
    }
}

/// Whether a chosen context becomes active.
pub open spec fn activates(known: Set<PathKey>, c: ContextKey) -> bool {
    c matches ContextKey::Device(device) && known.contains(device)
}

/// What is known of a context is told apart by the context and both answers, and says
/// them.
pub proof fn infos_are_told_apart(info: ContextInfo)
    ensures
        info.key() == (info.context.key(), info.active, info.ready),
        info@ == (info.context@, info.active, info.ready),
{
}

} // verus!
