//! What the server knows of the analyses that exist and that are under way.
use crate::collections::{Keyed, VecMap, VecSet};
use crate::path::{CanonPath, FilePath, PathView};
use vstd::prelude::*;

verus! {

/// What is known of the analysis of a file on its own.
#[derive(Clone, Copy, PartialEq, Eq, Structural, Debug)]
pub struct IsolatedInfo {
    /// Whether the file declares a device.
    pub is_device_file: bool,
}

/// The components of a path, which tell it apart from others.
pub type PathKey = Seq<Seq<char>>;

/// The analyses that exist.
pub struct AnalysisStorage {
    /// The files that have been analysed on their own.
    pub isolated_analysis: VecMap<CanonPath, IsolatedInfo>,
    /// The devices that have been analysed.
    pub device_analysis: VecSet<CanonPath>,
    /// The files that have been linted.
    pub lint_analysis: VecSet<CanonPath>,
    /// The devices that an analysis of a file sets off, by file.
    pub device_triggers: VecMap<CanonPath, VecSet<CanonPath>>,
    /// The files that a device depends on, by device.
    pub device_dependencies: VecMap<CanonPath, VecSet<CanonPath>>,
    /// The files that a file imports, its imports' imports and so on, looked
    /// for under the file itself as the context; by file.
    pub all_dependencies: VecMap<CanonPath, VecSet<CanonPath>>,
    /// The files all of whose imports have been analysed.
    pub with_dependencies: VecSet<CanonPath>,
    /// The devices whose analysis is newer than all that they depend on.
    pub newer_than_dependencies: VecSet<CanonPath>,
    /// The files, as the client names them, that have been analysed.
    pub client_files: VecSet<FilePath>,
}

/// The set under a key, or the empty set.
pub open spec fn set_under(map: Map<PathKey, VecSet<CanonPath>>, k: PathKey) -> Set<PathKey> {
    if map.contains_key(k) {
        map[k]@
    } else {
        Set::empty()
    }
}

/// What the set under a key says, in order; nothing where there is none.
pub open spec fn views_under(map: Map<PathKey, VecSet<CanonPath>>, k: PathKey) -> Seq<PathView> {
    if map.contains_key(k) {
        map[k].views()
    } else {
        Seq::empty()
    }
}

/// Everything that is under one of the keys.
pub open spec fn set_under_all(
    map: Map<PathKey, VecSet<CanonPath>>,
    keys: Set<PathKey>,
) -> Set<PathKey> {
    Set::new(
        |p: PathKey| exists|k: PathKey| #[trigger] keys.contains(k) && set_under(map, k).contains(p),
    )
}

/// Everything that is under a key of `keys`.
pub fn collect_under_all(
    map: &VecMap<CanonPath, VecSet<CanonPath>>,
    keys: &VecSet<CanonPath>,
) -> (all: VecSet<CanonPath>)
    ensures
        all@ == set_under_all(map@, keys@),
{
    let mut all: VecSet<CanonPath> = VecSet::new();
    let items = keys.as_vec();
    let mut i: usize = 0;
    while i < items.len()
        invariant
            i <= items@.len(),
            items@ == keys.members(),
            forall|p: PathKey|
                all@.contains(p) <==> exists|j: int|
                    0 <= j < i && set_under(map@, (#[trigger] items@[j]).key()).contains(p),
        decreases items@.len() - i,
    {
        let ghost before = all@;
        match map.get(&items[i]) {
            Some(found) => {
                all.add_all(found.as_vec());
            },
            None => {},
        }
        proof {
            let here = set_under(map@, items@[i as int].key());
            assert(all@ =~= before.union(here));
            assert forall|p: PathKey|
                all@.contains(p) <==> exists|j: int|
                    0 <= j < i + 1 && set_under(map@, (#[trigger] items@[j]).key()).contains(p) by {
                if before.contains(p) {
                    let j = choose|j: int|
                        0 <= j < i && set_under(map@, (#[trigger] items@[j]).key()).contains(p);
                    assert(set_under(map@, items@[j].key()).contains(p));
                }
                if here.contains(p) {
                    assert(set_under(map@, items@[i as int].key()).contains(p));
                }
            }
        }
        i += 1;
    }
    proof {
        assert forall|p: PathKey| all@.contains(p) <==> set_under_all(map@, keys@).contains(p) by {
            if all@.contains(p) {
                let j = choose|j: int|
                    0 <= j < items@.len() && set_under(
                        map@,
                        (#[trigger] items@[j]).key(),
                    ).contains(p);
                assert(keys.keys()[j] == items@[j].key());
                assert(keys@.contains(items@[j].key()));
            }
            if set_under_all(map@, keys@).contains(p) {
                let k = choose|k: PathKey|
                    #[trigger] keys@.contains(k) && set_under(map@, k).contains(p);
                let j = choose|j: int| 0 <= j < keys.keys().len() && keys.keys()[j] == k;
                assert(items@[j].key() == k);
            }
        }
        assert(all@ =~= set_under_all(map@, keys@));
    }
    all
}

impl AnalysisStorage {
    /// The devices that an analysis of the file sets off.
    pub open spec fn triggers_of(&self, file: PathKey) -> Set<PathKey> {
        set_under(self.device_triggers@, file)
    }

    /// The files that the device depends on.
    pub open spec fn dependencies_of(&self, device: PathKey) -> Set<PathKey> {
        set_under(self.device_dependencies@, device)
    }

    /// Whether nothing has been analysed.
    pub open spec fn is_empty(&self) -> bool {
        &&& self.isolated_analysis@ == Map::<PathKey, IsolatedInfo>::empty()
        &&& self.device_analysis@ == Set::<PathKey>::empty()
        &&& self.lint_analysis@ == Set::<PathKey>::empty()
        &&& self.device_triggers@ == Map::<PathKey, VecSet<CanonPath>>::empty()
        &&& self.device_dependencies@ == Map::<PathKey, VecSet<CanonPath>>::empty()
        &&& self.all_dependencies@ == Map::<PathKey, VecSet<CanonPath>>::empty()
        &&& self.with_dependencies@ == Set::<PathKey>::empty()
        &&& self.newer_than_dependencies@ == Set::<PathKey>::empty()
        &&& self.client_files@ == Set::<PathKey>::empty()
    }

    /// Nothing has been analysed.
    pub fn init() -> (storage: Self)
        ensures
            storage.is_empty(),
    {
        AnalysisStorage {
            isolated_analysis: VecMap::new(),
            device_analysis: VecSet::new(),
            lint_analysis: VecSet::new(),
            device_triggers: VecMap::new(),
            device_dependencies: VecMap::new(),
            all_dependencies: VecMap::new(),
            with_dependencies: VecSet::new(),
            newer_than_dependencies: VecSet::new(),
            client_files: VecSet::new(),
        }
    }
}

/// The analyses that wait for a worker or are being worked on.
pub struct AnalysisQueue {
    pub isolated_jobs: VecSet<CanonPath>,
    pub device_jobs: VecSet<CanonPath>,
    pub lint_jobs: VecSet<CanonPath>,
}

impl AnalysisQueue {
    /// Nothing is under way.
    pub open spec fn is_idle(&self) -> bool {
        &&& self.isolated_jobs@ == Set::<PathKey>::empty()
        &&& self.device_jobs@ == Set::<PathKey>::empty()
        &&& self.lint_jobs@ == Set::<PathKey>::empty()
    }

    /// An empty queue.
    pub fn init() -> (queue: Self)
        ensures
            queue.is_idle(),
    {
        AnalysisQueue {
            isolated_jobs: VecSet::new(),
            device_jobs: VecSet::new(),
            lint_jobs: VecSet::new(),
        }
    }

    /// Whether anything is under way.
    pub fn has_work(&self) -> (b: bool)
        ensures
            b == !self.is_idle(),
    {
        !self.isolated_jobs.is_empty() || !self.device_jobs.is_empty()
            || !self.lint_jobs.is_empty()
    }
}

} // verus!
