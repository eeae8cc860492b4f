//! Sets and maps over values that are told apart by a key.
use vstd::prelude::*;

verus! {

/// A value that can stand in a [`VecSet`] or be the key of a [`VecMap`]: it
/// has a mathematical key, and two values with the same key count as one. What
/// a value says besides its key is in its view.
pub trait Keyed: Sized + View {
    /// What tells two values apart.
    type Key;

    /// The key of this value.
    spec fn key(&self) -> Self::Key;

    /// Whether the two values have the same key.
    fn same_key(&self, other: &Self) -> (same: bool)
        ensures
            same == (self.key() == other.key()),
    ;

    /// A value of its own that says the same and has the same key.
    fn duplicate(&self) -> (copy: Self)
        ensures
            copy.key() == self.key(),
            copy@ == self@,
    ;
}

impl Keyed for u32 {
    type Key = u32;

    open spec fn key(&self) -> u32 {
        *self
    }

    fn same_key(&self, other: &Self) -> (same: bool) {
        *self == *other
    }

    fn duplicate(&self) -> (copy: Self) {
        *self
    }
}

impl Keyed for u64 {
    type Key = u64;

    open spec fn key(&self) -> u64 {
        *self
    }

    fn same_key(&self, other: &Self) -> (same: bool) {
        *self == *other
    }

    fn duplicate(&self) -> (copy: Self) {
        *self
    }
}

impl Keyed for String {
    type Key = Seq<char>;

    open spec fn key(&self) -> Seq<char> {
        self@
    }

    fn same_key(&self, other: &Self) -> (same: bool) {
        *self == *other
    }

    fn duplicate(&self) -> (copy: Self) {
        self.clone()
    }
}

/// A set of values, kept in the order in which they came in.
pub struct VecSet<T: Keyed> {
    items: Vec<T>,
}

/// The keys of a sequence of values.
pub open spec fn keys_of<T: Keyed>(items: Seq<T>) -> Seq<T::Key> {
    items.map_values(|t: T| t.key())
}

/// A key together with what the value says that has it.
pub open spec fn marks_of<T: Keyed>(items: Seq<T>) -> Seq<(T::Key, T::V)> {
    items.map_values(|t: T| (t.key(), t@))
}

/// Whether the key is among the marks.
pub open spec fn has_mark<K, W>(marks: Seq<(K, W)>, k: K) -> bool {
    exists|i: int| 0 <= i < marks.len() && (#[trigger] marks[i]).0 == k
}

/// One more mark, unless its key is there already.
pub open spec fn add_mark<K, W>(marks: Seq<(K, W)>, mark: (K, W)) -> Seq<(K, W)> {
    if has_mark(marks, mark.0) {
        marks
    } else {
        marks.push(mark)
    }
}

/// One more value behind those that have these keys, unless its key is there
/// already.
pub open spec fn push_new<K, W>(keys: Set<K>, values: Seq<W>, k: K, value: W) -> Seq<W> {
    if keys.contains(k) {
        values
    } else {
        values.push(value)
    }
}

/// More marks, one after the other; of those with one key the first stays.
pub open spec fn add_marks<K, W>(marks: Seq<(K, W)>, more: Seq<(K, W)>) -> Seq<(K, W)>
    decreases more.len(),
{
    if more.len() == 0 {
        marks
    } else {
        add_mark(add_marks(marks, more.drop_last()), more.last())
    }
}

impl<T: Keyed> View for VecSet<T> {
    type V = Set<T::Key>;

    open spec fn view(&self) -> Set<T::Key> {
        self.keys().to_set()
    }
}

/// The members without the one that has the key, in their order.
pub open spec fn without<T: Keyed>(set: VecSet<T>, k: T::Key) -> Seq<T> {
    if set.keys().contains(k) {
        set.members().remove(set.keys().index_of(k))
    } else {
        set.members()
    }
}

impl<T: Keyed> VecSet<T> {
    /// The members, oldest first.
    pub closed spec fn members(&self) -> Seq<T> {
        self.items@
    }

    /// The keys of the members, oldest first.
    pub open spec fn keys(&self) -> Seq<T::Key> {
        keys_of(self.members())
    }

    /// The keys of the members with what the members say, oldest first.
    pub open spec fn marks(&self) -> Seq<(T::Key, T::V)> {
        marks_of(self.members())
    }

    /// What the members say, oldest first.
    pub open spec fn views(&self) -> Seq<T::V> {
        self.members().map_values(|t: T| t@)
    }

    /// No two members have the same key.
    #[verifier::type_invariant]
    spec fn unique(&self) -> bool {
        keys_of(self.items@).no_duplicates()
    }

    /// The empty set.
    pub fn new() -> (set: Self)
        ensures
            set.members() == Seq::<T>::empty(),
            set.keys() == Seq::<T::Key>::empty(),
            set.marks() == Seq::<(T::Key, T::V)>::empty(),
            set.views() == Seq::<T::V>::empty(),
            set@ == Set::<T::Key>::empty(),
    {
        let set = VecSet { items: Vec::new() };
        assert(set.members() =~= Seq::<T>::empty());
        assert(set.marks() =~= Seq::<(T::Key, T::V)>::empty());
        assert(set.views() =~= Seq::<T::V>::empty());
        assert(set.keys() =~= Seq::<T::Key>::empty());
        assert(set@ =~= Set::<T::Key>::empty());
        set
    }

    /// The number of members.
    pub fn len(&self) -> (n: usize)
        ensures
            n == self.keys().len(),
            n == self.members().len(),
    {
        self.items.len()
    }

    /// Whether there is no member.
    pub fn is_empty(&self) -> (b: bool)
        ensures
            b == (self@ == Set::<T::Key>::empty()),
            b == (self.keys().len() == 0),
    {
        let b = self.items.len() == 0;
        proof {
            if b {
                assert(self@ =~= Set::<T::Key>::empty());
            } else {
                assert(self.keys()[0] == self.items@[0].key());
                assert(self@.contains(self.items@[0].key()));
            }
        }
        b
    }

    /// The members, oldest first. No two of them have the same key.
    pub fn as_vec(&self) -> (items: &Vec<T>)
        ensures
            items@ == self.members(),
            self.keys().no_duplicates(),
    {
        proof {
            use_type_invariant(self);
        }
        &self.items
    }

    /// Whether some member has the key of `item`.
    pub fn contains(&self, item: &T) -> (b: bool)
        ensures
            b == self@.contains(item.key()),
            b == self.keys().contains(item.key()),
    {
        let mut i: usize = 0;
        while i < self.items.len()
            invariant
                i <= self.items@.len(),
                forall|j: int| 0 <= j < i ==> (#[trigger] self.items@[j]).key() != item.key(),
            decreases self.items@.len() - i,
        {
            if self.items[i].same_key(item) {
                assert(self.keys()[i as int] == item.key());
                return true;
            }
            i += 1;
        }
        assert forall|j: int| 0 <= j < self.keys().len() implies self.keys()[j] != item.key() by {
            assert(self.keys()[j] == self.items@[j].key());
        }
        false
    }

    /// Adds `item` unless a member with its key is there already; says
    /// whether it was added.
    pub fn insert(&mut self, item: T) -> (added: bool)
        ensures
            added == !old(self)@.contains(item.key()),
            final(self)@ == old(self)@.insert(item.key()),
            final(self).members() == (if added {
                old(self).members().push(item)
            } else {
                old(self).members()
            }),
            final(self).keys() == (if added {
                old(self).keys().push(item.key())
            } else {
                old(self).keys()
            }),
            final(self).views() == (if added {
                old(self).views().push(item@)
            } else {
                old(self).views()
            }),
            final(self).marks() == add_mark(old(self).marks(), (item.key(), item@)),
    {
        proof {
            use_type_invariant(&*self);
        }
        let ghost before = *self;
        proof {
            lemma_has_mark(self.members(), item.key());
        }
        if self.contains(&item) {
            assert(self@ =~= self@.insert(item.key()));
            false
        } else {
            let mut items: Vec<T> = Vec::new();
            std::mem::swap(&mut items, &mut self.items);
            items.push(item);
            proof {
                lemma_keys_push(before.items@, item);
            }
            self.items = items;
            proof {
                lemma_to_set_push(before.keys(), item.key());
                assert(self.views() =~= before.views().push(item@));
                assert(self.marks() =~= before.marks().push((item.key(), item@)));
            }
            true
        }
    }

    /// Takes out the member with the key of `item`, if there is one; says
    /// whether there was.
    pub fn remove(&mut self, item: &T) -> (removed: bool)
        ensures
            removed == old(self)@.contains(item.key()),
            final(self)@ == old(self)@.remove(item.key()),
            final(self).members() == without(*old(self), item.key()),
    {
        proof {
            use_type_invariant(&*self);
        }
        let ghost before = *self;
        let mut items: Vec<T> = Vec::new();
        std::mem::swap(&mut items, &mut self.items);
        let mut i: usize = 0;
        while i < items.len()
            invariant
                i <= items@.len(),
                items@ == before.items@,
                keys_of(before.items@).no_duplicates(),
                before == *old(self),
                before.keys() == keys_of(before.items@),
                forall|j: int| 0 <= j < i ==> (#[trigger] items@[j]).key() != item.key(),
            decreases items@.len() - i,
        {
            if items[i].same_key(item) {
                let _ = items.remove(i);
                proof {
                    lemma_keys_remove(before.items@, i as int);
                    assert(before.keys()[i as int] == item.key());
                    lemma_index_of(before.keys(), i as int);
                }
                self.items = items;
                proof {
                    lemma_to_set_remove(before.keys(), i as int);
                }
                return true;
            }
            i += 1;
        }
        assert forall|j: int| 0 <= j < before.keys().len() implies before.keys()[j] != item.key() by {
            assert(before.keys()[j] == items@[j].key());
        }
        self.items = items;
        assert(self@ =~= before@.remove(item.key()));
        false
    }

    /// The set of the values in `items`; of values with one key the first
    /// counts.
    pub fn of(items: &Vec<T>) -> (set: Self)
        ensures
            set@ == keys_of(items@).to_set(),
            set.marks() == add_marks(Seq::empty(), marks_of(items@)),
    {
        let mut set = VecSet::new();
        set.add_all(items);
        assert(set@ =~= keys_of(items@).to_set());
        set
    }

    /// Adds values that say the same as those in `items`, unless their keys are
    /// there already.
    pub fn add_all(&mut self, items: &Vec<T>)
        ensures
            final(self)@ == old(self)@.union(keys_of(items@).to_set()),
            final(self).marks() == add_marks(old(self).marks(), marks_of(items@)),
    {
        let ghost before = self@;
        let ghost start = self.marks();
        let ghost keys = keys_of(items@);
        let ghost marks = marks_of(items@);
        let mut i: usize = 0;
        assert(keys.take(0).to_set() =~= Set::<T::Key>::empty());
        assert(self@ =~= before.union(keys.take(0).to_set()));
        while i < items.len()
            invariant
                i <= items@.len(),
                keys == keys_of(items@),
                marks == marks_of(items@),
                self@ == before.union(keys.take(i as int).to_set()),
                self.marks() == add_marks(start, marks.take(i as int)),
            decreases items@.len() - i,
        {
            let _ = self.insert(items[i].duplicate());
            proof {
                assert(keys.take(i + 1) =~= keys.take(i as int).push(keys[i as int]));
                lemma_to_set_push(keys.take(i as int), keys[i as int]);
                assert(self@ =~= before.union(keys.take(i + 1).to_set()));
                assert(marks.take(i + 1).drop_last() =~= marks.take(i as int));
                assert(marks.take(i + 1).last() == marks[i as int]);
            }
            i += 1;
        }
        assert(keys.take(i as int) =~= keys);
        assert(marks.take(i as int) =~= marks);
    }

    /// A set of its own whose members say the same, in the same order.
    pub fn copy(&self) -> (copy: Self)
        ensures
            copy@ == self@,
            copy.keys() == self.keys(),
            copy.marks() == self.marks(),
            copy.views() == self.views(),
    {
        proof {
            use_type_invariant(self);
        }
        let mut items: Vec<T> = Vec::new();
        let mut i: usize = 0;
        while i < self.items.len()
            invariant
                i <= self.items@.len(),
                items@.len() == i,
                forall|j: int|
                    0 <= j < i ==> (#[trigger] items@[j]).key() == self.items@[j].key()
                        && items@[j]@ == self.items@[j]@,
            decreases self.items@.len() - i,
        {
            items.push(self.items[i].duplicate());
            i += 1;
        }
        assert(keys_of(items@) =~= keys_of(self.items@));
        let copy = VecSet { items };
        assert(copy.marks() =~= self.marks());
        assert(copy.views() =~= self.views());
        copy
    }

    /// Whether the two sets have a key in common.
    pub fn meets(&self, other: &VecSet<T>) -> (b: bool)
        ensures
            b == !self@.disjoint(other@),
    {
        let mut i: usize = 0;
        while i < self.items.len()
            invariant
                i <= self.items@.len(),
                forall|j: int| 0 <= j < i ==> !other@.contains((#[trigger] self.items@[j]).key()),
            decreases self.items@.len() - i,
        {
            if other.contains(&self.items[i]) {
                assert(self.keys()[i as int] == self.items@[i as int].key());
                assert(self@.contains(self.items@[i as int].key()));
                return true;
            }
            i += 1;
        }
        assert forall|k: T::Key| self@.contains(k) implies !other@.contains(k) by {
            let j = choose|j: int| 0 <= j < self.keys().len() && self.keys()[j] == k;
            assert(self.keys()[j] == self.items@[j].key());
        }
        false
    }

    /// Whether every key of this set is one of the other.
    pub fn is_subset(&self, other: &VecSet<T>) -> (b: bool)
        ensures
            b == self@.subset_of(other@),
    {
        let mut i: usize = 0;
        while i < self.items.len()
            invariant
                i <= self.items@.len(),
                forall|j: int| 0 <= j < i ==> other@.contains((#[trigger] self.items@[j]).key()),
            decreases self.items@.len() - i,
        {
            if !other.contains(&self.items[i]) {
                assert(self.keys()[i as int] == self.items@[i as int].key());
                assert(self@.contains(self.items@[i as int].key()));
                return false;
            }
            i += 1;
        }
        assert forall|k: T::Key| self@.contains(k) implies other@.contains(k) by {
            let j = choose|j: int| 0 <= j < self.keys().len() && self.keys()[j] == k;
            assert(self.keys()[j] == self.items@[j].key());
        }
        true
    }

    /// The set of the values in `items`; of values with one key the first
    /// stays.
    pub fn from_vec(items: Vec<T>) -> (set: Self)
        ensures
            set@ == keys_of(items@).to_set(),
            set.marks() == add_marks(Seq::empty(), marks_of(items@)),
    {
        VecSet::of(&items)
    }
}

/// Adding a value to a sequence adds its key to the keys.
pub proof fn lemma_keys_push<T: Keyed>(items: Seq<T>, item: T)
    ensures
        keys_of(items.push(item)) == keys_of(items).push(item.key()),
        keys_of(items).no_duplicates() && !keys_of(items).contains(item.key())
            ==> keys_of(items.push(item)).no_duplicates(),
{
    assert(keys_of(items.push(item)) =~= keys_of(items).push(item.key()));
}

/// The first of a key is the only one where keys are distinct.
proof fn lemma_index_of<A>(s: Seq<A>, i: int)
    requires
        0 <= i < s.len(),
        s.no_duplicates(),
    ensures
        s.index_of(s[i]) == i,
{
    assert(s.contains(s[i]));
    let j = s.index_of(s[i]);
    assert(s[j] == s[i]);
}

/// A key is among the marks of values if and only if it is among their keys.
pub proof fn lemma_has_mark<T: Keyed>(items: Seq<T>, k: T::Key)
    ensures
        has_mark(marks_of(items), k) <==> keys_of(items).contains(k),
        has_mark(marks_of(items), k) <==> keys_of(items).to_set().contains(k),
{
    let marks = marks_of(items);
    let keys = keys_of(items);
    if has_mark(marks, k) {
        let i = choose|i: int| 0 <= i < marks.len() && (#[trigger] marks[i]).0 == k;
        assert(keys[i] == k);
    }
    if keys.contains(k) {
        let i = choose|i: int| 0 <= i < keys.len() && keys[i] == k;
        assert(marks[i].0 == k);
    }
}

/// Taking a value out of a sequence takes its key out of the keys.
pub proof fn lemma_keys_remove<T: Keyed>(items: Seq<T>, i: int)
    requires
        0 <= i < items.len(),
    ensures
        keys_of(items.remove(i)) == keys_of(items).remove(i),
        keys_of(items).no_duplicates() ==> keys_of(items.remove(i)).no_duplicates(),
{
    assert(keys_of(items.remove(i)) =~= keys_of(items).remove(i));
}

/// The set of a sequence grows by what is pushed.
pub proof fn lemma_to_set_push<A>(s: Seq<A>, a: A)
    ensures
        s.push(a).to_set() == s.to_set().insert(a),
{
    assert forall|x: A| s.push(a).to_set().contains(x) <==> s.to_set().insert(a).contains(x) by {
        if s.contains(x) {
            let i = choose|i: int| 0 <= i < s.len() && s[i] == x;
            assert(s.push(a)[i] == x);
        }
        if x == a {
            assert(s.push(a)[s.len() as int] == x);
        }
    }
    assert(s.push(a).to_set() =~= s.to_set().insert(a));
}

/// Without duplicates, the set of a sequence loses exactly what is removed.
pub proof fn lemma_to_set_remove<A>(s: Seq<A>, i: int)
    requires
        0 <= i < s.len(),
        s.no_duplicates(),
    ensures
        s.remove(i).to_set() == s.to_set().remove(s[i]),
{
    let a = s[i];
    assert forall|x: A| s.remove(i).to_set().contains(x) <==> s.to_set().remove(a).contains(x) by {
        if s.contains(x) && x != a {
            let j = choose|j: int| 0 <= j < s.len() && s[j] == x;
            if j < i {
                assert(s.remove(i)[j] == x);
            } else {
                assert(s.remove(i)[j - 1] == x);
            }
        }
        if s.remove(i).contains(x) {
            let j = choose|j: int| 0 <= j < s.remove(i).len() && s.remove(i)[j] == x;
            if j < i {
                assert(s[j] == x);
            } else {
                assert(s[j + 1] == x);
            }
        }
    }
    assert(s.remove(i).to_set() =~= s.to_set().remove(a));
}

/// A map from keyed values, kept in the order in which the entries came in.
pub struct VecMap<K: Keyed, V> {
    entries: Vec<(K, V)>,
}

/// The keys of a sequence of entries.
pub open spec fn entry_keys<K: Keyed, V>(entries: Seq<(K, V)>) -> Seq<K::Key> {
    entries.map_values(|e: (K, V)| e.0.key())
}

/// The map that a sequence of entries with distinct keys stands for.
pub open spec fn entry_map<K: Keyed, V>(entries: Seq<(K, V)>) -> Map<K::Key, V> {
    Map::new(
        |k: K::Key| entry_keys(entries).contains(k),
        |k: K::Key| entries[entry_keys(entries).index_of(k)].1,
    )
}

impl<K: Keyed, V> View for VecMap<K, V> {
    type V = Map<K::Key, V>;

    open spec fn view(&self) -> Map<K::Key, V> {
        entry_map(self.entries())
    }
}

impl<K: Keyed, V> VecMap<K, V> {
    /// The entries, oldest first.
    pub closed spec fn entries(&self) -> Seq<(K, V)> {
        self.entries@
    }

    /// The keys of the entries, oldest first.
    pub open spec fn keys(&self) -> Seq<K::Key> {
        entry_keys(self.entries())
    }

    /// No two entries have the same key.
    #[verifier::type_invariant]
    spec fn unique(&self) -> bool {
        entry_keys(self.entries@).no_duplicates()
    }

    /// The empty map.
    pub fn new() -> (map: Self)
        ensures
            map@ == Map::<K::Key, V>::empty(),
            map.entries() == Seq::<(K, V)>::empty(),
    {
        let map = VecMap { entries: Vec::new() };
        assert(map@ =~= Map::<K::Key, V>::empty());
        map
    }

    /// The number of entries.
    pub fn len(&self) -> (n: usize)
        ensures
            n == self.entries().len(),
    {
        self.entries.len()
    }

    /// Whether there is no entry.
    pub fn is_empty(&self) -> (b: bool)
        ensures
            b == (self@ == Map::<K::Key, V>::empty()),
    {
        let b = self.entries.len() == 0;
        proof {
            if b {
                assert(self@ =~= Map::<K::Key, V>::empty());
            } else {
                assert(self.keys()[0] == self.entries@[0].0.key());
                assert(self@.contains_key(self.entries@[0].0.key()));
            }
        }
        b
    }

    /// The entries, oldest first. No two of them have the same key, and each
    /// one is in the map.
    pub fn as_vec(&self) -> (entries: &Vec<(K, V)>)
        ensures
            entries@ == self.entries(),
            self.keys().no_duplicates(),
            forall|i: int|
                0 <= i < entries@.len() ==> self@.contains_key((#[trigger] entries@[i]).0.key())
                    && self@[entries@[i].0.key()] == entries@[i].1,
    {
        proof {
            use_type_invariant(self);
            assert forall|i: int| 0 <= i < self.entries@.len() implies self@.contains_key(
                (#[trigger] self.entries@[i]).0.key(),
            ) && self@[self.entries@[i].0.key()] == self.entries@[i].1 by {
                lemma_entry_at(self.entries@, i);
            }
        }
        &self.entries
    }

    /// The position of the entry with the key of `k`.
    fn find(&self, k: &K) -> (found: Option<usize>)
        ensures
            found is Some == self@.contains_key(k.key()),
            found matches Some(i) ==> i < self.entries@.len() && self.entries@[i as int].0.key()
                == k.key() && self@[k.key()] == self.entries@[i as int].1,
    {
        proof {
            use_type_invariant(self);
        }
        let mut i: usize = 0;
        while i < self.entries.len()
            invariant
                i <= self.entries@.len(),
                entry_keys(self.entries@).no_duplicates(),
                forall|j: int| 0 <= j < i ==> (#[trigger] self.entries@[j]).0.key() != k.key(),
            decreases self.entries@.len() - i,
        {
            if self.entries[i].0.same_key(k) {
                proof {
                    lemma_entry_at(self.entries@, i as int);
                }
                return Some(i);
            }
            i += 1;
        }
        assert forall|j: int| 0 <= j < self.keys().len() implies self.keys()[j] != k.key() by {
            assert(self.keys()[j] == self.entries@[j].0.key());
        }
        None
    }

    /// Whether there is an entry with the key of `k`.
    pub fn contains_key(&self, k: &K) -> (b: bool)
        ensures
            b == self@.contains_key(k.key()),
    {
        match self.find(k) {
            Some(_) => true,
            None => false,
        }
    }

    /// The value under the key of `k`.
    pub fn get(&self, k: &K) -> (value: Option<&V>)
        ensures
            value is Some == self@.contains_key(k.key()),
            value matches Some(v) ==> *v == self@[k.key()],
    {
        match self.find(k) {
            Some(i) => Some(&self.entries[i].1),
            None => None,
        }
    }

    /// Takes out the entry with the key of `k` and hands its value back.
    pub fn remove(&mut self, k: &K) -> (value: Option<V>)
        ensures
            value is Some == old(self)@.contains_key(k.key()),
            value matches Some(v) ==> v == old(self)@[k.key()],
            final(self)@ == old(self)@.remove(k.key()),
            value is None ==> *final(self) == *old(self),
            value is Some ==> final(self).entries() == old(self).entries().remove(
                old(self).keys().index_of(k.key()),
            ),
    {
        proof {
            use_type_invariant(&*self);
        }
        let ghost before = *self;
        match self.find(k) {
            Some(i) => {
                let mut entries: Vec<(K, V)> = Vec::new();
                std::mem::swap(&mut entries, &mut self.entries);
                let (_, v) = entries.remove(i);
                proof {
                    lemma_entry_at(before.entries@, i as int);
                    lemma_entries_remove(before.entries@, i as int);
                }
                self.entries = entries;
                Some(v)
            },
            None => {
                assert(self@ =~= self@.remove(k.key()));
                None
            },
        }
    }

    /// Puts `v` under the key of `k` and hands back what was there. Where there
    /// was something, the key that it was under stays.
    pub fn insert(&mut self, k: K, v: V) -> (previous: Option<V>)
        ensures
            previous is Some == old(self)@.contains_key(k.key()),
            previous matches Some(p) ==> p == old(self)@[k.key()],
            final(self)@ == old(self)@.insert(k.key(), v),
            final(self).entries() == (if previous is None {
                old(self).entries().push((k, v))
            } else {
                let i = old(self).keys().index_of(k.key());
                old(self).entries().update(i, (old(self).entries()[i].0, v))
            }),
    {
        proof {
            use_type_invariant(&*self);
        }
        let ghost before = *self;
        match self.find(&k) {
            Some(i) => {
                let mut entries: Vec<(K, V)> = Vec::new();
                std::mem::swap(&mut entries, &mut self.entries);
                let (old_key, old_value) = entries.remove(i);
                entries.insert(i, (old_key, v));
                proof {
                    lemma_entry_at(before.entries@, i as int);
                    let after = before.entries@.update(i as int, (before.entries@[i as int].0, v));
                    assert(entries@ =~= after);
                    lemma_entries_update(before.entries@, i as int, v);
                }
                self.entries = entries;
                assert(self@ =~= before@.insert(k.key(), v));
                Some(old_value)
            },
            None => {
                let mut entries: Vec<(K, V)> = Vec::new();
                std::mem::swap(&mut entries, &mut self.entries);
                entries.push((k, v));
                proof {
                    lemma_entries_push(before.entries@, (k, v));
                }
                self.entries = entries;
                assert(self@ =~= before@.insert(k.key(), v));
                None
            },
        }
    }
}

/// Changing the value of an entry changes what the map holds under its key.
proof fn lemma_entries_update<K: Keyed, V>(entries: Seq<(K, V)>, i: int, v: V)
    requires
        0 <= i < entries.len(),
        entry_keys(entries).no_duplicates(),
    ensures
        entry_keys(entries.update(i, (entries[i].0, v))) == entry_keys(entries),
        entry_map(entries.update(i, (entries[i].0, v))) == entry_map(entries).insert(
            entries[i].0.key(),
            v,
        ),
{
    let after = entries.update(i, (entries[i].0, v));
    let k = entries[i].0.key();
    assert(entry_keys(after) =~= entry_keys(entries));
    lemma_entry_at(after, i);
    assert forall|j: K::Key| entry_map(after).contains_key(j) <==> entry_map(entries).insert(
        k,
        v,
    ).contains_key(j) by {
        assert(entry_keys(entries)[i] == k);
        assert(entry_keys(entries).contains(k));
    }
    assert forall|j: K::Key| #[trigger] entry_map(after).contains_key(j) implies entry_map(after)[j]
        == entry_map(entries).insert(k, v)[j] by {
        if j != k {
            let n = entry_keys(entries).index_of(j);
            assert(entry_keys(entries)[n] == j);
            assert(n != i);
        }
    }
    assert(entry_map(after) =~= entry_map(entries).insert(k, v));
}

/// An entry of a sequence with distinct keys is what the map holds under its
/// key.
pub proof fn lemma_entry_at<K: Keyed, V>(entries: Seq<(K, V)>, i: int)
    requires
        0 <= i < entries.len(),
        entry_keys(entries).no_duplicates(),
    ensures
        entry_map(entries).contains_key(entries[i].0.key()),
        entry_map(entries)[entries[i].0.key()] == entries[i].1,
        entry_keys(entries).index_of(entries[i].0.key()) == i,
{
    let keys = entry_keys(entries);
    assert(keys[i] == entries[i].0.key());
    assert(keys.contains(keys[i]));
    let j = keys.index_of(keys[i]);
    assert(keys[j] == keys[i]);
}

/// Taking an entry out of a sequence with distinct keys takes its key out of
/// the map.
pub proof fn lemma_entries_remove<K: Keyed, V>(entries: Seq<(K, V)>, i: int)
    requires
        0 <= i < entries.len(),
        entry_keys(entries).no_duplicates(),
    ensures
        entry_keys(entries.remove(i)).no_duplicates(),
        entry_map(entries.remove(i)) == entry_map(entries).remove(entries[i].0.key()),
{
    let rest = entries.remove(i);
    let k0 = entries[i].0.key();
    assert(entry_keys(rest) =~= entry_keys(entries).remove(i));
    lemma_to_set_remove(entry_keys(entries), i);
    assert forall|k: K::Key| entry_keys(rest).contains(k) <==> (entry_keys(entries).contains(k) && k
        != k0) by {
        assert(entry_keys(rest).to_set().contains(k) <==> entry_keys(entries).to_set().remove(
            k0,
        ).contains(k));
    }
    assert forall|k: K::Key| entry_keys(rest).contains(k) implies entry_map(rest)[k] == entry_map(
        entries,
    )[k] by {
        let j = entry_keys(rest).index_of(k);
        assert(entry_keys(rest)[j] == k);
        let at: int = if j < i {
            j
        } else {
            j + 1
        };
        assert(rest[j] == entries[at]);
        assert(entries[at].0.key() == k);
        lemma_entry_at(entries, at);
        lemma_entry_at(rest, j);
    }
    assert(entry_map(rest) =~= entry_map(entries).remove(k0));
}

/// Adding an entry with a fresh key adds it to the map.
pub proof fn lemma_entries_push<K: Keyed, V>(entries: Seq<(K, V)>, entry: (K, V))
    requires
        entry_keys(entries).no_duplicates(),
        !entry_map(entries).contains_key(entry.0.key()),
    ensures
        entry_keys(entries.push(entry)).no_duplicates(),
        entry_map(entries.push(entry)) == entry_map(entries).insert(entry.0.key(), entry.1),
{
    let more = entries.push(entry);
    let k0 = entry.0.key();
    assert(entry_keys(more) =~= entry_keys(entries).push(k0));
    lemma_to_set_push(entry_keys(entries), k0);
    assert(entry_keys(more).no_duplicates());
    assert forall|k: K::Key| entry_keys(more).contains(k) <==> (entry_keys(entries).contains(k) || k
        == k0) by {
        assert(entry_keys(more).to_set().contains(k) <==> entry_keys(entries).to_set().insert(
            k0,
        ).contains(k));
    }
    assert(more[entries.len() as int] == entry);
    lemma_entry_at(more, entries.len() as int);
    assert forall|k: K::Key| entry_keys(entries).contains(k) implies entry_map(more)[k]
        == entry_map(entries)[k] by {
        let j = entry_keys(entries).index_of(k);
        assert(entry_keys(entries)[j] == k);
        assert(more[j] == entries[j]);
        lemma_entry_at(entries, j);
        lemma_entry_at(more, j);
    }
    assert(entry_map(more) =~= entry_map(entries).insert(k0, entry.1));
}

/// A set holds the keys of its members and no others; what it says stands in the
/// order of the members.
pub proof fn sets_hold_their_members<T: Keyed>(set: VecSet<T>, k: T::Key)
    ensures
        set@.contains(k) <==> exists|i: int|
            0 <= i < set.members().len() && (#[trigger] set.members()[i]).key() == k,
        set.views().len() == set.members().len(),
        set.keys().len() == set.members().len(),
        set.marks().len() == set.members().len(),
        forall|i: int|
            0 <= i < set.members().len() ==> set.views()[i] == (#[trigger] set.members()[i])@
                && set.keys()[i] == set.members()[i].key() && set.marks()[i] == (
                set.members()[i].key(),
                set.members()[i]@,
            ),
{
    if set@.contains(k) {
        let i = choose|i: int| 0 <= i < set.keys().len() && set.keys()[i] == k;
        assert(set.members()[i].key() == k);
    }
    if exists|i: int| 0 <= i < set.members().len() && (#[trigger] set.members()[i]).key() == k {
        let i = choose|i: int|
            0 <= i < set.members().len() && (#[trigger] set.members()[i]).key() == k;
        assert(set.keys()[i] == k);
    }
}

/// A value joins others if its key is new, as the last; if not, nothing changes.
pub proof fn new_keys_come_last<K, W>(
    keys: Set<K>,
    values: Seq<W>,
    marks: Seq<(K, W)>,
    more: Seq<(K, W)>,
    k: K,
    value: W,
)
    ensures
        keys.contains(k) ==> push_new(keys, values, k, value) == values,
        !keys.contains(k) ==> push_new(keys, values, k, value) == values.push(value),
        (exists|i: int| 0 <= i < marks.len() && (#[trigger] marks[i]).0 == k) ==> add_mark(
            marks,
            (k, value),
        ) == marks,
        (forall|i: int| 0 <= i < marks.len() ==> (#[trigger] marks[i]).0 != k) ==> add_mark(
            marks,
            (k, value),
        ) == marks.push((k, value)),
        add_marks(marks, Seq::empty()) == marks,
        add_marks(marks, more.push((k, value))) == add_mark(add_marks(marks, more), (k, value)),
{
    assert(more.push((k, value)).drop_last() =~= more);
}

/// Where keys are distinct, taking one out leaves the others in their order, and it is
/// gone.
pub proof fn the_others_stay<T: Keyed>(set: VecSet<T>, i: int)
    requires
        0 <= i < set.members().len(),
        set.keys().no_duplicates(),
    ensures
        without(set, set.members()[i].key()) == set.members().take(i) + set.members().skip(i + 1),
        forall|j: int|
            0 <= j < without(set, set.members()[i].key()).len() ==> (#[trigger] without(
                set,
                set.members()[i].key(),
            )[j]).key() != set.members()[i].key(),
{
    let k = set.members()[i].key();
    assert(set.keys()[i] == k);
    lemma_index_of(set.keys(), i);
    assert(set.keys().contains(k));
    let left = without(set, k);
    assert(left =~= set.members().take(i) + set.members().skip(i + 1));
    assert forall|j: int| 0 <= j < left.len() implies (#[trigger] left[j]).key() != k by {
        if j < i {
            assert(set.keys()[j] == left[j].key());
        } else {
            assert(set.keys()[j + 1] == left[j].key());
        }
    }
}

} // verus!
