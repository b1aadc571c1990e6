//! Collections keyed by name (a file path, a column name).
//!
//! Both are hash tables whose members also have a position, so that they can be
//! walked one by one while something else happens in between.
use vstd::hash_map::StringHashMap;
use vstd::hash_set::StringHashSet;
use vstd::prelude::*;

verus! {

/// One entry of a [`NameMap`].
pub struct NamedSlot<V> {
    pub name: String,
    pub value: V,
}

/// A hash map from names to values whose entries are kept in an array.
pub struct NameMap<V> {
    slots: Vec<NamedSlot<V>>,
    index: StringHashMap<usize>,
}

impl<V> NameMap<V> {
    /// The entries in the order in which they are walked.
    pub closed spec fn slots(self) -> Seq<NamedSlot<V>> {
        self.slots@
    }

    /// The index finds every entry, and nothing else.
    pub closed spec fn wf(self) -> bool {
        &&& forall|i: int|
            #![trigger self.slots@[i]]
            0 <= i < self.slots@.len() ==> {
                &&& self.index@.contains_key(self.slots@[i].name@)
                &&& self.index@[self.slots@[i].name@] == i
            }
        &&& forall|k: Seq<char>| #[trigger]
            self.index@.contains_key(k) ==> {
                &&& self.index@[k] < self.slots@.len()
                &&& self.slots@[self.index@[k] as int].name@ == k
            }
    }

    /// What the map holds.
    pub closed spec fn view(self) -> Map<Seq<char>, V> {
        Map::new(
            |k: Seq<char>| self.index@.contains_key(k),
            |k: Seq<char>| self.slots@[self.index@[k] as int].value,
        )
    }

    /// Every entry holds the value that the map has under its name.
    pub proof fn lemma_slot(self, i: int)
        requires
            self.wf(),
            0 <= i < self.slots().len(),
        ensures
            self@.contains_key(self.slots()[i].name@),
            self@[self.slots()[i].name@] == self.slots()[i].value,
    {
        let slot = self.slots@[i];
        assert(self.index@.contains_key(slot.name@));
    }

    /// Every name that the map knows has an entry.
    pub proof fn lemma_position(self, k: Seq<char>) -> (i: int)
        requires
            self.wf(),
            self@.contains_key(k),
        ensures
            0 <= i < self.slots().len(),
            self.slots()[i].name@ == k,
    {
        self.index@[k] as int
    }

    /// No name has two entries.
    pub proof fn lemma_distinct(self, i: int, j: int)
        requires
            self.wf(),
            0 <= i < self.slots().len(),
            0 <= j < self.slots().len(),
            self.slots()[i].name@ == self.slots()[j].name@,
        ensures
            i == j,
    {
        assert(self.index@[self.slots@[i].name@] == i);
        assert(self.index@[self.slots@[j].name@] == j);
    }

    pub fn new() -> (map: Self)
        ensures
            map.wf(),
            map@ == Map::<Seq<char>, V>::empty(),
            map.slots() == Seq::<NamedSlot<V>>::empty(),
    {
        let map = NameMap { slots: Vec::new(), index: StringHashMap::new() };
        assert(map@ =~= Map::<Seq<char>, V>::empty());
        map
    }

    /// How many entries there are.
    pub fn len(&self) -> (n: usize)
        ensures
            n == self.slots().len(),
    {
        self.slots.len()
    }

    /// The position of the entry called `name`, if there is one.
    pub fn find(&self, name: &str) -> (found: Option<usize>)
        requires
            self.wf(),
        ensures
            match found {
                Some(i) => {
                    &&& self@.contains_key(name@)
                    &&& i < self.slots().len()
                    &&& self.slots()[i as int].name@ == name@
                },
                None => !self@.contains_key(name@),
            },
    {
        match self.index.get(name) {
            Some(i) => Some(*i),
            None => None,
        }
    }

    pub fn contains(&self, name: &str) -> (found: bool)
        ensures
            found == self@.contains_key(name@),
    {
        self.index.contains_key(name)
    }

    /// The value called `name`, if there is one.
    pub fn get(&self, name: &str) -> (value: Option<&V>)
        requires
            self.wf(),
        ensures
            match value {
                Some(v) => self@.contains_key(name@) && *v == self@[name@],
                None => !self@.contains_key(name@),
            },
    {
        match self.find(name) {
            Some(i) => {
                proof {
                    self.lemma_slot(i as int);
                }
                Some(&self.slots[i].value)
            },
            None => None,
        }
    }

    /// The value of the entry at position `i`.
    pub fn value(&self, i: usize) -> (value: &V)
        requires
            i < self.slots().len(),
        ensures
            *value == self.slots()[i as int].value,
    {
        &self.slots[i].value
    }

    /// The value of the entry at position `i`, to be changed in place.
    pub fn value_mut(&mut self, i: usize) -> (value: &mut V)
        requires
            old(self).wf(),
            i < old(self).slots().len(),
        ensures
            *value == old(self).slots()[i as int].value,
            final(self).wf(),
            final(self).slots() == old(self).slots().update(
                i as int,
                (NamedSlot { name: old(self).slots()[i as int].name, value: *final(value) }),
            ),
            final(self)@ == old(self)@.insert(old(self).slots()[i as int].name@, *final(value)),
    {
        let ghost before = *self;
        let value = &mut self.slots[i].value;
        proof {
            let name = before.slots@[i as int].name@;
            let after = NameMap {
                slots: after_borrow(self).slots,
                index: before.index,
            };
            assert forall|k: Seq<char>| before.index@.contains_key(k) && k != name implies
                before.index@[k] != i by {}
            assert(after@ =~= before@.insert(name, *final(value)));
        }
        value
    }

    /// Puts `value` under `name`, in place of what was there.
    pub fn insert(&mut self, name: String, value: V)
        requires
            old(self).wf(),
        ensures
            final(self).wf(),
            final(self)@ == old(self)@.insert(name@, value),
            !old(self)@.contains_key(name@) ==> final(self).slots() == old(self).slots().push(
                (NamedSlot { name, value }),
            ),
    {
        let ghost before = *self;
        match self.find(name.as_str()) {
            Some(i) => {
                let slot = self.value_mut(i);
                *slot = value;
            },
            None => {
                let at: usize = self.slots.len();
                self.index.insert(name.clone(), at);
                self.slots.push(NamedSlot { name, value });
                assert(self@ =~= before@.insert(name@, value));
            },
        }
    }

    /// Takes out the entry called `name`. The last entry moves into its place.
    pub fn remove(&mut self, name: &str) -> (removed: Option<V>)
        requires
            old(self).wf(),
        ensures
            final(self).wf(),
            final(self)@ == old(self)@.remove(name@),
            match removed {
                Some(v) => old(self)@.contains_key(name@) && v == old(self)@[name@],
                None => !old(self)@.contains_key(name@),
            },
    {
        let ghost before = *self;
        match self.find(name) {
            Some(i) => {
                let last: usize = self.slots.len() - 1;
                let moved: String = self.slots[last].name.clone();
                let slot = self.slots.swap_remove(i);
                self.index.insert(moved, i);
                self.index.remove(name);
                proof {
                    before.lemma_slot(i as int);
                    assert(before.slots@[last as int] == before.slots@.last());
                    assert forall|j: int|
                        #![trigger self.slots@[j]]
                        0 <= j < self.slots@.len() implies {
                        &&& self.index@.contains_key(self.slots@[j].name@)
                        &&& self.index@[self.slots@[j].name@] == j
                    } by {
                        if j == i {
                            assert(self.slots@[j] == before.slots@[last as int]);
                        } else {
                            assert(self.slots@[j] == before.slots@[j]);
                        }
                    }
                    assert forall|k: Seq<char>| #[trigger] self.index@.contains_key(k) implies {
                        &&& self.index@[k] < self.slots@.len()
                        &&& self.slots@[self.index@[k] as int].name@ == k
                    } by {
                        assert(before.index@.contains_key(k));
                        if k != moved@ {
                            assert(before.slots@[before.index@[k] as int].name@ == k);
                        }
                    }
                    assert(self@ =~= before@.remove(name@));
                }
                Some(slot.value)
            },
            None => {
                assert(self@ =~= before@.remove(name@));
                None
            },
        }
    }
}

/// `set` with `names` added one by one, those left out that are there already.
pub open spec fn joined(set: Seq<Seq<char>>, names: Seq<Seq<char>>) -> Seq<Seq<char>>
    decreases names.len(),
{
    if names.len() == 0 {
        set
    } else {
        let rest = joined(set, names.drop_last());
        if rest.contains(names.last()) {
            rest
        } else {
            rest.push(names.last())
        }
    }
}

/// Adding names makes no duplicates, loses none, and brings in nothing else.
pub proof fn law_joined(set: Seq<Seq<char>>, names: Seq<Seq<char>>)
    ensures
        set.no_duplicates() ==> joined(set, names).no_duplicates(),
        forall|k: Seq<char>| #[trigger]
            joined(set, names).contains(k) <==> set.contains(k) || names.contains(k),
        set.is_prefix_of(joined(set, names)),
        joined(set, names).len() <= set.len() + names.len(),
    decreases names.len(),
{
    if names.len() > 0 {
        let rest = joined(set, names.drop_last());
        let last = names.last();
        law_joined(set, names.drop_last());
        assert(names.drop_last().push(last) =~= names);
        assert forall|k: Seq<char>| #[trigger] joined(set, names).contains(k) <==> set.contains(k)
            || names.contains(k) by {
            broadcast use vstd::seq_lib::group_seq_properties;

            assert(names.contains(k) <==> names.drop_last().contains(k) || k == last) by {
                if names.contains(k) {
                    let i = names.index_of(k);
                    if i < names.len() - 1 {
                        assert(names.drop_last()[i] == k);
                    }
                }
                if names.drop_last().contains(k) {
                    let i = names.drop_last().index_of(k);
                    assert(names[i] == k);
                }
                assert(names[names.len() - 1] == last);
            }
            assert(rest.push(last).contains(k) <==> rest.contains(k) || k == last);
        }
        if !rest.contains(last) {
            assert forall|i: int, j: int|
                set.no_duplicates() && 0 <= i < j < rest.push(last).len() implies rest.push(
                last,
            )[i] != rest.push(last)[j] by {
                assert(rest.contains(rest[i]));
            }
        }
    }
}

/// A hash set of names that remembers the order in which they came.
pub struct NameSet {
    names: Vec<String>,
    index: StringHashSet,
}

impl NameSet {
    /// The names, each once, in the order in which they came.
    pub closed spec fn view(self) -> Seq<Seq<char>> {
        self.names@.map_values(|n: String| n@)
    }

    /// The index knows exactly the names, and none of them occurs twice.
    pub closed spec fn wf(self) -> bool {
        &&& self@.no_duplicates()
        &&& forall|k: Seq<char>| self.index@.contains(k) <==> #[trigger] self@.contains(k)
    }

    pub fn new() -> (set: Self)
        ensures
            set.wf(),
            set@ == Seq::<Seq<char>>::empty(),
    {
        let set = NameSet { names: Vec::new(), index: StringHashSet::new() };
        assert(set@ =~= Seq::<Seq<char>>::empty());
        set
    }

    pub fn len(&self) -> (n: usize)
        ensures
            n == self@.len(),
    {
        self.names.len()
    }

    /// The name that came at position `i`.
    pub fn name(&self, i: usize) -> (name: &String)
        requires
            i < self@.len(),
        ensures
            name@ == self@[i as int],
    {
        &self.names[i]
    }

    /// Adds `name`, unless it is there already.
    pub fn insert(&mut self, name: String)
        requires
            old(self).wf(),
        ensures
            final(self).wf(),
            final(self)@ == (if old(self)@.contains(name@) {
                old(self)@
            } else {
                old(self)@.push(name@)
            }),
    {
        if !self.index.contains(name.as_str()) {
            let ghost before = self@;
            self.index.insert(name.clone());
            self.names.push(name);
            proof {
                assert(!before.contains(name@));
                assert(self@ =~= before.push(name@));
                assert forall|i: int, j: int| 0 <= i < j < self@.len() implies self@[i] != self@[j] by {
                    assert(before.contains(before[i]));
                }
                assert forall|k: Seq<char>| self.index@.contains(k) <==> #[trigger] self@.contains(k) by {
                    if before.contains(k) {
                        let i = before.index_of(k);
                        assert(self@[i] == k);
                    }
                    if k == name@ {
                        assert(self@[before.len() as int] == k);
                    }
                    if self@.contains(k) && k != name@ {
                        let i = self@.index_of(k);
                        assert(before[i] == k);
                    }
                }
            }
        }
    }

    /// Adds all the names, each unless it is there already.
    pub fn insert_all(&mut self, names: Vec<String>)
        requires
            old(self).wf(),
        ensures
            final(self).wf(),
            final(self)@ == joined(old(self)@, names@.map_values(|n: String| n@)),
    {
        let ghost before = self@;
        let ghost all = names@;
        let ghost spelled = all.map_values(|n: String| n@);
        for name in it: names
            invariant
                self.wf(),
                it.seq() == all,
                spelled == all.map_values(|n: String| n@),
                self@ == joined(before, spelled.take(it.index() as int)),
        {
            proof {
                let more = spelled.take(it.index() + 1);
                assert(more.drop_last() =~= spelled.take(it.index() as int));
                assert(more.last() == name@);
            }
            self.insert(name);
        }
        assert(spelled.take(spelled.len() as int) =~= spelled);
    }
}

} // verus!
