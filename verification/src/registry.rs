//! The process-wide list of readers.
//!
//! The list does not keep a reader alive: it holds numbers, and a number leads to
//! a reader as long as somebody holds that reader. Right before a segment file is
//! unlinked, every reader that the list leads to is asked to let go of it.
use crate::reader::{Reader, ReaderView};
use crate::sync::{Guarded, WriteOnce};
use vstd::prelude::*;

verus! {

/// A reader that somebody holds, and the number by which it is found.
pub struct LiveReader<T> {
    pub id: u64,
    pub reader: Reader<T>,
}

/// The mathematical content of a [`LiveReader`].
#[verifier::ext_equal]
pub struct LiveView<T> {
    pub id: u64,
    pub reader: ReaderView<T>,
}

impl<T> LiveReader<T> {
    pub open spec fn view(self) -> LiveView<T> {
        LiveView { id: self.id, reader: self.reader@ }
    }
}

/// The readers that somebody holds. Each has a number of its own, which is never
/// given to another reader.
pub struct LiveReaders<T> {
    pub readers: Vec<LiveReader<T>>,
    pub next_id: u64,
}

/// Whether `id` leads to one of the readers.
pub open spec fn is_live<T>(live: Seq<LiveView<T>>, id: u64) -> bool {
    exists|i: int| 0 <= i < live.len() && (#[trigger] live[i]).id == id
}

/// The list after the reader `id` was put on it: those that nobody holds any more
/// are gone, the others come first and keep their order.
pub open spec fn list_with<T>(list: Seq<u64>, live: Seq<LiveView<T>>, id: u64) -> Seq<u64> {
    list.filter(held_in(live)).push(id)
}

/// The test whether a number leads to one of the readers.
pub open spec fn held_in<T>(live: Seq<LiveView<T>>) -> spec_fn(u64) -> bool {
    |w: u64| is_live(live, w)
}

/// The readers after those in the list `registry` were purged of the file `path`;
/// a poisoned list leads nowhere.
pub open spec fn purge_registered<T>(
    live: Seq<LiveView<T>>,
    registry: Guarded<Vec<u64>>,
    path: Seq<char>,
) -> Seq<LiveView<T>> {
    if registry.poisoned {
        live
    } else {
        live.map_values(|r: LiveView<T>| purge_if_in(r, registry.value@, path))
    }
}

/// The reader `r` after the readers in `listed` were purged of the file `path`.
pub open spec fn purge_if_in<T>(r: LiveView<T>, listed: Seq<u64>, path: Seq<char>) -> LiveView<T> {
    if listed.contains(r.id) {
        LiveView { id: r.id, reader: r.reader.purge(path) }
    } else {
        r
    }
}

impl<T> LiveReaders<T> {
    /// In every reader of `before` each column is still at its place.
    pub open spec fn keeps_places_of(self, before: Self) -> bool {
        &&& self.readers@.len() == before.readers@.len()
        &&& forall|r: int, i: int, c: Seq<char>|
            #![trigger before.readers@[r].reader.column_at(i, c)]
            #![trigger self.readers@[r].reader.column_at(i, c)]
            0 <= r < before.readers@.len() ==> self.readers@[r].reader.column_at(i, c)
                == before.readers@[r].reader.column_at(i, c)
    }

    pub open spec fn view(self) -> Seq<LiveView<T>> {
        self.readers@.map_values(|r: LiveReader<T>| r@)
    }

    /// Every reader is in order, and no number was given twice.
    pub open spec fn wf(self) -> bool {
        &&& forall|i: int| 0 <= i < self.readers@.len() ==> (#[trigger] self.readers@[i]).reader.wf()
        &&& forall|i: int|
            0 <= i < self.readers@.len() ==> (#[trigger] self.readers@[i]).id < self.next_id
        &&& forall|i: int, j: int|
            0 <= i < j < self.readers@.len() ==> (#[trigger] self.readers@[i]).id != (
            #[trigger] self.readers@[j]).id
    }

    pub fn new() -> (live: Self)
        ensures
            live.wf(),
            live@ == Seq::<LiveView<T>>::empty(),
            live.next_id == 0,
    {
        let live = LiveReaders { readers: Vec::new(), next_id: 0 };
        assert(live@ =~= Seq::<LiveView<T>>::empty());
        live
    }

    /// Takes a reader in and gives it a number.
    pub fn add(&mut self, reader: Reader<T>) -> (id: u64)
        requires
            old(self).wf(),
            reader.wf(),
            old(self).next_id < u64::MAX,
        ensures
            final(self).wf(),
            !is_live(old(self)@, id),
            final(self)@ == old(self)@.push((LiveView { id, reader: reader@ })),
            id == old(self).next_id,
            final(self).next_id == id + 1,
    {
        let ghost before = self@;
        let id: u64 = self.next_id;
        proof {
            assert forall|i: int| 0 <= i < before.len() implies (#[trigger] before[i]).id != id by {
                assert(before[i].id == self.readers@[i].id);
            }
        }
        self.next_id = id + 1;
        self.readers.push(LiveReader { id, reader });
        assert(self@ =~= before.push(LiveView { id, reader: reader@ }));
        id
    }

    /// Finds the reader with the number `id`, if it is still held.
    pub fn find(&self, id: u64) -> (found: Option<usize>)
        ensures
            match found {
                Some(i) => i < self@.len() && self@[i as int].id == id,
                None => !is_live(self@, id),
            },
    {
        let n: usize = self.readers.len();
        let mut i: usize = 0;
        while i < n
            invariant
                i <= n,
                n == self.readers@.len(),
                forall|j: int| 0 <= j < i ==> (#[trigger] self@[j]).id != id,
            decreases n - i,
        {
            assert(self@[i as int].id == self.readers@[i as int].id);
            if self.readers[i].id == id {
                return Some(i);
            }
            i += 1;
        }
        None
    }

    /// Lets go of the reader with the number `id`: from now on the number leads
    /// nowhere.
    pub fn release(&mut self, id: u64) -> (released: Option<Reader<T>>)
        requires
            old(self).wf(),
        ensures
            final(self).wf(),
            final(self).next_id == old(self).next_id,
            !is_live(final(self)@, id),
            match released {
                Some(reader) => exists|i: int| #![trigger old(self)@[i]]
                    {
                        &&& 0 <= i < old(self)@.len()
                        &&& old(self)@[i] == (LiveView { id, reader: reader@ })
                        &&& final(self)@ == old(self)@.remove(i)
                    },
                None => !is_live(old(self)@, id) && final(self)@ == old(self)@,
            },
    {
        let ghost before = *self;
        match self.find(id) {
            Some(i) => {
                let gone = self.readers.remove(i);
                proof {
                    let at = i as int;
                    assert(before.readers@[at].id == before@[at].id);
                    assert(self@ =~= before@.remove(at));
                    assert forall|j: int| 0 <= j < self@.len() implies (#[trigger] self@[j]).id
                        != id by {
                        assert(self@[j].id == self.readers@[j].id);
                        if j < i {
                            assert(self.readers@[j] == before.readers@[j]);
                        } else {
                            assert(self.readers@[j] == before.readers@[j + 1]);
                        }
                    }
                    assert(before@[at] == LiveView { id, reader: gone.reader@ });
                }
                Some(gone.reader)
            },
            None => None,
        }
    }
}

/// The list, made empty when it is asked for the first time.
pub fn reader_registry(cell: &mut WriteOnce<Guarded<Vec<u64>>>) -> (registry: &mut Guarded<
    Vec<u64>,
>)
    ensures
        match old(cell)@ {
            Some(held) => *registry == held,
            None => !registry.poisoned && registry.value@ == Seq::<u64>::empty(),
        },
        final(cell)@ == Some(*final(registry)),
{
    cell.get_or_init(Guarded::new(Vec::new()))
}

/// Puts the reader `id` on the list and takes those off that nobody holds any
/// more. A poisoned list stays as it is.
pub fn register_reader<T>(registry: &mut Guarded<Vec<u64>>, live: &LiveReaders<T>, id: u64)
    ensures
        final(registry).poisoned == old(registry).poisoned,
        final(registry).value@ == (if old(registry).poisoned {
            old(registry).value@
        } else {
            list_with(old(registry).value@, live@, id)
        }),
{
    match registry.write() {
        Ok(list) => {
            let ghost all = list@;
            let ghost held = held_in(live@);
            let n: usize = list.len();
            let mut kept: Vec<u64> = Vec::new();
            let mut i: usize = 0;
            while i < n
                invariant
                    i <= n,
                    n == all.len(),
                    list@ == all,
                    held == held_in(live@),
                    kept@ == all.take(i as int).filter(held),
                decreases n - i,
            {
                proof {
                    reveal(Seq::filter);
                    assert(all.take(i + 1).drop_last() =~= all.take(i as int));
                }
                let w: u64 = list[i];
                if live.find(w).is_some() {
                    kept.push(w);
                }
                i += 1;
            }
            assert(all.take(all.len() as int) =~= all);
            kept.push(id);
            *list = kept;
        },
        Err(_) => {},
    }
}

/// Asks every reader on the list that somebody still holds to drop the blocks of
/// the file `path`.
pub fn purge_file_from_readers<T>(
    registry: &Guarded<Vec<u64>>,
    live: &mut LiveReaders<T>,
    path: &str,
)
    requires
        old(live).wf(),
    ensures
        final(live).wf(),
        final(live).next_id == old(live).next_id,
        final(live)@ == purge_registered(old(live)@, *registry, path@),
        final(live).keeps_places_of(*old(live)),
{
    let list = match registry.read() {
        Ok(list) => list,
        Err(_) => return,
    };
    let ghost before = *live;
    let n: usize = list.len();
    let mut k: usize = 0;
    while k < n
        invariant
            k <= n,
            n == list@.len(),
            live.wf(),
            live.next_id == before.next_id,
            live.keeps_places_of(before),
            live@ == before@.map_values(
                |r: LiveView<T>| purge_if_in(r, list@.take(k as int), path@),
            ),
        decreases n - k,
    {
        let id: u64 = list[k];
        let ghost prev = *live;
        let ghost done = list@.take(k as int);
        let ghost more = list@.take(k + 1);
        proof {
            assert(more =~= done.push(id));
            assert forall|x: u64| more.contains(x) <==> done.contains(x) || x == id by {
                if done.contains(x) {
                    let i = done.index_of(x);
                    assert(more[i] == x);
                }
                assert(more[k as int] == id);
            }
        }
        match live.find(id) {
            Some(i) => {
                let slot = &mut live.readers[i];
                slot.reader.purge_file(path);
                proof {
                    assert(prev.readers@[i as int].id == prev@[i as int].id);
                    assert forall|j: int| 0 <= j < before@.len() implies live@[j] == purge_if_in(
                        #[trigger] before@[j],
                        more,
                        path@,
                    ) by {
                        assert(prev@[j] == purge_if_in(before@[j], done, path@));
                        assert(prev@[j].id == prev.readers@[j].id);
                        if j == i {
                            crate::reader_laws::law_reader_purge_twice(before@[j].reader, path@);
                        }
                    }
                }
            },
            None => {
                proof {
                    assert forall|j: int| 0 <= j < before@.len() implies live@[j] == purge_if_in(
                        #[trigger] before@[j],
                        more,
                        path@,
                    ) by {
                        assert(prev@[j] == purge_if_in(before@[j], done, path@));
                        assert(prev@[j].id != id);
                    }
                }
            },
        }
        assert(live@ =~= before@.map_values(|r: LiveView<T>| purge_if_in(r, more, path@)));
        k += 1;
    }
    assert(list@.take(n as int) =~= list@);
    assert(live@ =~= purge_registered(before@, *registry, path@));
}

/// To put a reader on the list takes no reader off that somebody holds, and leaves
/// none on that nobody holds, but for the new one.
pub proof fn law_list_holds_the_live<T>(list: Seq<u64>, live: Seq<LiveView<T>>, id: u64, w: u64)
    ensures
        list_with(list, live, id).contains(w) <==> w == id || list.contains(w) && is_live(live, w),
{
    let kept = list.filter(held_in(live));
    let after = list_with(list, live, id);
    assert(after[kept.len() as int] == id);
    if kept.contains(w) {
        let i = kept.index_of(w);
        assert(after[i] == w);
        list.lemma_filter_pred(held_in(live), i);
        list.lemma_filter_contains_rev(held_in(live), w);
    }
    if after.contains(w) && w != id {
        let i = after.index_of(w);
        assert(kept[i] == w);
    }
    if list.contains(w) && is_live(live, w) {
        let i = list.index_of(w);
        assert(held_in(live)(list[i]));
        list.lemma_filter_contains(held_in(live), i);
    }
}

/// A purge goes to every listed reader and to no other one; no reader comes or goes.
pub proof fn law_purge_reaches_the_listed<T>(
    live: Seq<LiveView<T>>,
    registry: Guarded<Vec<u64>>,
    path: Seq<char>,
    i: int,
)
    requires
        0 <= i < live.len(),
    ensures
        purge_registered(live, registry, path).len() == live.len(),
        purge_registered(live, registry, path)[i].id == live[i].id,
        purge_registered(live, registry, path)[i].reader == (if !registry.poisoned
            && registry.value@.contains(live[i].id) {
            live[i].reader.purge(path)
        } else {
            live[i].reader
        }),
{
}

/// The readers that are held are shown one by one, in their order, with their numbers.
pub proof fn law_live_readers_are_shown<T>(live: LiveReaders<T>, i: int)
    ensures
        live@.len() == live.readers@.len(),
        0 <= i < live.readers@.len() ==> {
            &&& live@[i].id == live.readers@[i].id
            &&& live@[i].reader == live.readers@[i].reader@
        },
{
}

/// A number leads to a reader if and only if one of the readers bears it.
pub proof fn law_number_leads_to_its_reader<T>(live: Seq<LiveView<T>>, id: u64)
    ensures
        is_live(live, id) <==> exists|i: int| 0 <= i < live.len() && (#[trigger] live[i]).id == id,
{
}

/// A reader that is put on the list comes last, and those before it are the ones that
/// somebody holds, in their order.
pub proof fn law_new_reader_is_listed_last<T>(
    list: Seq<u64>,
    live: Seq<LiveView<T>>,
    id: u64,
    held: spec_fn(u64) -> bool,
)
    requires
        forall|w: u64| #[trigger]
            held(w) <==> exists|i: int| 0 <= i < live.len() && (#[trigger] live[i]).id == w,
    ensures
        list_with(list, live, id) == list.filter(held).push(id),
{
    assert forall|w: u64| #[trigger] held(w) == held_in(live)(w) by {}
    assert(held =~= held_in(live));
}

} // verus!
