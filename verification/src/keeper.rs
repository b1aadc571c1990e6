//! The process-wide keeper of shared segment files: one entry per path, so that
//! everybody who asks for a path gets the same file.
//!
//! `T` stands for a shared segment file. Opening one is left to the caller.
use crate::name_map::NameMap;
use crate::sync::{share, Guarded, LockError, WriteOnce};
use std::sync::Arc;
use vstd::prelude::*;

verus! {

pub struct SharedMmapKeeper<T> {
    pub data: NameMap<Arc<T>>,
}

/// How often the keeper was looked at for a path, and under which lock.
#[derive(Clone, Copy, Debug, PartialEq, Eq, Structural)]
pub enum Look {
    /// The fast way, with the lock held for reading.
    First,
    /// Once more with the lock held for reading.
    Again,
    /// With the lock held for writing.
    BeforeOpen,
}

/// What comes of looking for a path.
#[derive(Debug)]
pub enum MmapLookup<T> {
    /// The file is shared already.
    Found(Arc<T>),
    /// The lock is to be let go, and the keeper to be looked at anew.
    Next(Look),
    /// The file is to be opened, under the same hold of the lock, and handed to
    /// [`SharedMmapKeeper::opened`].
    Open,
    Failed(LockError),
}

/// What comes of looking for `path` in a keeper that holds `held`.
pub open spec fn lookup_of<T>(
    look: Look,
    poisoned: bool,
    held: Map<Seq<char>, Arc<T>>,
    path: Seq<char>,
) -> MmapLookup<T> {
    if !poisoned && held.contains_key(path) {
        MmapLookup::Found(held[path])
    } else {
        match look {
            Look::First => MmapLookup::Next(Look::Again),
            Look::Again => if poisoned {
                MmapLookup::Failed(LockError::MmapKeeperRead)
            } else {
                MmapLookup::Next(Look::BeforeOpen)
            },
            Look::BeforeOpen => if poisoned {
                MmapLookup::Failed(LockError::MmapKeeperWrite)
            } else {
                MmapLookup::Open
            },
        }
    }
}

/// What a keeper holds after `path` was opened, or was not.
pub open spec fn held_after_open<T, E>(
    held: Map<Seq<char>, Arc<T>>,
    path: Seq<char>,
    outcome: Result<Arc<T>, E>,
) -> Map<Seq<char>, Arc<T>> {
    match outcome {
        Ok(file) => held.insert(path, file),
        Err(_) => held,
    }
}

/// What a keeper holds after `path` was evicted.
pub open spec fn held_after_evict<T>(
    poisoned: bool,
    held: Map<Seq<char>, Arc<T>>,
    path: Seq<char>,
) -> Map<Seq<char>, Arc<T>> {
    if poisoned {
        held
    } else {
        held.remove(path)
    }
}

impl<T> SharedMmapKeeper<T> {
    pub open spec fn view(self) -> Map<Seq<char>, Arc<T>> {
        self.data@
    }

    pub open spec fn wf(self) -> bool {
        self.data.wf()
    }

    pub fn new() -> (keeper: Self)
        ensures
            keeper.wf(),
            keeper@ == Map::<Seq<char>, Arc<T>>::empty(),
    {
        SharedMmapKeeper { data: NameMap::new() }
    }

    /// The file that is shared under `path`, if there is one.
    fn shared(&self, path: &str) -> (file: Option<Arc<T>>)
        requires
            self.wf(),
        ensures
            file == (if self@.contains_key(path@) {
                Some(self@[path@])
            } else {
                None
            }),
    {
        match self.data.get(path) {
            Some(file) => Some(share(file)),
            None => None,
        }
    }

    /// The fast way, with the lock held for reading: a poisoned lock counts as
    /// nothing found.
    pub fn get_mmap_arc_read(lock: &Guarded<Self>, path: &str) -> (file: Option<Arc<T>>)
        requires
            lock.value.wf(),
        ensures
            file == (if !lock.poisoned && lock.value@.contains_key(path@) {
                Some(lock.value@[path@])
            } else {
                None
            }),
    {
        match lock.read() {
            Ok(keeper) => keeper.shared(path),
            Err(_) => None,
        }
    }

    /// One look for the file that is shared under `path`. The search starts with
    /// [`Look::First`] and goes on as the result says; others may come between two
    /// looks, so `lock` is the keeper as this look finds it.
    pub fn get_mmap_arc(look: Look, lock: &Guarded<Self>, path: &str) -> (lookup: MmapLookup<T>)
        requires
            lock.value.wf(),
        ensures
            lookup == lookup_of(look, lock.poisoned, lock.value@, path@),
    {
        match look {
            Look::First => match Self::get_mmap_arc_read(lock, path) {
                Some(file) => MmapLookup::Found(file),
                None => MmapLookup::Next(Look::Again),
            },
            Look::Again => match lock.read() {
                Ok(keeper) => match keeper.shared(path) {
                    Some(file) => MmapLookup::Found(file),
                    None => MmapLookup::Next(Look::BeforeOpen),
                },
                Err(_) => MmapLookup::Failed(LockError::MmapKeeperRead),
            },
            Look::BeforeOpen => match lock.read() {
                Ok(keeper) => match keeper.shared(path) {
                    Some(file) => MmapLookup::Found(file),
                    None => MmapLookup::Open,
                },
                Err(_) => MmapLookup::Failed(LockError::MmapKeeperWrite),
            },
        }
    }

    /// Takes in what opening the file `path` brought, and hands it on.
    pub fn opened<E>(&mut self, path: &str, outcome: Result<Arc<T>, E>) -> (file: Result<Arc<T>, E>)
        requires
            old(self).wf(),
        ensures
            final(self).wf(),
            final(self)@ == held_after_open(old(self)@, path@, outcome),
            file == outcome,
    {
        match outcome {
            Ok(file) => {
                self.data.insert(path.to_owned(), share(&file));
                Ok(file)
            },
            Err(e) => Err(e),
        }
    }

    /// Lets go of the file `path`, so that it can be closed as soon as everybody
    /// else lets go of it too. A poisoned keeper stays as it is.
    pub fn evict(lock: &mut Guarded<Self>, path: &str)
        requires
            old(lock).value.wf(),
        ensures
            final(lock).value.wf(),
            final(lock).poisoned == old(lock).poisoned,
            final(lock).value@ == held_after_evict(old(lock).poisoned, old(lock).value@, path@),
    {
        if let Ok(keeper) = lock.write() {
            let _ = keeper.data.remove(path);
        }
    }

    /// The keeper, made empty when it is asked for the first time.
    pub fn keeper_lock(cell: &mut WriteOnce<Guarded<Self>>) -> (lock: &mut Guarded<Self>)
        ensures
            match old(cell)@ {
                Some(held) => *lock == held,
                None => {
                    &&& !lock.poisoned
                    &&& lock.value.wf()
                    &&& lock.value@ == Map::<Seq<char>, Arc<T>>::empty()
                },
            },
            final(cell)@ == Some(*final(lock)),
    {
        cell.get_or_init(Guarded::new(SharedMmapKeeper::new()))
    }
}

/// Everybody gets the same file: once a path was opened, every look finds that
/// file, and none leads to its being opened again, until it is evicted.
pub proof fn law_one_file_per_path<T, E>(
    look: Look,
    held: Map<Seq<char>, Arc<T>>,
    path: Seq<char>,
    file: Arc<T>,
)
    ensures
        ({
            let after = held_after_open(held, path, Ok::<Arc<T>, E>(file));
            &&& lookup_of(look, false, after, path) == MmapLookup::Found(file)
            &&& lookup_of(
                Look::BeforeOpen,
                false,
                held_after_evict(false, after, path),
                path,
            ) == MmapLookup::<T>::Open
        }),
{
}

/// A file is opened only where a look under the write lock did not find it.
pub proof fn law_open_only_on_a_miss<T>(
    look: Look,
    poisoned: bool,
    held: Map<Seq<char>, Arc<T>>,
    path: Seq<char>,
)
    ensures
        lookup_of(look, poisoned, held, path) is Open <==> {
            &&& look == Look::BeforeOpen
            &&& !poisoned
            &&& !held.contains_key(path)
        },
{
}

/// As long as nobody comes between, the search ends in three looks: with the file
/// if it is shared, with the order to open it if it is not, and with an error if
/// the keeper is poisoned.
pub proof fn law_search_of_a_quiet_keeper<T>(
    poisoned: bool,
    held: Map<Seq<char>, Arc<T>>,
    path: Seq<char>,
)
    ensures
        !poisoned && held.contains_key(path) ==> lookup_of(Look::First, poisoned, held, path)
            == MmapLookup::Found(held[path]),
        !poisoned && !held.contains_key(path) ==> {
            &&& lookup_of(Look::First, poisoned, held, path) == MmapLookup::<T>::Next(Look::Again)
            &&& lookup_of(Look::Again, poisoned, held, path) == MmapLookup::<T>::Next(
                Look::BeforeOpen,
            )
            &&& lookup_of(Look::BeforeOpen, poisoned, held, path) == MmapLookup::<T>::Open
        },
        poisoned ==> {
            &&& lookup_of(Look::First, poisoned, held, path) == MmapLookup::<T>::Next(Look::Again)
            &&& lookup_of(Look::Again, poisoned, held, path) == MmapLookup::<T>::Failed(
                LockError::MmapKeeperRead,
            )
        },
{
}

/// Paths do not get in each other's way: opening and evicting one leaves what is
/// found under the others.
pub proof fn law_paths_are_apart<T, E>(
    look: Look,
    poisoned: bool,
    held: Map<Seq<char>, Arc<T>>,
    path: Seq<char>,
    other: Seq<char>,
    outcome: Result<Arc<T>, E>,
)
    requires
        other != path,
    ensures
        lookup_of(look, poisoned, held_after_open(held, path, outcome), other) == lookup_of(
            look,
            poisoned,
            held,
            other,
        ),
        lookup_of(look, poisoned, held_after_evict(poisoned, held, path), other) == lookup_of(
            look,
            poisoned,
            held,
            other,
        ),
{
}

/// A file that could not be opened is not shared: the next search opens it again.
pub proof fn law_failed_open_is_not_kept<T, E>(
    held: Map<Seq<char>, Arc<T>>,
    path: Seq<char>,
    error: E,
)
    ensures
        held_after_open(held, path, Err::<Arc<T>, E>(error)) == held,
{
}

/// A look finds a file if and only if the keeper can be entered and shares it under
/// that path, whichever look it is, and then finds that very file. A poisoned keeper is
/// an error from the second look on, named after the lock; and a miss leads to the next
/// look, or to the opening of the file after the last.
pub proof fn law_every_look_is_settled<T>(
    look: Look,
    poisoned: bool,
    held: Map<Seq<char>, Arc<T>>,
    path: Seq<char>,
)
    ensures
        ({
            let found = lookup_of(look, poisoned, held, path);
            &&& found is Found <==> !poisoned && held.contains_key(path)
            &&& found is Found ==> found->Found_0 == held[path]
            &&& found is Failed <==> poisoned && look != Look::First
            &&& poisoned && look == Look::Again ==> found->Failed_0 == LockError::MmapKeeperRead
            &&& poisoned && look == Look::BeforeOpen ==> found->Failed_0
                == LockError::MmapKeeperWrite
            &&& found is Open <==> !poisoned && !held.contains_key(path) && look
                == Look::BeforeOpen
            &&& found is Next && look == Look::First ==> found->Next_0 == Look::Again
            &&& found is Next && look == Look::Again ==> found->Next_0 == Look::BeforeOpen
        }),
{
}

/// A file that was opened is shared under its path from then on; one that was not is
/// not. Under the other paths the same files are shared.
pub proof fn law_opened_file_is_shared<T, E>(
    held: Map<Seq<char>, Arc<T>>,
    path: Seq<char>,
    outcome: Result<Arc<T>, E>,
    other: Seq<char>,
)
    ensures
        ({
            let after = held_after_open(held, path, outcome);
            &&& outcome is Ok ==> after.contains_key(path) && after[path] == outcome->Ok_0
            &&& outcome is Err || other != path ==> {
                &&& after.contains_key(other) == held.contains_key(other)
                &&& held.contains_key(other) ==> after[other] == held[other]
            }
        }),
{
}

/// An eviction takes out the file under its path and nothing else, and nothing at all
/// of a poisoned keeper.
pub proof fn law_eviction_takes_one_file<T>(
    poisoned: bool,
    held: Map<Seq<char>, Arc<T>>,
    path: Seq<char>,
    other: Seq<char>,
)
    ensures
        ({
            let after = held_after_evict(poisoned, held, path);
            &&& !poisoned ==> !after.contains_key(path)
            &&& poisoned || other != path ==> {
                &&& after.contains_key(other) == held.contains_key(other)
                &&& held.contains_key(other) ==> after[other] == held[other]
            }
        }),
{
}

/// What a keeper shares is what is in its map, path by path.
pub proof fn law_keeper_shows_its_map<T>(keeper: SharedMmapKeeper<T>)
    ensures
        keeper@ == keeper.data@,
{
}

} // verus!
