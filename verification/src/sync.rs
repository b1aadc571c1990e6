//! Shared state: a value behind a lock that can be poisoned, a value that is
//! set once, and the errors that a poisoned lock leads to.
use std::sync::Arc;
use vstd::prelude::*;

verus! {

/// Says that a lock was found poisoned.
#[derive(Clone, Copy, Debug, PartialEq, Eq, Structural)]
pub struct Poisoned;

/// A value behind a lock, as whoever enters the lock finds it.
///
/// A lock is poisoned for good when a holder panics while it may change the
/// value; from then on nobody gets at the value through it.
#[derive(Debug)]
pub struct Guarded<T> {
    pub value: T,
    pub poisoned: bool,
}

impl<T> Guarded<T> {
    pub fn new(value: T) -> (lock: Self)
        ensures
            lock.value == value,
            !lock.poisoned,
    {
        Guarded { value, poisoned: false }
    }

    /// Records that a holder panicked.
    pub fn poison(&mut self)
        ensures
            final(self).poisoned,
            final(self).value == old(self).value,
    {
        self.poisoned = true;
    }

    /// Enters the lock to look at the value.
    pub fn read(&self) -> (value: Result<&T, Poisoned>)
        ensures
            match value {
                Ok(v) => !self.poisoned && *v == self.value,
                Err(_) => self.poisoned,
            },
    {
        if self.poisoned {
            Err(Poisoned)
        } else {
            Ok(&self.value)
        }
    }

    /// Enters the lock to change the value.
    pub fn write(&mut self) -> (value: Result<&mut T, Poisoned>)
        ensures
            match value {
                Ok(v) => {
                    &&& !old(self).poisoned
                    &&& *v == old(self).value
                    &&& *final(self) == (Guarded { value: *final(v), poisoned: false })
                },
                Err(_) => old(self).poisoned && *final(self) == *old(self),
            },
    {
        if self.poisoned {
            Err(Poisoned)
        } else {
            Ok(&mut self.value)
        }
    }
}

/// Which poisoned lock made an operation fail.
#[derive(Clone, Copy, Debug, PartialEq, Eq, Structural)]
pub enum LockError {
    /// The map of columns, entered to look a column up.
    ReaderMapRead,
    /// The map of columns, entered to add a column.
    ReaderMapWrite,
    /// One column, entered to change it.
    ColInfoWrite,
    /// The keeper of mapped files, entered to look a file up.
    MmapKeeperRead,
    /// The keeper of mapped files, entered to add a file.
    MmapKeeperWrite,
}

impl LockError {
    pub open spec fn text(self) -> Seq<char> {
        match self {
            LockError::ReaderMapRead => "reader map read lock poisoned"@,
            LockError::ReaderMapWrite => "reader map write lock poisoned"@,
            LockError::ColInfoWrite => "col info write lock poisoned"@,
            LockError::MmapKeeperRead => "mmap keeper read lock poisoned"@,
            LockError::MmapKeeperWrite => "mmap keeper write lock poisoned"@,
        }
    }

    /// The text that is shown to the user.
    pub fn message(&self) -> (text: &'static str)
        ensures
            text@ == self.text(),
            *self == LockError::ReaderMapRead ==> text@ == "reader map read lock poisoned"@,
            *self == LockError::ReaderMapWrite ==> text@ == "reader map write lock poisoned"@,
            *self == LockError::ColInfoWrite ==> text@ == "col info write lock poisoned"@,
            *self == LockError::MmapKeeperRead ==> text@ == "mmap keeper read lock poisoned"@,
            *self == LockError::MmapKeeperWrite ==> text@ == "mmap keeper write lock poisoned"@,
    {
        match self {
            LockError::ReaderMapRead => "reader map read lock poisoned",
            LockError::ReaderMapWrite => "reader map write lock poisoned",
            LockError::ColInfoWrite => "col info write lock poisoned",
            LockError::MmapKeeperRead => "mmap keeper read lock poisoned",
            LockError::MmapKeeperWrite => "mmap keeper write lock poisoned",
        }
    }
}

/// A place that can be filled once and then keeps its value.
#[derive(Debug)]
pub struct WriteOnce<T> {
    slot: Option<T>,
}

impl<T> WriteOnce<T> {
    pub closed spec fn view(self) -> Option<T> {
        self.slot
    }

    pub fn new() -> (cell: Self)
        ensures
            cell@ == None::<T>,
    {
        WriteOnce { slot: None }
    }

    /// Fills the place with `value`; gives `value` back when it is filled already.
    pub fn set(&mut self, value: T) -> (refused: Result<(), T>)
        ensures
            match old(self)@ {
                None => final(self)@ == Some(value) && refused == Ok::<(), T>(()),
                Some(_) => final(self)@ == old(self)@ && refused == Err::<(), T>(value),
            },
    {
        if self.slot.is_none() {
            self.slot = Some(value);
            Ok(())
        } else {
            Err(value)
        }
    }

    pub fn get(&self) -> (value: Option<&T>)
        ensures
            match value {
                Some(v) => self@ == Some(*v),
                None => self@ == None::<T>,
            },
    {
        self.slot.as_ref()
    }

    /// The value, which is `value` if the place was still empty.
    pub fn get_or_init(&mut self, value: T) -> (held: &mut T)
        ensures
            *held == (match old(self)@ {
                Some(v) => v,
                None => value,
            }),
            final(self)@ == Some(*final(held)),
    {
        self.slot.get_or_insert(value)
    }
}

/// `Arc::clone`: one more pointer to the value that `shared` points to.
///
/// Claimed without proof: the new pointer reaches the same value.
#[verifier::external_body]
pub(crate) fn share<T>(shared: &Arc<T>) -> (another: Arc<T>)
    ensures
        another == *shared,
{
    Arc::clone(shared)
}

} // verus!
