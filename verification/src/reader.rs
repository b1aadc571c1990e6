//! Per-column read state: the chain of sealed blocks and the reader's cursor.
use crate::block::Block;
use crate::name_map::NameMap;
use crate::sync::{Guarded, LockError};
use vstd::prelude::*;

verus! {

/// What the reader knows about one column.
#[derive(Debug)]
pub struct ColReaderInfo<T> {
    /// The sealed blocks, oldest first.
    pub chain: Vec<Block<T>>,
    /// The block to read next; `chain.len()` when the chain is read to its end.
    pub cur_block_idx: usize,
    /// The position in that block.
    pub cur_block_offset: u64,
    pub reads_since_persist: u32,
    /// The block that the writer still fills, as far as it was read.
    pub tail_block_id: u64,
    pub tail_offset: u64,
    /// Whether the position was taken from the persisted index already.
    pub hydrated_from_index: bool,
}

/// The mathematical content of a [`ColReaderInfo`].
#[verifier::ext_equal]
pub struct ColView<T> {
    pub chain: Seq<Block<T>>,
    pub cur_block_idx: int,
    pub cur_block_offset: u64,
    pub reads_since_persist: u32,
    pub tail_block_id: u64,
    pub tail_offset: u64,
    pub hydrated_from_index: bool,
}

/// The smaller of two numbers.
pub open spec fn min_of(a: int, b: int) -> int {
    if a <= b {
        a
    } else {
        b
    }
}

/// The test whether a block lies in another file than `path`.
pub open spec fn elsewhere<T>(path: Seq<char>) -> spec_fn(Block<T>) -> bool {
    |b: Block<T>| b.file_path@ != path
}

/// The blocks that do not lie in the file `path`, in their order.
pub open spec fn outside_file<T>(chain: Seq<Block<T>>, path: Seq<char>) -> Seq<Block<T>> {
    chain.filter(elsewhere(path))
}

impl<T> ColView<T> {
    /// A column of which nothing was sealed and nothing was read.
    pub open spec fn empty() -> Self {
        ColView {
            chain: Seq::empty(),
            cur_block_idx: 0,
            cur_block_offset: 0,
            reads_since_persist: 0,
            tail_block_id: 0,
            tail_offset: 0,
            hydrated_from_index: false,
        }
    }

    /// The cursor stands on a block or behind the last one.
    pub open spec fn cursor_ok(self) -> bool {
        0 <= self.cur_block_idx <= self.chain.len()
    }

    /// The blocks from the cursor on: what is still to be read.
    pub open spec fn ahead(self) -> Seq<Block<T>> {
        self.chain.skip(self.cur_block_idx)
    }

    /// The column after `block` was sealed. A reader that was in this very block
    /// while it was the tail goes on where it was, but not behind its last entry.
    pub open spec fn appended(self, block: Block<T>) -> Self {
        let grown = ColView { chain: self.chain.push(block), ..self };
        if self.tail_block_id == block.id {
            ColView {
                cur_block_idx: self.chain.len() as int,
                cur_block_offset: min_of(self.tail_offset as int, block.used as int) as u64,
                ..grown
            }
        } else {
            grown
        }
    }

    /// The column after the blocks of the file `path` were dropped. The cursor
    /// moves down by their number, within the chain that is left.
    pub open spec fn purged(self, path: Seq<char>) -> Self {
        let kept = outside_file(self.chain, path);
        let removed = self.chain.len() - kept.len();
        if removed == 0 {
            self
        } else {
            let shifted = if self.cur_block_idx <= removed {
                0
            } else {
                self.cur_block_idx - removed
            };
            ColView {
                chain: kept,
                cur_block_idx: min_of(shifted, kept.len() as int),
                ..self
            }
        }
    }
}

impl<T> ColReaderInfo<T> {
    pub open spec fn view(self) -> ColView<T> {
        ColView {
            chain: self.chain@,
            cur_block_idx: self.cur_block_idx as int,
            cur_block_offset: self.cur_block_offset,
            reads_since_persist: self.reads_since_persist,
            tail_block_id: self.tail_block_id,
            tail_offset: self.tail_offset,
            hydrated_from_index: self.hydrated_from_index,
        }
    }

    pub fn new() -> (info: Self)
        ensures
            info@ == ColView::<T>::empty(),
    {
        ColReaderInfo {
            chain: Vec::new(),
            cur_block_idx: 0,
            cur_block_offset: 0,
            reads_since_persist: 0,
            tail_block_id: 0,
            tail_offset: 0,
            hydrated_from_index: false,
        }
    }

    /// Adds a sealed block to the chain.
    pub fn append_block(&mut self, block: Block<T>)
        ensures
            final(self)@ == old(self)@.appended(block),
            final(self).chain@ == old(self).chain@.push(block),
            old(self).tail_block_id == block.id ==> {
                &&& final(self).cur_block_idx == old(self).chain@.len()
                &&& final(self).cur_block_offset <= old(self).tail_offset
                &&& final(self).cur_block_offset <= block.used
                &&& {
                    ||| final(self).cur_block_offset == old(self).tail_offset
                    ||| final(self).cur_block_offset == block.used
                }
            },
            old(self).tail_block_id != block.id ==> {
                &&& final(self).cur_block_idx == old(self).cur_block_idx
                &&& final(self).cur_block_offset == old(self).cur_block_offset
            },
            final(self).tail_block_id == old(self).tail_block_id,
            final(self).tail_offset == old(self).tail_offset,
            final(self).reads_since_persist == old(self).reads_since_persist,
            final(self).hydrated_from_index == old(self).hydrated_from_index,
    {
        let id: u64 = block.id;
        let used: u64 = block.used;
        let new_idx: usize = self.chain.len();
        self.chain.push(block);
        if self.tail_block_id == id {
            self.cur_block_idx = new_idx;
            self.cur_block_offset = if self.tail_offset <= used {
                self.tail_offset
            } else {
                used
            };
        }
    }

    /// Drops the blocks of the file `path`.
    pub fn purge_blocks(&mut self, path: &str)
        ensures
            final(self)@ == old(self)@.purged(path@),
    {
        let path: String = path.to_owned();
        let ghost keep = elsewhere::<T>(path@);
        let mut chain: Vec<Block<T>> = Vec::new();
        std::mem::swap(&mut chain, &mut self.chain);
        let ghost all = chain@;
        assert(all.len() == chain.len());
        let mut kept: Vec<Block<T>> = Vec::new();
        let mut removed: usize = 0;
        for block in it: chain
            invariant
                it.seq() == all,
                all.len() <= usize::MAX,
                keep == elsewhere::<T>(path@),
                kept@ == all.take(it.index() as int).filter(keep),
                removed + kept@.len() == it.index(),
        {
            proof {
                reveal(Seq::filter);
                assert(all.take(it.index() + 1).drop_last() =~= all.take(it.index() as int));
            }
            if block.file_path != path {
                kept.push(block);
            } else {
                removed = removed + 1;
            }
        }
        assert(all.take(all.len() as int) =~= all);
        self.chain = kept;
        if removed == 0 {
            proof {
                lemma_filter_nothing(all, keep);
            }
        } else {
            self.cur_block_idx = self.cur_block_idx.saturating_sub(removed);
            if self.cur_block_idx > self.chain.len() {
                self.cur_block_idx = self.chain.len();
            }
        }
    }
}

/// One column of a reader: its content, and whether its lock is poisoned.
#[verifier::ext_equal]
pub struct ColState<T> {
    pub info: ColView<T>,
    pub poisoned: bool,
}

impl<T> ColState<T> {
    pub open spec fn of(column: Guarded<ColReaderInfo<T>>) -> Self {
        ColState { info: column.value@, poisoned: column.poisoned }
    }

    /// The column after the file `path` was purged; a poisoned one is passed over.
    pub open spec fn purged(self, path: Seq<char>) -> Self {
        if self.poisoned {
            self
        } else {
            ColState { info: self.info.purged(path), poisoned: false }
        }
    }
}

/// The mathematical content of a [`Reader`].
#[verifier::ext_equal]
pub struct ReaderView<T> {
    /// Whether the lock of the map of columns is poisoned.
    pub poisoned: bool,
    pub cols: Map<Seq<char>, ColState<T>>,
}

impl<T> ReaderView<T> {
    /// Every cursor stands on a block of its chain or behind the last one.
    pub open spec fn cursors_ok(self) -> bool {
        forall|k: Seq<char>| #[trigger] self.cols.contains_key(k) ==> self.cols[k].info.cursor_ok()
    }

    /// The reader after `block` was sealed in `col`, and what the caller is told.
    pub open spec fn append(self, col: Seq<char>, block: Block<T>) -> (Self, Result<
        (),
        LockError,
    >) {
        if self.poisoned {
            (self, Err(LockError::ReaderMapRead))
        } else if !self.cols.contains_key(col) {
            (self.with_column(col, ColView::empty().appended(block)), Ok(()))
        } else if self.cols[col].poisoned {
            (self, Err(LockError::ColInfoWrite))
        } else {
            (self.with_column(col, self.cols[col].info.appended(block)), Ok(()))
        }
    }

    /// The reader with `info` as the content of the column `col`.
    pub open spec fn with_column(self, col: Seq<char>, info: ColView<T>) -> Self {
        ReaderView { cols: self.cols.insert(col, ColState { info, poisoned: false }), ..self }
    }

    /// The reader after every column was purged of the file `path`.
    pub open spec fn purge(self, path: Seq<char>) -> Self {
        if self.poisoned {
            self
        } else {
            ReaderView {
                cols: self.cols.map_values(|c: ColState<T>| c.purged(path)),
                ..self
            }
        }
    }
}

/// The columns of one log, each behind a lock of its own, in a map behind a lock.
pub struct Reader<T> {
    pub data: Guarded<NameMap<Guarded<ColReaderInfo<T>>>>,
}

impl<T> Reader<T> {
    pub open spec fn view(self) -> ReaderView<T> {
        ReaderView {
            poisoned: self.data.poisoned,
            cols: self.data.value@.map_values(
                |c: Guarded<ColReaderInfo<T>>| ColState::of(c),
            ),
        }
    }

    /// The map of columns is in order.
    pub open spec fn wf(self) -> bool {
        self.data.value.wf()
    }

    /// `at` is the place of the column `col`. Columns keep their place for good.
    pub open spec fn column_at(self, at: int, col: Seq<char>) -> bool {
        &&& 0 <= at < self.data.value.slots().len()
        &&& self.data.value.slots()[at].name@ == col
    }

    pub fn new() -> (reader: Self)
        ensures
            reader.wf(),
            !reader@.poisoned,
            reader@.cols == Map::<Seq<char>, ColState<T>>::empty(),
    {
        let reader = Reader { data: Guarded::new(NameMap::new()) };
        assert(reader@.cols =~= Map::<Seq<char>, ColState<T>>::empty());
        reader
    }

    /// Looks a column up, with the map locked for reading.
    pub fn find_column(&self, col: &str) -> (found: Result<Option<usize>, LockError>)
        requires
            self.wf(),
        ensures
            match found {
                Ok(Some(at)) => {
                    &&& !self@.poisoned
                    &&& self@.cols.contains_key(col@)
                    &&& self.column_at(at as int, col@)
                },
                Ok(None) => !self@.poisoned && !self@.cols.contains_key(col@),
                Err(e) => self@.poisoned && e == LockError::ReaderMapRead,
            },
    {
        match self.data.read() {
            Ok(map) => Ok(map.find(col)),
            Err(_) => Err(LockError::ReaderMapRead),
        }
    }

    /// Finds a column or adds it, with the map locked for writing.
    pub fn ensure_column(&mut self, col: &str) -> (found: Result<usize, LockError>)
        requires
            old(self).wf(),
        ensures
            final(self).wf(),
            forall|i: int, c: Seq<char>|
                #![trigger old(self).column_at(i, c)]
                #![trigger final(self).column_at(i, c)]
                old(self).column_at(i, c) ==> final(self).column_at(i, c),
            match found {
                Ok(at) => {
                    &&& !old(self)@.poisoned
                    &&& final(self).column_at(at as int, col@)
                    &&& final(self)@ == (if old(self)@.cols.contains_key(col@) {
                        old(self)@
                    } else {
                        old(self)@.with_column(col@, ColView::empty())
                    })
                },
                Err(e) => {
                    &&& old(self)@.poisoned
                    &&& e == LockError::ReaderMapWrite
                    &&& final(self)@ == old(self)@
                },
            },
    {
        let ghost before = *self;
        if self.data.poisoned {
            return Err(LockError::ReaderMapWrite);
        }
        match self.data.value.find(col) {
            Some(at) => Ok(at),
            None => {
                let at: usize = self.data.value.len();
                self.data.value.insert(col.to_owned(), Guarded::new(ColReaderInfo::new()));
                assert(self@.cols =~= before@.with_column(col@, ColView::empty()).cols);
                Ok(at)
            },
        }
    }

    /// Appends a block to the column at `at`, with that column locked for writing.
    pub fn append_to_column(&mut self, at: usize, block: Block<T>) -> (done: Result<(), LockError>)
        requires
            old(self).wf(),
            at < old(self).data.value.slots().len(),
        ensures
            final(self).wf(),
            forall|i: int, c: Seq<char>|
                #![trigger old(self).column_at(i, c)]
                #![trigger final(self).column_at(i, c)]
                old(self).column_at(i, c) == final(self).column_at(i, c),
            ({
                let col = old(self).data.value.slots()[at as int].name@;
                &&& old(self)@.cols.contains_key(col)
                &&& match done {
                    Ok(()) => {
                        &&& !old(self)@.cols[col].poisoned
                        &&& final(self)@ == old(self)@.with_column(
                            col,
                            old(self)@.cols[col].info.appended(block),
                        )
                    },
                    Err(e) => {
                        &&& old(self)@.cols[col].poisoned
                        &&& e == LockError::ColInfoWrite
                        &&& final(self)@ == old(self)@
                    },
                }
            }),
    {
        let ghost before = *self;
        let ghost col = self.data.value.slots()[at as int].name@;
        proof {
            self.data.value.lemma_slot(at as int);
        }
        if self.data.value.value(at).poisoned {
            return Err(LockError::ColInfoWrite);
        }
        let column = self.data.value.value_mut(at);
        column.value.append_block(block);
        assert(self@.cols =~= before@.with_column(col, before@.cols[col].info.appended(block)).cols);
        Ok(())
    }

    /// Adds a sealed block to the chain of the column `col`, which is created if
    /// there is none.
    pub fn append_block_to_chain(&mut self, col: &str, block: Block<T>) -> (done: Result<
        (),
        LockError,
    >)
        requires
            old(self).wf(),
        ensures
            final(self).wf(),
            (final(self)@, done) == old(self)@.append(col@, block),
            forall|i: int, c: Seq<char>|
                #![trigger old(self).column_at(i, c)]
                #![trigger final(self).column_at(i, c)]
                old(self).column_at(i, c) ==> final(self).column_at(i, c),
    {
        let ghost before = *self;
        let found: Option<usize> = match self.find_column(col) {
            Ok(found) => found,
            Err(e) => return Err(e),
        };
        let at: usize = match found {
            Some(at) => at,
            None => match self.ensure_column(col) {
                Ok(at) => at,
                Err(e) => return Err(e),
            },
        };
        let done = self.append_to_column(at, block);
        assert(done matches Ok(unit) ==> unit == ());
        assert(self@.cols =~= before@.append(col@, block).0.cols);
        done
    }

    /// Drops every block of the file `path` from every column, so that the last
    /// pointers to the mapped file go away. Poisoned columns are passed over;
    /// if the map itself is poisoned, nothing happens.
    pub fn purge_file(&mut self, path: &str)
        requires
            old(self).wf(),
        ensures
            final(self).wf(),
            final(self)@ == old(self)@.purge(path@),
            forall|i: int, c: Seq<char>|
                #![trigger old(self).column_at(i, c)]
                #![trigger final(self).column_at(i, c)]
                old(self).column_at(i, c) == final(self).column_at(i, c),
    {
        if self.data.poisoned {
            return;
        }
        let ghost before = self.data.value;
        let n: usize = self.data.value.len();
        let mut i: usize = 0;
        while i < n
            invariant
                i <= n,
                !self.data.poisoned,
                before.wf(),
                self.data.value.wf(),
                n == before.slots().len(),
                self.data.value.slots().len() == n,
                self.data.value@.dom() == before@.dom(),
                forall|j: int|
                    0 <= j < n ==> (#[trigger] self.data.value.slots()[j]).name
                        == before.slots()[j].name,
                forall|j: int|
                    0 <= j < i ==> ColState::of((#[trigger] self.data.value.slots()[j]).value)
                        == ColState::of(before.slots()[j].value).purged(path@),
                forall|j: int|
                    i <= j < n ==> (#[trigger] self.data.value.slots()[j]).value
                        == before.slots()[j].value,
            decreases n - i,
        {
            let ghost prev = self.data.value;
            proof {
                prev.lemma_slot(i as int);
            }
            let column = self.data.value.value_mut(i);
            if !column.poisoned {
                column.value.purge_blocks(path);
            }
            assert(self.data.value@.dom() =~= before@.dom());
            i += 1;
        }
        proof {
            let after = self.data.value;
            assert forall|k: Seq<char>| before@.contains_key(k) implies ColState::of(after@[k])
                == ColState::of(before@[k]).purged(path@) by {
                let j = before.lemma_position(k);
                before.lemma_slot(j);
                after.lemma_slot(j);
                assert(after.slots()[j].name == before.slots()[j].name);
            }
            assert(self@.cols =~= old(self)@.purge(path@).cols);
        }
    }
}

/// A place leads to one column, which the reader has, and no column has two places.
pub proof fn law_place_leads_to_one_column<T>(
    reader: Reader<T>,
    i: int,
    j: int,
    c: Seq<char>,
    d: Seq<char>,
)
    requires
        reader.wf(),
        reader.column_at(i, c),
        reader.column_at(j, d),
    ensures
        reader@.cols.contains_key(c),
        i == j <==> c == d,
{
    reader.data.value.lemma_slot(i);
    if c == d {
        reader.data.value.lemma_distinct(i, j);
    }
}

/// Every column that a reader has is at some place.
pub proof fn law_every_column_has_a_place<T>(reader: Reader<T>, c: Seq<char>) -> (i: int)
    requires
        reader.wf(),
        reader@.cols.contains_key(c),
    ensures
        reader.column_at(i, c),
{
    reader.data.value.lemma_position(c)
}

/// A filter that drops nothing by number drops nothing at all.
pub proof fn lemma_filter_nothing<A>(s: Seq<A>, keep: spec_fn(A) -> bool)
    requires
        s.filter(keep).len() == s.len(),
    ensures
        s.filter(keep) == s,
    decreases s.len(),
{
    reveal(Seq::filter);
    if s.len() > 0 {
        s.drop_last().lemma_filter_len(keep);
        lemma_filter_nothing(s.drop_last(), keep);
        assert(s.drop_last().push(s.last()) =~= s);
    }
}

} // verus!
