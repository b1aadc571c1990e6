//! What holds of readers whatever is appended to them and purged from them.
use crate::block::Block;
use crate::reader::{
    elsewhere, lemma_filter_nothing, outside_file, ColReaderInfo, ColState, ColView, Reader, ReaderView,
};
use crate::sync::{Guarded, LockError};
use vstd::prelude::*;

verus! {

/// A chain without a block of the file loses nothing when the file is purged.
pub proof fn lemma_nothing_to_purge<T>(chain: Seq<Block<T>>, path: Seq<char>)
    requires
        forall|i: int| 0 <= i < chain.len() ==> (#[trigger] chain[i]).file_path@ != path,
    ensures
        outside_file(chain, path) == chain,
    decreases chain.len(),
{
    reveal(Seq::filter);
    if chain.len() > 0 {
        assert forall|i: int| 0 <= i < chain.drop_last().len() implies (
        #[trigger] chain.drop_last()[i]).file_path@ != path by {
            assert(chain.drop_last()[i] == chain[i]);
        }
        lemma_nothing_to_purge(chain.drop_last(), path);
        assert(chain.last() == chain[chain.len() - 1]);
        assert(chain.drop_last().push(chain.last()) =~= chain);
    }
}

/// No block of a purged file is left.
pub proof fn law_purge_leaves_no_block<T>(col: ColView<T>, path: Seq<char>, i: int)
    requires
        0 <= i < col.purged(path).chain.len(),
    ensures
        col.purged(path).chain[i].file_path@ != path,
{
    let keep = elsewhere::<T>(path);
    if outside_file(col.chain, path).len() == col.chain.len() {
        lemma_filter_nothing(col.chain, keep);
    }
    col.chain.lemma_filter_pred(keep, i);
}

/// A purge drops nothing but blocks of the file, and the others keep their order.
pub proof fn law_purge_keeps_the_rest<T>(col: ColView<T>, path: Seq<char>)
    ensures
        col.purged(path).chain == outside_file(col.chain, path),
{
    let keep = elsewhere::<T>(path);
    if outside_file(col.chain, path).len() == col.chain.len() {
        lemma_filter_nothing(col.chain, keep);
    }
}

/// A reader that is past every block of a file goes on at the same place after the
/// file is purged: the same blocks are ahead of it, and behind it are those that
/// were behind it, without the file's.
pub proof fn law_purge_keeps_the_place<T>(col: ColView<T>, path: Seq<char>)
    requires
        col.cursor_ok(),
        forall|i: int|
            col.cur_block_idx <= i < col.chain.len() ==> (#[trigger] col.chain[i]).file_path@
                != path,
    ensures
        col.purged(path).cursor_ok(),
        col.purged(path).ahead() == col.ahead(),
        col.purged(path).chain.take(col.purged(path).cur_block_idx) == outside_file(
            col.chain.take(col.cur_block_idx),
            path,
        ),
        col.purged(path).cur_block_offset == col.cur_block_offset,
{
    let keep = elsewhere::<T>(path);
    let behind = col.chain.take(col.cur_block_idx);
    let ahead = col.ahead();
    assert(behind + ahead =~= col.chain);
    Seq::filter_distributes_over_add(behind, ahead, keep);
    assert forall|i: int| 0 <= i < ahead.len() implies (#[trigger] ahead[i]).file_path@ != path by {
        assert(ahead[i] == col.chain[col.cur_block_idx + i]);
    }
    lemma_nothing_to_purge(ahead, path);
    behind.lemma_filter_len(keep);
    let left = behind.filter(keep);
    law_purge_keeps_the_rest(col, path);
    assert(col.purged(path).chain == left + ahead);
    assert(col.purged(path).cur_block_idx == left.len());
    assert(col.purged(path).ahead() =~= ahead);
    assert(col.purged(path).chain.take(left.len() as int) =~= left);
}

/// To purge a file twice is to purge it once.
pub proof fn law_purge_twice<T>(col: ColView<T>, path: Seq<char>)
    ensures
        col.purged(path).purged(path) == col.purged(path),
{
    let once = col.purged(path);
    assert forall|i: int| 0 <= i < once.chain.len() implies (#[trigger] once.chain[i]).file_path@
        != path by {
        law_purge_leaves_no_block(col, path, i);
    }
    lemma_nothing_to_purge(once.chain, path);
}

/// Two files can be purged in either order: the same blocks are left, and the reader
/// stands at the same place. The cursor may even lie behind the end of the chain.
pub proof fn law_purge_order<T>(col: ColView<T>, p: Seq<char>, q: Seq<char>)
    requires
        0 <= col.cur_block_idx,
    ensures
        col.purged(p).purged(q) == col.purged(q).purged(p),
{
    law_purge_keeps_the_rest(col, p);
    law_purge_keeps_the_rest(col.purged(p), q);
    law_purge_keeps_the_rest(col, q);
    law_purge_keeps_the_rest(col.purged(q), p);
    lemma_outside_both(col.chain, p, q);
    col.chain.lemma_filter_len(elsewhere::<T>(p));
    col.chain.lemma_filter_len(elsewhere::<T>(q));
    col.purged(p).chain.lemma_filter_len(elsewhere::<T>(q));
    col.purged(q).chain.lemma_filter_len(elsewhere::<T>(p));
}

proof fn lemma_outside_both<T>(chain: Seq<Block<T>>, p: Seq<char>, q: Seq<char>)
    ensures
        outside_file(outside_file(chain, p), q) == outside_file(outside_file(chain, q), p),
    decreases chain.len(),
{
    reveal(Seq::filter);
    if chain.len() > 0 {
        let rest = chain.drop_last();
        let last = chain.last();
        lemma_outside_both(rest, p, q);
        let rp = outside_file(rest, p);
        let rq = outside_file(rest, q);
        assert(rp.push(last).drop_last() =~= rp);
        assert(rq.push(last).drop_last() =~= rq);
    }
}

/// A file whose blocks were never in the chain can be sealed into it and purged
/// again, and the chain is what it was.
pub proof fn law_append_then_purge<T>(col: ColView<T>, block: Block<T>)
    requires
        forall|i: int|
            0 <= i < col.chain.len() ==> (#[trigger] col.chain[i]).file_path@ != block.file_path@,
    ensures
        col.appended(block).purged(block.file_path@).chain == col.chain,
{
    let grown = col.appended(block);
    lemma_nothing_to_purge(col.chain, block.file_path@);
    law_purge_keeps_the_rest(grown, block.file_path@);
    reveal(Seq::filter);
    assert(grown.chain.drop_last() =~= col.chain);
}

/// The cursor never leaves the chain: it holds of a new column, and appending and
/// purging keep it.
pub proof fn law_cursor_stays_in_the_chain<T>(col: ColView<T>, block: Block<T>, path: Seq<char>)
    requires
        col.cursor_ok(),
    ensures
        ColView::<T>::empty().cursor_ok(),
        col.appended(block).cursor_ok(),
        col.purged(path).cursor_ok(),
{
}

/// A sealed block comes behind the others, which stay as they are. Unless the
/// reader was in it while it was the tail, the reader stays where it is, and the
/// block is one more to read.
pub proof fn law_append_adds_behind<T>(col: ColView<T>, block: Block<T>)
    requires
        col.cursor_ok(),
    ensures
        col.appended(block).chain == col.chain.push(block),
        col.tail_block_id != block.id ==> {
            &&& col.appended(block).cur_block_idx == col.cur_block_idx
            &&& col.appended(block).cur_block_offset == col.cur_block_offset
            &&& col.appended(block).ahead() == col.ahead().push(block)
        },
{
    if col.tail_block_id != block.id {
        assert(col.appended(block).ahead() =~= col.ahead().push(block));
    }
}

/// A reader that was in a block while it was the tail goes on in that block, as
/// far as it had come, and not behind the block's last entry.
pub proof fn law_tail_progress_is_kept<T>(col: ColView<T>, block: Block<T>)
    requires
        col.tail_block_id == block.id,
    ensures
        col.appended(block).ahead() == seq![block],
        col.appended(block).cur_block_offset <= block.used,
        col.tail_offset <= block.used ==> col.appended(block).cur_block_offset == col.tail_offset,
{
    assert(col.appended(block).ahead() =~= seq![block]);
}

/// Neither an append nor a purge touches what is remembered of the tail, of the reads
/// since the position was persisted, and of the persisted index.
pub proof fn law_tail_is_left_alone<T>(col: ColView<T>, block: Block<T>, path: Seq<char>)
    ensures
        col.appended(block).tail_block_id == col.tail_block_id,
        col.appended(block).tail_offset == col.tail_offset,
        col.appended(block).reads_since_persist == col.reads_since_persist,
        col.appended(block).hydrated_from_index == col.hydrated_from_index,
        col.purged(path).tail_block_id == col.tail_block_id,
        col.purged(path).tail_offset == col.tail_offset,
        col.purged(path).reads_since_persist == col.reads_since_persist,
        col.purged(path).hydrated_from_index == col.hydrated_from_index,
{
}

/// An append takes no column away, and afterwards the named column is there, unless
/// the map of columns is poisoned.
pub proof fn law_append_takes_no_column_away<T>(
    reader: ReaderView<T>,
    col: Seq<char>,
    block: Block<T>,
    other: Seq<char>,
)
    ensures
        reader.cols.contains_key(other) ==> reader.append(col, block).0.cols.contains_key(other),
        !reader.poisoned ==> reader.append(col, block).0.cols.contains_key(col),
{
}

/// What is sealed in one column leaves the others alone.
pub proof fn law_columns_are_apart<T>(
    reader: ReaderView<T>,
    col: Seq<char>,
    block: Block<T>,
    other: Seq<char>,
)
    requires
        other != col,
    ensures
        reader.append(col, block).0.cols.contains_key(other) == reader.cols.contains_key(other),
        reader.append(col, block).0.cols[other] == reader.cols[other],
{
}

/// An append that fails changes nothing, and it fails only on a poisoned lock.
pub proof fn law_failed_append_changes_nothing<T>(
    reader: ReaderView<T>,
    col: Seq<char>,
    block: Block<T>,
)
    ensures
        reader.append(col, block).1 is Err ==> reader.append(col, block).0 == reader,
        reader.append(col, block).1 is Err <==> {
            ||| reader.poisoned
            ||| reader.cols.contains_key(col) && reader.cols[col].poisoned
        },
{
}

/// After a purge of a reader whose map can be entered, no column that can be
/// entered has a block of the file, and the columns are the same ones.
pub proof fn law_purge_clears_every_column<T>(
    reader: ReaderView<T>,
    path: Seq<char>,
    col: Seq<char>,
    i: int,
)
    requires
        !reader.poisoned,
    ensures
        reader.purge(path).cols.dom() == reader.cols.dom(),
        reader.cols.contains_key(col) && !reader.cols[col].poisoned && 0 <= i < reader.purge(
            path,
        ).cols[col].info.chain.len() ==> reader.purge(path).cols[col].info.chain[i].file_path@
            != path,
{
    assert(reader.purge(path).cols.dom() =~= reader.cols.dom());
    if reader.cols.contains_key(col) && !reader.cols[col].poisoned && 0 <= i < reader.purge(
        path,
    ).cols[col].info.chain.len() {
        law_purge_leaves_no_block(reader.cols[col].info, path, i);
    }
}

/// Whatever is appended to a reader and purged from it, every cursor stays in its
/// chain.
pub proof fn law_reader_cursors_stay<T>(
    reader: ReaderView<T>,
    col: Seq<char>,
    block: Block<T>,
    path: Seq<char>,
)
    requires
        reader.cursors_ok(),
    ensures
        reader.append(col, block).0.cursors_ok(),
        reader.purge(path).cursors_ok(),
{
    let appended = reader.append(col, block).0;
    assert forall|k: Seq<char>| #[trigger] appended.cols.contains_key(
        k,
    ) implies appended.cols[k].info.cursor_ok() by {
        if k != col {
            assert(reader.cols.contains_key(k));
        }
    }
    let purged = reader.purge(path);
    assert forall|k: Seq<char>| #[trigger] purged.cols.contains_key(
        k,
    ) implies purged.cols[k].info.cursor_ok() by {
        assert(reader.cols.contains_key(k));
    }
}

/// To purge a file from a reader twice is to purge it once.
pub proof fn law_reader_purge_twice<T>(reader: ReaderView<T>, path: Seq<char>)
    ensures
        reader.purge(path).purge(path) == reader.purge(path),
{
    assert forall|k: Seq<char>| reader.cols.contains_key(k) implies reader.cols[k].purged(
        path,
    ).purged(path) == reader.cols[k].purged(path) by {
        law_purge_twice(reader.cols[k].info, path);
    }
    assert(reader.purge(path).purge(path).cols =~= reader.purge(path).cols);
}

/// Two files can be purged from a reader in either order.
pub proof fn law_reader_purge_order<T>(reader: ReaderView<T>, p: Seq<char>, q: Seq<char>)
    requires
        forall|k: Seq<char>| #[trigger]
            reader.cols.contains_key(k) ==> 0 <= reader.cols[k].info.cur_block_idx,
    ensures
        reader.purge(p).purge(q) == reader.purge(q).purge(p),
{
    assert forall|k: Seq<char>| #[trigger] reader.cols.contains_key(k) implies reader.cols[k].purged(
        p,
    ).purged(q) == reader.cols[k].purged(q).purged(p) by {
        law_purge_order(reader.cols[k].info, p, q);
    }
    assert(reader.purge(p).purge(q).cols =~= reader.purge(q).purge(p).cols);
}

/// What a column shows is what is in its fields.
pub proof fn law_column_shows_its_fields<T>(column: Guarded<ColReaderInfo<T>>)
    ensures
        ColState::of(column).poisoned == column.poisoned,
        ColState::of(column).info.chain == column.value.chain@,
        ColState::of(column).info.cur_block_idx == column.value.cur_block_idx,
        ColState::of(column).info.cur_block_offset == column.value.cur_block_offset,
        ColState::of(column).info.reads_since_persist == column.value.reads_since_persist,
        ColState::of(column).info.tail_block_id == column.value.tail_block_id,
        ColState::of(column).info.tail_offset == column.value.tail_offset,
        ColState::of(column).info.hydrated_from_index == column.value.hydrated_from_index,
        column.value@ == ColState::of(column).info,
{
}

/// What a reader shows is what is in its map of columns, name by name.
pub proof fn law_reader_shows_its_columns<T>(reader: Reader<T>, col: Seq<char>)
    ensures
        reader@.poisoned == reader.data.poisoned,
        reader@.cols.contains_key(col) == reader.data.value@.contains_key(col),
        reader.data.value@.contains_key(col) ==> reader@.cols[col] == ColState::of(
            reader.data.value@[col],
        ),
{
}

/// A place of a reader is the position of the entry that bears the column's name.
pub proof fn law_place_is_where_the_name_stands<T>(reader: Reader<T>, i: int, col: Seq<char>)
    ensures
        reader.column_at(i, col) <==> {
            &&& 0 <= i < reader.data.value.slots().len()
            &&& reader.data.value.slots()[i].name@ == col
        },
{
}

/// A block that is sealed in a column that a reader has, and that can be entered,
/// comes last in the chain of that column, and the blocks before it are those that
/// were there. A reader that was in the block while it was the tail goes on in it,
/// behind the bytes that it read already, as far as the block has entries; any other
/// reader stays where it is. Nothing else changes in the column.
pub proof fn law_sealed_block_is_read_on<T>(
    reader: ReaderView<T>,
    col: Seq<char>,
    block: Block<T>,
)
    requires
        !reader.poisoned,
        reader.cols.contains_key(col),
        !reader.cols[col].poisoned,
    ensures
        ({
            let (after, done) = reader.append(col, block);
            let was = reader.cols[col].info;
            let now = after.cols[col].info;
            &&& done == Ok::<(), LockError>(())
            &&& !after.poisoned
            &&& after.cols.contains_key(col)
            &&& !after.cols[col].poisoned
            &&& now.chain.len() == was.chain.len() + 1
            &&& now.chain[was.chain.len() as int] == block
            &&& forall|i: int| 0 <= i < was.chain.len() ==> #[trigger] now.chain[i] == was.chain[i]
            &&& was.tail_block_id == block.id ==> {
                &&& now.cur_block_idx == was.chain.len()
                &&& was.tail_offset <= block.used ==> now.cur_block_offset == was.tail_offset
                &&& was.tail_offset > block.used ==> now.cur_block_offset == block.used
            }
            &&& was.tail_block_id != block.id ==> {
                &&& now.cur_block_idx == was.cur_block_idx
                &&& now.cur_block_offset == was.cur_block_offset
            }
            &&& now.tail_block_id == was.tail_block_id
            &&& now.tail_offset == was.tail_offset
            &&& now.reads_since_persist == was.reads_since_persist
            &&& now.hydrated_from_index == was.hydrated_from_index
        }),
{
}

/// The first block of a column makes the column: it is the only one in the chain, the
/// cursor stands at its start, and nothing of a tail is remembered.
pub proof fn law_first_block_makes_the_column<T>(
    reader: ReaderView<T>,
    col: Seq<char>,
    block: Block<T>,
)
    requires
        !reader.poisoned,
        !reader.cols.contains_key(col),
    ensures
        ({
            let (after, done) = reader.append(col, block);
            let now = after.cols[col].info;
            &&& done == Ok::<(), LockError>(())
            &&& !after.poisoned
            &&& after.cols.contains_key(col)
            &&& !after.cols[col].poisoned
            &&& now.chain.len() == 1
            &&& now.chain[0] == block
            &&& now.cur_block_idx == 0
            &&& now.cur_block_offset == 0
            &&& now.reads_since_persist == 0
            &&& now.tail_block_id == 0
            &&& now.tail_offset == 0
            &&& !now.hydrated_from_index
        }),
{
}

/// A poisoned lock is told by its name, and then nothing changes: the map of columns
/// comes first, the column after it.
pub proof fn law_poisoned_lock_is_named<T>(
    reader: ReaderView<T>,
    col: Seq<char>,
    block: Block<T>,
)
    ensures
        reader.poisoned ==> reader.append(col, block) == (
            reader,
            Err::<(), LockError>(LockError::ReaderMapRead),
        ),
        !reader.poisoned && reader.cols.contains_key(col) && reader.cols[col].poisoned
            ==> reader.append(col, block) == (
            reader,
            Err::<(), LockError>(LockError::ColInfoWrite),
        ),
{
}

/// What is done in one column of a reader is done there alone: a reader with a column
/// put in has that column, not poisoned, and every other one as it was.
pub proof fn law_column_is_put_in<T>(
    reader: ReaderView<T>,
    col: Seq<char>,
    info: ColView<T>,
    other: Seq<char>,
)
    ensures
        reader.with_column(col, info).poisoned == reader.poisoned,
        reader.with_column(col, info).cols.contains_key(other) <==> other == col
            || reader.cols.contains_key(other),
        reader.with_column(col, info).cols[col].info == info,
        !reader.with_column(col, info).cols[col].poisoned,
        other != col ==> reader.with_column(col, info).cols[other] == reader.cols[other],
{
}

/// A column of which nothing is known has no blocks, and the cursor stands at the start.
pub proof fn law_new_column_is_blank<T>()
    ensures
        ColView::<T>::empty().chain.len() == 0,
        ColView::<T>::empty().cur_block_idx == 0,
        ColView::<T>::empty().cur_block_offset == 0,
        ColView::<T>::empty().reads_since_persist == 0,
        ColView::<T>::empty().tail_block_id == 0,
        ColView::<T>::empty().tail_offset == 0,
        !ColView::<T>::empty().hydrated_from_index,
{
}

/// A purge of a reader leaves every column that can be entered with the blocks of other
/// files, in their order. The cursor moves down by the number of blocks that went, not
/// below the start, and not behind the end of what is left. Whatever else is known of
/// the column stays; a column without a block of the file stays exactly as it was.
pub proof fn law_purge_takes_the_file_out_of_each_column<T>(
    reader: ReaderView<T>,
    path: Seq<char>,
    col: Seq<char>,
    other_file: spec_fn(Block<T>) -> bool,
)
    requires
        !reader.poisoned,
        reader.cols.contains_key(col),
        !reader.cols[col].poisoned,
        forall|b: Block<T>| #[trigger] other_file(b) <==> b.file_path@ != path,
    ensures
        ({
            let was = reader.cols[col].info;
            let after = reader.purge(path);
            let now = after.cols[col].info;
            let gone = was.chain.len() - now.chain.len();
            &&& !after.poisoned
            &&& after.cols.contains_key(col)
            &&& !after.cols[col].poisoned
            &&& now.chain == was.chain.filter(other_file)
            &&& gone >= 0
            &&& gone == 0 ==> now == was
            &&& gone > 0 && was.cur_block_idx <= gone ==> now.cur_block_idx == 0
            &&& gone > 0 && gone < was.cur_block_idx <= was.chain.len() ==> now.cur_block_idx
                == was.cur_block_idx - gone
            &&& gone > 0 && was.cur_block_idx > was.chain.len() ==> now.cur_block_idx
                == now.chain.len()
            &&& (forall|i: int|
                0 <= i < was.chain.len() ==> (#[trigger] was.chain[i]).file_path@ != path) ==> now
                == was
            &&& now.cur_block_offset == was.cur_block_offset
            &&& now.tail_block_id == was.tail_block_id
            &&& now.tail_offset == was.tail_offset
            &&& now.reads_since_persist == was.reads_since_persist
            &&& now.hydrated_from_index == was.hydrated_from_index
        }),
{
    let was = reader.cols[col].info;
    assert(other_file =~= elsewhere::<T>(path));
    law_purge_keeps_the_rest(was, path);
    was.chain.lemma_filter_len(elsewhere::<T>(path));
    if forall|i: int| 0 <= i < was.chain.len() ==> (#[trigger] was.chain[i]).file_path@ != path {
        lemma_nothing_to_purge(was.chain, path);
    }
}

/// A purge of a reader moves no reader's place: where no block from the cursor on lies
/// in the file, the same blocks come from the cursor on, one by one, and the position
/// in the first of them is the same.
pub proof fn law_purge_moves_no_place<T>(reader: ReaderView<T>, path: Seq<char>, col: Seq<char>)
    requires
        !reader.poisoned,
        reader.cols.contains_key(col),
        !reader.cols[col].poisoned,
        ({
            let was = reader.cols[col].info;
            &&& 0 <= was.cur_block_idx <= was.chain.len()
            &&& forall|i: int|
                was.cur_block_idx <= i < was.chain.len() ==> (#[trigger] was.chain[i]).file_path@
                    != path
        }),
    ensures
        ({
            let was = reader.cols[col].info;
            let now = reader.purge(path).cols[col].info;
            &&& 0 <= now.cur_block_idx <= now.chain.len()
            &&& now.chain.len() - now.cur_block_idx == was.chain.len() - was.cur_block_idx
            &&& forall|i: int|
                0 <= i < was.chain.len() - was.cur_block_idx ==> now.chain[now.cur_block_idx + i]
                    == #[trigger] was.chain[was.cur_block_idx + i]
            &&& now.cur_block_offset == was.cur_block_offset
        }),
{
    let was = reader.cols[col].info;
    let now = reader.purge(path).cols[col].info;
    law_purge_keeps_the_place(was, path);
    assert(now.ahead().len() == was.ahead().len());
    assert forall|i: int| 0 <= i < was.chain.len() - was.cur_block_idx implies now.chain[
    now.cur_block_idx + i] == #[trigger] was.chain[was.cur_block_idx + i] by {
        assert(now.ahead()[i] == now.chain[now.cur_block_idx + i]);
        assert(was.ahead()[i] == was.chain[was.cur_block_idx + i]);
    }
}

/// A purge leaves alone what cannot be entered, and neither makes nor takes a column.
pub proof fn law_purge_passes_over_the_poisoned<T>(
    reader: ReaderView<T>,
    path: Seq<char>,
    col: Seq<char>,
)
    ensures
        reader.poisoned ==> reader.purge(path) == reader,
        reader.purge(path).poisoned == reader.poisoned,
        reader.purge(path).cols.contains_key(col) == reader.cols.contains_key(col),
        reader.cols.contains_key(col) && reader.cols[col].poisoned ==> reader.purge(path).cols[col]
            == reader.cols[col],
{
}

} // verus!
