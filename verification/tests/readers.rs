use std::sync::Arc;
use walrus_runtime::block::Block;
use walrus_runtime::reader::{ColReaderInfo, Reader};
use walrus_runtime::registry::{
    purge_file_from_readers, reader_registry, register_reader, LiveReaders,
};
use walrus_runtime::sync::{Guarded, LockError, WriteOnce};

fn block(id: u64, path: &str, used: u64) -> Block<u8> {
    Block { id, file_path: path.to_string(), used, mmap: Arc::new(0) }
}

fn column<'a>(reader: &'a Reader<u8>, col: &str) -> &'a ColReaderInfo<u8> {
    &reader.data.value.get(col).unwrap().value
}

fn ids(info: &ColReaderInfo<u8>) -> Vec<u64> {
    info.chain.iter().map(|b| b.id).collect()
}

#[test]
fn the_first_block_makes_the_column() {
    let mut reader: Reader<u8> = Reader::new();
    assert_eq!(reader.append_block_to_chain("c", block(5, "f", 10)), Ok(()));
    let info = column(&reader, "c");
    assert_eq!(ids(info), vec![5]);
    assert_eq!(info.cur_block_idx, 0);
    assert_eq!(info.cur_block_offset, 0);
    assert_eq!(info.reads_since_persist, 0);
    assert_eq!(info.tail_block_id, 0);
    assert_eq!(info.tail_offset, 0);
    assert!(!info.hydrated_from_index);
}

#[test]
fn blocks_come_behind_one_another() {
    let mut reader: Reader<u8> = Reader::new();
    for id in 1..=3 {
        reader.append_block_to_chain("c", block(id, "f", 10)).unwrap();
    }
    reader.append_block_to_chain("d", block(9, "f", 10)).unwrap();
    assert_eq!(ids(column(&reader, "c")), vec![1, 2, 3]);
    assert_eq!(ids(column(&reader, "d")), vec![9]);
    assert_eq!(column(&reader, "c").cur_block_idx, 0);
}

#[test]
fn tail_progress_goes_over_to_the_sealed_block() {
    let mut info: ColReaderInfo<u8> = ColReaderInfo::new();
    info.append_block(block(1, "f", 10));
    info.tail_block_id = 2;
    info.tail_offset = 6;
    info.append_block(block(2, "f", 10));
    assert_eq!(info.cur_block_idx, 1);
    assert_eq!(info.cur_block_offset, 6);
    info.append_block(block(3, "f", 10));
    assert_eq!(info.cur_block_idx, 1);
    assert_eq!(info.cur_block_offset, 6);
}

#[test]
fn tail_progress_stops_at_the_last_entry() {
    let mut info: ColReaderInfo<u8> = ColReaderInfo::new();
    info.tail_block_id = 2;
    info.tail_offset = 60;
    info.append_block(block(2, "f", 10));
    assert_eq!(info.cur_block_idx, 0);
    assert_eq!(info.cur_block_offset, 10);
}

#[test]
fn a_poisoned_map_refuses_blocks() {
    let mut reader: Reader<u8> = Reader::new();
    reader.append_block_to_chain("c", block(1, "f", 10)).unwrap();
    reader.data.poison();
    let done = reader.append_block_to_chain("c", block(2, "f", 10));
    assert_eq!(done, Err(LockError::ReaderMapRead));
    assert_eq!(ids(column(&reader, "c")), vec![1]);
    assert_eq!(reader.ensure_column("d"), Err(LockError::ReaderMapWrite));
    reader.purge_file("f");
    assert_eq!(ids(column(&reader, "c")), vec![1]);
}

#[test]
fn a_poisoned_column_refuses_blocks_and_is_not_purged() {
    let mut reader: Reader<u8> = Reader::new();
    reader.append_block_to_chain("c", block(1, "f", 10)).unwrap();
    reader.append_block_to_chain("d", block(2, "f", 10)).unwrap();
    let at = reader.data.value.find("c").unwrap();
    reader.data.value.value_mut(at).poison();
    let done = reader.append_block_to_chain("c", block(3, "f", 10));
    assert_eq!(done, Err(LockError::ColInfoWrite));
    reader.purge_file("f");
    assert_eq!(ids(column(&reader, "c")), vec![1]);
    assert_eq!(ids(column(&reader, "d")), Vec::<u64>::new());
}

#[test]
fn errors_have_their_texts() {
    assert_eq!(LockError::ReaderMapRead.message(), "reader map read lock poisoned");
    assert_eq!(LockError::ReaderMapWrite.message(), "reader map write lock poisoned");
    assert_eq!(LockError::ColInfoWrite.message(), "col info write lock poisoned");
    assert_eq!(LockError::MmapKeeperRead.message(), "mmap keeper read lock poisoned");
    assert_eq!(LockError::MmapKeeperWrite.message(), "mmap keeper write lock poisoned");
}

fn mixed_chain() -> ColReaderInfo<u8> {
    let mut info: ColReaderInfo<u8> = ColReaderInfo::new();
    info.append_block(block(1, "old", 10));
    info.append_block(block(2, "mid", 10));
    info.append_block(block(3, "old", 10));
    info.append_block(block(4, "new", 10));
    info.append_block(block(5, "new", 10));
    info
}

#[test]
fn a_purge_keeps_the_place_of_a_reader_that_is_past_the_file() {
    let mut info = mixed_chain();
    info.cur_block_idx = 3;
    info.cur_block_offset = 7;
    info.purge_blocks("old");
    assert_eq!(ids(&info), vec![2, 4, 5]);
    assert_eq!(info.cur_block_idx, 1);
    assert_eq!(info.chain[info.cur_block_idx].id, 4);
    assert_eq!(info.cur_block_offset, 7);
}

#[test]
fn a_purge_at_the_end_of_the_chain_stays_at_the_end() {
    let mut info = mixed_chain();
    info.cur_block_idx = 5;
    info.purge_blocks("new");
    assert_eq!(ids(&info), vec![1, 2, 3]);
    assert_eq!(info.cur_block_idx, 3);
}

#[test]
fn a_purge_never_moves_the_cursor_out_of_the_chain() {
    let mut info = mixed_chain();
    info.cur_block_idx = 1;
    info.purge_blocks("old");
    assert_eq!(info.cur_block_idx, 0);
    let mut far = mixed_chain();
    far.cur_block_idx = 50;
    far.purge_blocks("new");
    assert_eq!(far.cur_block_idx, 3);
    far.cur_block_idx = 50;
    far.purge_blocks("new");
    assert_eq!(far.cur_block_idx, 50);
}

#[test]
fn purging_twice_is_purging_once() {
    let mut once = mixed_chain();
    once.cur_block_idx = 4;
    once.purge_blocks("old");
    let before = (ids(&once), once.cur_block_idx);
    once.purge_blocks("old");
    assert_eq!((ids(&once), once.cur_block_idx), before);
}

#[test]
fn files_can_be_purged_in_either_order() {
    let mut a = mixed_chain();
    a.cur_block_idx = 4;
    a.purge_blocks("old");
    a.purge_blocks("mid");
    let mut b = mixed_chain();
    b.cur_block_idx = 4;
    b.purge_blocks("mid");
    b.purge_blocks("old");
    assert_eq!((ids(&a), a.cur_block_idx), (ids(&b), b.cur_block_idx));
    assert_eq!(ids(&a), vec![4, 5]);
    assert_eq!(a.cur_block_idx, 1);
}

#[test]
fn a_purge_lets_go_of_the_mapped_file() {
    let shared = Arc::new(0u8);
    let mut info: ColReaderInfo<u8> = ColReaderInfo::new();
    info.append_block(Block {
        id: 1,
        file_path: "f".to_string(),
        used: 1,
        mmap: Arc::clone(&shared),
    });
    assert_eq!(Arc::strong_count(&shared), 2);
    info.purge_blocks("f");
    assert_eq!(Arc::strong_count(&shared), 1);
}

#[test]
fn the_registry_is_made_once() {
    let mut cell: WriteOnce<Guarded<Vec<u64>>> = WriteOnce::new();
    assert!(reader_registry(&mut cell).value.is_empty());
    reader_registry(&mut cell).value.push(4);
    assert_eq!(reader_registry(&mut cell).value, vec![4]);
}

#[test]
fn registering_drops_readers_that_nobody_holds() {
    let mut live: LiveReaders<u8> = LiveReaders::new();
    let mut registry = Guarded::new(Vec::new());
    let a = live.add(Reader::new());
    register_reader(&mut registry, &live, a);
    let b = live.add(Reader::new());
    register_reader(&mut registry, &live, b);
    assert_eq!(registry.value, vec![a, b]);
    assert!(live.release(a).is_some());
    assert!(live.release(a).is_none());
    let c = live.add(Reader::new());
    register_reader(&mut registry, &live, c);
    assert_eq!(registry.value, vec![b, c]);
    registry.poison();
    register_reader(&mut registry, &live, c);
    assert_eq!(registry.value, vec![b, c]);
}

#[test]
fn a_purge_goes_to_the_listed_readers() {
    let mut live: LiveReaders<u8> = LiveReaders::new();
    let mut registry = Guarded::new(Vec::new());
    for listed in [true, false, true] {
        let mut reader: Reader<u8> = Reader::new();
        reader.append_block_to_chain("c", block(1, "f", 10)).unwrap();
        reader.append_block_to_chain("c", block(2, "g", 10)).unwrap();
        let id = live.add(reader);
        if listed {
            register_reader(&mut registry, &live, id);
        }
    }
    purge_file_from_readers(&registry, &mut live, "f");
    let left: Vec<Vec<u64>> =
        live.readers.iter().map(|r| ids(column(&r.reader, "c"))).collect();
    assert_eq!(left, vec![vec![2], vec![1, 2], vec![2]]);
    registry.poison();
    purge_file_from_readers(&registry, &mut live, "g");
    assert_eq!(ids(column(&live.readers[0].reader, "c")), vec![2]);
}

#[test]
fn a_cursor_behind_the_chain_is_purged_alike_in_either_order() {
    let mut a = mixed_chain();
    a.cur_block_idx = 9;
    a.purge_blocks("old");
    a.purge_blocks("mid");
    let mut b = mixed_chain();
    b.cur_block_idx = 9;
    b.purge_blocks("mid");
    b.purge_blocks("old");
    assert_eq!((ids(&a), a.cur_block_idx), (ids(&b), b.cur_block_idx));
    assert_eq!(a.cur_block_idx, 2);
}

#[test]
fn files_can_be_purged_from_a_reader_in_either_order() {
    let build = || {
        let mut reader: Reader<u8> = Reader::new();
        for (col, id, path) in [("c", 1, "f"), ("c", 2, "g"), ("d", 3, "g"), ("d", 4, "h")] {
            reader.append_block_to_chain(col, block(id, path, 10)).unwrap();
        }
        reader
    };
    let mut a = build();
    a.purge_file("f");
    a.purge_file("g");
    let mut b = build();
    b.purge_file("g");
    b.purge_file("f");
    for col in ["c", "d"] {
        assert_eq!(ids(column(&a, col)), ids(column(&b, col)));
    }
    assert_eq!(ids(column(&a, "c")), Vec::<u64>::new());
    assert_eq!(ids(column(&a, "d")), vec![4]);
}

#[test]
fn a_column_keeps_its_place() {
    let mut reader: Reader<u8> = Reader::new();
    reader.append_block_to_chain("c", block(1, "f", 10)).unwrap();
    let at = reader.find_column("c").unwrap().unwrap();
    let other = reader.ensure_column("d").unwrap();
    assert_ne!(at, other);
    assert_eq!(reader.ensure_column("c"), Ok(at));
    reader.append_block_to_chain("e", block(2, "f", 10)).unwrap();
    reader.purge_file("f");
    assert_eq!(reader.find_column("c"), Ok(Some(at)));
    assert_eq!(reader.find_column("d"), Ok(Some(other)));
    assert_eq!(reader.find_column("x"), Ok(None));
    assert_eq!(reader.append_to_column(at, block(3, "g", 10)), Ok(()));
    assert_eq!(ids(column(&reader, "c")), vec![3]);
    assert_eq!(ids(column(&reader, "d")), Vec::<u64>::new());
}

#[test]
fn an_append_leaves_the_tail_alone() {
    let mut info: ColReaderInfo<u8> = ColReaderInfo::new();
    info.tail_block_id = 2;
    info.tail_offset = 6;
    info.reads_since_persist = 3;
    info.hydrated_from_index = true;
    info.append_block(block(2, "f", 10));
    info.purge_blocks("f");
    assert_eq!((info.tail_block_id, info.tail_offset), (2, 6));
    assert_eq!(info.reads_since_persist, 3);
    assert!(info.hydrated_from_index);
}
