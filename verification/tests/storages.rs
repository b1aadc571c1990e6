use memmap2::MmapMut;
use std::sync::Arc;
use walrus_runtime::config::FsyncSchedule;
use walrus_runtime::keeper::{Look, MmapLookup, SharedMmapKeeper};
use walrus_runtime::storage::{
    create_storage_impl, fsync_schedule, open_storage_for_path, set_fsync_schedule,
    should_use_o_sync, stamp, FdBackend, FileStep, OpenPlan, SharedMmap, StorageImpl,
};
use walrus_runtime::sync::{Guarded, LockError, WriteOnce};

fn mapping(len: usize) -> StorageImpl<u8> {
    StorageImpl::Mmap(MmapMut::map_anon(len).unwrap())
}

fn descriptor(len: u64) -> StorageImpl<u8> {
    StorageImpl::Fd(FdBackend::new(0u8, 3, len))
}

#[test]
fn a_mapping_gives_back_what_was_written() {
    let mut storage = mapping(16);
    assert_eq!(storage.len(), 16);
    assert_eq!(storage.write(4, &[1, 2, 3]), FileStep::Done);
    let mut all = [9u8; 16];
    assert_eq!(storage.read(0, &mut all), FileStep::Done);
    assert_eq!(all, [0, 0, 0, 0, 1, 2, 3, 0, 0, 0, 0, 0, 0, 0, 0, 0]);
    let mut part = [9u8; 2];
    storage.read(5, &mut part);
    assert_eq!(part, [2, 3]);
    assert_eq!(storage.len(), 16);
}

#[test]
fn a_write_to_the_last_byte_fits() {
    let mut storage = mapping(4);
    storage.write(3, &[7]);
    storage.write(4, &[]);
    let mut all = [0u8; 4];
    storage.read(0, &mut all);
    assert_eq!(all, [0, 0, 0, 7]);
}

#[test]
fn a_descriptor_leaves_the_transfer_to_the_file() {
    let mut storage = descriptor(8);
    assert_eq!(storage.len(), 8);
    assert_eq!(storage.write(100, &[1, 2]), FileStep::At(100));
    let mut dest = [5u8; 2];
    assert_eq!(storage.read(2, &mut dest), FileStep::At(2));
    assert_eq!(dest, [5, 5]);
    assert_eq!(storage.as_fd().unwrap().raw_fd, 3);
    assert_eq!(*storage.as_fd().unwrap().file(), 0);
    assert!(mapping(4).as_fd().is_none());
}

#[test]
fn a_shared_file_is_stamped_when_it_is_touched() {
    let mut shared = SharedMmap::new(mapping(8), Some(1234));
    assert_eq!(shared.last_touched_at, 1234);
    assert_eq!(shared.len(), 8);
    shared.write(0, &[1]);
    assert_eq!(shared.last_touched_at, 1234);
    shared.touch(None);
    assert_eq!(shared.last_touched_at, 0);
    let mut dest = [0u8; 1];
    shared.read(0, &mut dest);
    assert_eq!(dest, [1]);
    assert_eq!(shared.storage().len(), 8);
}

#[test]
fn a_stamp_keeps_the_low_bits() {
    assert_eq!(stamp(Some(1_700_000_000_000)), 1_700_000_000_000);
    assert_eq!(stamp(Some(u64::MAX as u128 + 6)), 5);
    assert_eq!(stamp(None), 0);
}

#[test]
fn what_does_not_fit_is_refused() {
    let mut shared = SharedMmap::new(mapping(8), None);
    assert_eq!(shared.try_write(6, &[1, 2, 3]), None);
    assert_eq!(shared.try_write(9, &[]), None);
    assert_eq!(shared.try_write(usize::MAX, &[1]), None);
    assert_eq!(shared.try_write(6, &[1, 2]), Some(FileStep::Done));
    let mut dest = [0u8; 3];
    assert_eq!(shared.try_read(6, &mut dest), None);
    assert_eq!(dest, [0, 0, 0]);
    assert_eq!(shared.try_read(5, &mut dest), Some(FileStep::Done));
    assert_eq!(dest, [0, 1, 2]);
    let mut file = SharedMmap::new(descriptor(8), None);
    assert_eq!(file.try_write(8, &[1]), None);
    assert_eq!(file.try_write(7, &[1]), Some(FileStep::At(7)));
}

#[test]
fn the_first_schedule_stays() {
    let mut cell: WriteOnce<FsyncSchedule> = WriteOnce::new();
    assert_eq!(fsync_schedule(&cell), None);
    assert!(!should_use_o_sync(&cell));
    set_fsync_schedule(&mut cell, FsyncSchedule::SyncEach);
    set_fsync_schedule(&mut cell, FsyncSchedule::NoFsync);
    assert_eq!(fsync_schedule(&cell), Some(FsyncSchedule::SyncEach));
    assert!(should_use_o_sync(&cell));
    let mut other: WriteOnce<FsyncSchedule> = WriteOnce::new();
    set_fsync_schedule(&mut other, FsyncSchedule::Milliseconds(5));
    assert!(!should_use_o_sync(&other));
}

#[test]
fn a_place_is_filled_once() {
    let mut cell: WriteOnce<u8> = WriteOnce::new();
    assert_eq!(cell.get(), None);
    assert_eq!(cell.set(1), Ok(()));
    assert_eq!(cell.set(2), Err(2));
    assert_eq!(cell.get(), Some(&1));
    assert_eq!(*cell.get_or_init(3), 1);
}

#[test]
fn files_are_opened_as_the_backend_says() {
    let mut cell: WriteOnce<FsyncSchedule> = WriteOnce::new();
    assert!(matches!(
        create_storage_impl("p", false, &cell),
        OpenPlan::Mapping { path } if path == "p"
    ));
    assert!(matches!(
        create_storage_impl("p", true, &cell),
        OpenPlan::Descriptor { path, o_sync: false } if path == "p"
    ));
    set_fsync_schedule(&mut cell, FsyncSchedule::SyncEach);
    assert!(matches!(
        open_storage_for_path("q", true, &cell),
        OpenPlan::Descriptor { path, o_sync: true } if path == "q"
    ));
    assert!(matches!(open_storage_for_path("q", false, &cell), OpenPlan::Mapping { .. }));
}

fn quiet_search(lock: &Guarded<SharedMmapKeeper<u8>>, path: &str) -> MmapLookup<u8> {
    let mut look = Look::First;
    loop {
        match SharedMmapKeeper::get_mmap_arc(look, lock, path) {
            MmapLookup::Next(next) => look = next,
            other => return other,
        }
    }
}

#[test]
fn everybody_gets_the_same_file() {
    let mut lock: Guarded<SharedMmapKeeper<u8>> = Guarded::new(SharedMmapKeeper::new());
    assert!(matches!(quiet_search(&lock, "p"), MmapLookup::Open));
    let opened = lock.value.opened::<()>("p", Ok(Arc::new(7))).unwrap();
    assert_eq!(Arc::strong_count(&opened), 2);
    for look in [Look::First, Look::Again, Look::BeforeOpen] {
        match SharedMmapKeeper::get_mmap_arc(look, &lock, "p") {
            MmapLookup::Found(found) => assert!(Arc::ptr_eq(&found, &opened)),
            _ => panic!("not found"),
        }
    }
    assert!(matches!(quiet_search(&lock, "q"), MmapLookup::Open));
    let fast = SharedMmapKeeper::get_mmap_arc_read(&lock, "p").unwrap();
    assert!(Arc::ptr_eq(&fast, &opened));
}

#[test]
fn a_search_looks_three_times_before_it_opens() {
    let lock: Guarded<SharedMmapKeeper<u8>> = Guarded::new(SharedMmapKeeper::new());
    assert!(matches!(
        SharedMmapKeeper::get_mmap_arc(Look::First, &lock, "p"),
        MmapLookup::Next(Look::Again)
    ));
    assert!(matches!(
        SharedMmapKeeper::get_mmap_arc(Look::Again, &lock, "p"),
        MmapLookup::Next(Look::BeforeOpen)
    ));
    assert!(matches!(
        SharedMmapKeeper::get_mmap_arc(Look::BeforeOpen, &lock, "p"),
        MmapLookup::Open
    ));
}

#[test]
fn an_evicted_file_is_closed_and_opened_anew() {
    let mut lock: Guarded<SharedMmapKeeper<u8>> = Guarded::new(SharedMmapKeeper::new());
    let opened = lock.value.opened::<()>("p", Ok(Arc::new(7))).unwrap();
    lock.value.opened::<()>("q", Ok(Arc::new(8))).unwrap();
    SharedMmapKeeper::evict(&mut lock, "p");
    assert_eq!(Arc::strong_count(&opened), 1);
    assert!(matches!(quiet_search(&lock, "p"), MmapLookup::Open));
    assert!(matches!(quiet_search(&lock, "q"), MmapLookup::Found(_)));
    SharedMmapKeeper::evict(&mut lock, "p");
}

#[test]
fn a_file_that_did_not_open_is_not_kept() {
    let mut lock: Guarded<SharedMmapKeeper<u8>> = Guarded::new(SharedMmapKeeper::new());
    assert_eq!(lock.value.opened("p", Err("no such file")), Err("no such file"));
    assert!(matches!(quiet_search(&lock, "p"), MmapLookup::Open));
}

#[test]
fn a_poisoned_keeper_answers_with_errors() {
    let mut lock: Guarded<SharedMmapKeeper<u8>> = Guarded::new(SharedMmapKeeper::new());
    let opened = lock.value.opened::<()>("p", Ok(Arc::new(7))).unwrap();
    lock.poison();
    assert!(SharedMmapKeeper::get_mmap_arc_read(&lock, "p").is_none());
    assert!(matches!(
        quiet_search(&lock, "p"),
        MmapLookup::Failed(LockError::MmapKeeperRead)
    ));
    assert!(matches!(
        SharedMmapKeeper::get_mmap_arc(Look::BeforeOpen, &lock, "p"),
        MmapLookup::Failed(LockError::MmapKeeperWrite)
    ));
    SharedMmapKeeper::evict(&mut lock, "p");
    assert_eq!(Arc::strong_count(&opened), 2);
}

#[test]
fn the_keeper_is_made_once() {
    let mut cell: WriteOnce<Guarded<SharedMmapKeeper<u8>>> = WriteOnce::new();
    SharedMmapKeeper::keeper_lock(&mut cell).value.opened::<()>("p", Ok(Arc::new(1))).unwrap();
    let lock = SharedMmapKeeper::keeper_lock(&mut cell);
    assert!(matches!(quiet_search(lock, "p"), MmapLookup::Found(_)));
}

#[test]
fn a_file_gives_back_what_was_written_through_a_descriptor() {
    let mut file = vec![0u8; 8];
    let mut storage = descriptor(8);
    match storage.write(3, &[4, 5]) {
        FileStep::At(at) => file[at as usize..at as usize + 2].copy_from_slice(&[4, 5]),
        FileStep::Done => panic!("the file was left out"),
    }
    let mut dest = [9u8; 2];
    match storage.read(3, &mut dest) {
        FileStep::At(at) => dest.copy_from_slice(&file[at as usize..at as usize + 2]),
        FileStep::Done => panic!("the file was left out"),
    }
    assert_eq!(dest, [4, 5]);
    assert_eq!(file, vec![0, 0, 0, 4, 5, 0, 0, 0]);
}
