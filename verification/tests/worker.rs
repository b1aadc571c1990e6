use memmap2::MmapMut;
use std::sync::Arc;
use walrus_runtime::background::{
    release_file, sleep_millis, start_background_workers, Action, Event, Worker,
};
use walrus_runtime::block::Block;
use walrus_runtime::config::FsyncSchedule;
use walrus_runtime::keeper::SharedMmapKeeper;
use walrus_runtime::reader::Reader;
use walrus_runtime::registry::{register_reader, LiveReaders};
use walrus_runtime::storage::{FdBackend, StorageImpl};
use walrus_runtime::sync::Guarded;

fn names(list: &[&str]) -> Event<u8> {
    Event::Requests(list.iter().map(|s| s.to_string()).collect())
}

fn descriptor(raw_fd: i32) -> Event<u8> {
    Event::Opened(Some(StorageImpl::Fd(FdBackend::new(0, raw_fd, 8))))
}

fn mapping() -> Event<u8> {
    Event::Opened(Some(StorageImpl::Mmap(MmapMut::map_anon(8).unwrap())))
}

/// Runs a round in which nothing happens, from sleep to sleep.
fn idle_round(worker: &mut Worker<u8>) {
    assert!(matches!(worker.next(Event::Done), Action::DrainFlushRequests));
    assert!(matches!(worker.next(names(&[])), Action::AskBackend));
    assert!(matches!(
        worker.next(Event::DescriptorsInUse(true)),
        Action::DrainDeleteRequests
    ));
    assert!(matches!(worker.next(names(&[])), Action::Sleep(_)));
}

#[test]
fn the_schedule_sets_the_sleep() {
    assert_eq!(sleep_millis(FsyncSchedule::Milliseconds(200)), 200);
    assert_eq!(sleep_millis(FsyncSchedule::Milliseconds(0)), 1);
    assert_eq!(sleep_millis(FsyncSchedule::SyncEach), 5000);
    assert_eq!(sleep_millis(FsyncSchedule::NoFsync), 10000);
    let (_, action) = start_background_workers::<u8>(FsyncSchedule::Milliseconds(30));
    assert!(matches!(action, Action::Sleep(30)));
}

#[test]
fn an_idle_round_does_nothing() {
    let (mut worker, _) = start_background_workers::<u8>(FsyncSchedule::NoFsync);
    idle_round(&mut worker);
    idle_round(&mut worker);
}

#[test]
fn each_requested_file_is_opened_once_and_synced_in_one_batch() {
    let (mut worker, _) = start_background_workers::<u8>(FsyncSchedule::NoFsync);
    worker.next(Event::Done);
    let action = worker.next(names(&["a", "b", "a", "gone", "m", "broken"]));
    assert!(matches!(action, Action::CheckExists(p) if p == "a"));
    assert!(matches!(worker.next(Event::Exists(true)), Action::Open(p) if p == "a"));
    assert!(matches!(worker.next(descriptor(11)), Action::CheckExists(p) if p == "b"));
    assert!(matches!(worker.next(Event::Exists(true)), Action::Open(p) if p == "b"));
    assert!(matches!(worker.next(descriptor(12)), Action::CheckExists(p) if p == "gone"));
    assert!(matches!(worker.next(Event::Exists(false)), Action::CheckExists(p) if p == "m"));
    assert!(matches!(worker.next(Event::Exists(true)), Action::Open(p) if p == "m"));
    assert!(matches!(worker.next(mapping()), Action::CheckExists(p) if p == "broken"));
    assert!(matches!(worker.next(Event::Exists(true)), Action::Open(p) if p == "broken"));
    assert!(matches!(worker.next(Event::Opened(None)), Action::AskBackend));
    assert!(worker.storage("a").is_some());
    assert!(worker.storage("broken").is_none());

    match worker.next(Event::DescriptorsInUse(true)) {
        Action::Push(entry) => {
            assert_eq!(entry.get_user_data(), 0);
            assert_eq!(entry.get_opcode(), 3);
        }
        _ => panic!("no request"),
    }
    match worker.next(Event::Pushed(true)) {
        Action::Push(entry) => assert_eq!(entry.get_user_data(), 1),
        _ => panic!("no request"),
    }
    assert!(matches!(worker.next(Event::Pushed(true)), Action::SubmitAndWait(2)));
    assert!(matches!(worker.next(Event::Done), Action::TakeCompletion));
    assert_eq!(worker.failed_sync(1, -5), Some(&"b".to_string()));
    assert_eq!(worker.failed_sync(0, -5), Some(&"a".to_string()));
    assert_eq!(worker.failed_sync(0, 0), None);
    assert_eq!(worker.failed_sync(2, -5), None);
    assert!(matches!(worker.next(Event::Done), Action::TakeCompletion));
    assert!(matches!(worker.next(Event::Done), Action::DrainDeleteRequests));
    assert!(matches!(worker.next(names(&[])), Action::Sleep(10000)));
}

#[test]
fn an_open_file_is_not_opened_again() {
    let (mut worker, _) = start_background_workers::<u8>(FsyncSchedule::NoFsync);
    worker.next(Event::Done);
    worker.next(names(&["a"]));
    worker.next(Event::Exists(true));
    worker.next(descriptor(11));
    worker.next(Event::DescriptorsInUse(true));
    worker.next(Event::Pushed(true));
    worker.next(Event::Done);
    worker.next(Event::Done);
    worker.next(names(&[]));
    worker.next(Event::Done);
    worker.next(names(&["a"]));
    assert!(matches!(worker.next(Event::Exists(true)), Action::AskBackend));
}

#[test]
fn a_full_ring_is_emptied_and_the_request_repeated() {
    let (mut worker, _) = start_background_workers::<u8>(FsyncSchedule::NoFsync);
    worker.next(Event::Done);
    worker.next(names(&["a", "b"]));
    worker.next(Event::Exists(true));
    worker.next(descriptor(11));
    worker.next(Event::Exists(true));
    worker.next(descriptor(12));
    worker.next(Event::DescriptorsInUse(true));
    worker.next(Event::Pushed(true));
    assert!(matches!(worker.next(Event::Pushed(false)), Action::Submit));
    match worker.next(Event::Done) {
        Action::PushAgain(entry) => assert_eq!(entry.get_user_data(), 1),
        _ => panic!("no request"),
    }
    assert!(matches!(worker.next(Event::Done), Action::SubmitAndWait(2)));
}

#[test]
fn without_descriptors_each_open_file_is_flushed() {
    let (mut worker, _) = start_background_workers::<u8>(FsyncSchedule::NoFsync);
    worker.next(Event::Done);
    worker.next(names(&["a", "gone", "b"]));
    worker.next(Event::Exists(true));
    worker.next(mapping());
    worker.next(Event::Exists(false));
    worker.next(Event::Exists(true));
    worker.next(descriptor(4));
    let action = worker.next(Event::DescriptorsInUse(false));
    assert!(matches!(action, Action::Flush(p) if p == "a"));
    assert!(matches!(worker.next(Event::Done), Action::Flush(p) if p == "b"));
    assert!(matches!(worker.next(Event::Done), Action::DrainDeleteRequests));
}

#[test]
fn a_deleted_file_is_closed_then_released_then_unlinked() {
    let (mut worker, _) = start_background_workers::<u8>(FsyncSchedule::NoFsync);
    worker.next(Event::Done);
    worker.next(names(&["a", "b"]));
    worker.next(Event::Exists(true));
    worker.next(mapping());
    worker.next(Event::Exists(true));
    worker.next(mapping());
    worker.next(Event::DescriptorsInUse(true));
    let action = worker.next(names(&["a", "x", "a"]));
    assert!(matches!(action, Action::Release(p) if p == "a"));
    assert!(worker.storage("a").is_none());
    assert!(worker.storage("b").is_some());
    assert!(matches!(worker.next(Event::Done), Action::Unlink(p) if p == "a"));
    assert!(matches!(worker.next(Event::Done), Action::Release(p) if p == "x"));
    assert!(matches!(worker.next(Event::Done), Action::Unlink(p) if p == "x"));
    assert!(matches!(worker.next(Event::Done), Action::Sleep(_)));
    idle_round(&mut worker);
}

#[test]
fn the_pool_is_closed_in_the_thousandth_round() {
    let (mut worker, _) = start_background_workers::<u8>(FsyncSchedule::NoFsync);
    worker.next(Event::Done);
    worker.next(names(&["a"]));
    worker.next(Event::Exists(true));
    worker.next(mapping());
    worker.next(Event::DescriptorsInUse(true));
    worker.next(names(&[]));
    for _ in 0..998 {
        idle_round(&mut worker);
    }
    assert!(worker.storage("a").is_some());
    idle_round(&mut worker);
    assert!(worker.storage("a").is_none());
}

#[test]
fn a_released_file_is_held_by_nobody() {
    let file = Arc::new(0u8);
    let mut keeper: Guarded<SharedMmapKeeper<u8>> = Guarded::new(SharedMmapKeeper::new());
    keeper.value.opened::<()>("f", Ok(Arc::clone(&file))).unwrap();
    let mut reader: Reader<u8> = Reader::new();
    reader
        .append_block_to_chain(
            "c",
            Block { id: 1, file_path: "f".to_string(), used: 1, mmap: Arc::clone(&file) },
        )
        .unwrap();
    let mut live: LiveReaders<u8> = LiveReaders::new();
    let mut registry = Guarded::new(Vec::new());
    let id = live.add(reader);
    register_reader(&mut registry, &live, id);
    assert_eq!(Arc::strong_count(&file), 3);
    release_file(&mut keeper, &registry, &mut live, "f");
    assert_eq!(Arc::strong_count(&file), 1);
}

#[test]
fn all_jobs_are_pushed_before_they_are_submitted() {
    let (mut worker, _) = start_background_workers::<u8>(FsyncSchedule::NoFsync);
    worker.next(Event::Done);
    worker.next(names(&["a", "b", "c"]));
    for raw_fd in [21, 22, 23] {
        worker.next(Event::Exists(true));
        worker.next(descriptor(raw_fd));
    }
    let mut action = worker.next(Event::DescriptorsInUse(true));
    for (number, room) in [(0, false), (1, true), (2, false)] {
        match action {
            Action::Push(entry) => assert_eq!(entry.get_user_data(), number),
            _ => panic!("no request"),
        }
        action = worker.next(Event::Pushed(room));
        if !room {
            assert!(matches!(action, Action::Submit));
            match worker.next(Event::Done) {
                Action::PushAgain(entry) => assert_eq!(entry.get_user_data(), number),
                _ => panic!("no request"),
            }
            action = worker.next(Event::Done);
        }
    }
    assert!(matches!(action, Action::SubmitAndWait(3)));
}
