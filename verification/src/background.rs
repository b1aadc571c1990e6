//! The background worker: it flushes files that were written, unlinks files that
//! were read to their end, and now and then closes the files that it keeps open.
//!
//! The worker only decides. [`Worker::next`] takes what came of the last action and
//! says which action is next; whoever drives it carries the action out.
//!
//! One round goes: sleep; take in the flush requests; open what is not open yet;
//! flush; take in the requests to delete; let go of each such file and unlink it.
use crate::config::FsyncSchedule;
use crate::keeper::{held_after_evict, SharedMmapKeeper};
use crate::name_map::{joined, NameMap, NameSet};
use crate::registry::{purge_file_from_readers, purge_registered, LiveReaders};
use crate::storage::StorageImpl;
use crate::sync::Guarded;
use crate::uring::{asks_to_sync, fsync_entry};
use io_uring::squeue;
use vstd::prelude::*;

verus! {

/// How many requests the ring holds.
pub const RING_ENTRIES: u32 = 2048;

/// After so many rounds every file that is kept open for flushing is closed.
pub const POOL_RESET_ROUNDS: u64 = 1000;

/// How long the worker sleeps between two rounds.
pub open spec fn sleep_of(schedule: FsyncSchedule) -> u64 {
    match schedule {
        FsyncSchedule::Milliseconds(ms) => if ms == 0 {
            1
        } else {
            ms
        },
        FsyncSchedule::SyncEach => 5000,
        FsyncSchedule::NoFsync => 10000,
    }
}

pub fn sleep_millis(schedule: FsyncSchedule) -> (millis: u64)
    ensures
        millis == sleep_of(schedule),
        millis >= 1,
        (schedule matches FsyncSchedule::Milliseconds(ms) ==> ms >= 1 ==> millis == ms),
        schedule == FsyncSchedule::Milliseconds(0) ==> millis == 1,
        schedule == FsyncSchedule::SyncEach ==> millis == 5000,
        schedule == FsyncSchedule::NoFsync ==> millis == 10000,
{
    match schedule {
        FsyncSchedule::Milliseconds(ms) => if ms == 0 {
            1
        } else {
            ms
        },
        FsyncSchedule::SyncEach => 5000,
        FsyncSchedule::NoFsync => 10000,
    }
}

/// Where in a round the worker is, that is, what it waits for.
#[derive(Clone, Copy, Debug, PartialEq, Eq, Structural)]
pub enum Stage {
    Asleep,
    /// The flush requests are being taken in.
    Collecting,
    /// Whether the requested file at this place exists.
    Checking(usize),
    /// The requested file at this place is being opened.
    Opening(usize),
    /// Which kind of storage is in use.
    Choosing,
    /// The sync request at this place goes into the ring.
    Pushing(usize),
    /// The ring was full at this place and is being emptied.
    RingFull(usize),
    /// The sync request at this place goes into the emptied ring.
    PushingAgain(usize),
    /// All sync requests are being carried out.
    Waiting,
    /// So many answers of the kernel were taken.
    Completing(usize),
    /// The file at this place of the list is being flushed by itself.
    Flushing(usize),
    /// The requests to delete are being taken in.
    Receiving,
    /// The keeper and the readers let go of the file at this place.
    Releasing(usize),
    /// The file at this place is being unlinked.
    Unlinking(usize),
}

/// What came of an action.
pub enum Event<F> {
    /// It was carried out. Whether it succeeded makes no difference.
    Done,
    /// These requests were waiting.
    Requests(Vec<String>),
    /// Whether the file exists.
    Exists(bool),
    /// The file that was opened, unless it could not be.
    Opened(Option<StorageImpl<F>>),
    /// Whether storages are file descriptors, and not mappings.
    DescriptorsInUse(bool),
    /// Whether the request found room in the ring.
    Pushed(bool),
}

/// What is to be done next, and the event that it ends in.
pub enum Action {
    /// Sleep for so many milliseconds: [`Event::Done`].
    Sleep(u64),
    /// Take in all waiting flush requests: [`Event::Requests`].
    DrainFlushRequests,
    /// [`Event::Exists`].
    CheckExists(String),
    /// Open the file for reading and writing: [`Event::Opened`].
    Open(String),
    /// [`Event::DescriptorsInUse`].
    AskBackend,
    /// Put the request into the ring: [`Event::Pushed`].
    Push(squeue::Entry),
    /// Hand what is in the ring to the kernel: [`Event::Done`].
    Submit,
    /// Put the request into the ring, where there is room now: [`Event::Done`].
    PushAgain(squeue::Entry),
    /// Hand what is in the ring to the kernel and wait for so many answers:
    /// [`Event::Done`].
    SubmitAndWait(usize),
    /// Take one answer of the kernel, if there is one: [`Event::Done`].
    TakeCompletion,
    /// Flush the open file of this name: [`Event::Done`].
    Flush(String),
    /// Take in all waiting requests to delete: [`Event::Requests`].
    DrainDeleteRequests,
    /// Call [`release_file`] on the file: [`Event::Done`].
    Release(String),
    /// [`Event::Done`].
    Unlink(String),
}

/// A sync request that is going to the ring: the descriptor and the file's name.
pub struct SyncJob {
    pub raw_fd: i32,
    pub path: String,
}

/// The mathematical content of a [`SyncJob`].
#[verifier::ext_equal]
pub struct SyncJobView {
    pub raw_fd: i32,
    pub path: Seq<char>,
}

impl SyncJob {
    pub open spec fn view(self) -> SyncJobView {
        SyncJobView { raw_fd: self.raw_fd, path: self.path@ }
    }
}

/// The mathematical content of an [`Event`].
#[verifier::ext_equal]
pub enum EventView<F> {
    Done,
    Requests(Seq<Seq<char>>),
    Exists(bool),
    Opened(Option<StorageImpl<F>>),
    DescriptorsInUse(bool),
    Pushed(bool),
}

impl<F> EventView<F> {
    /// The event brings no more requests than a list can hold.
    pub open spec fn fits(self) -> bool {
        self matches EventView::Requests(paths) ==> paths.len() <= usize::MAX
    }
}

/// The texts of the strings.
pub open spec fn texts(strings: Seq<String>) -> Seq<Seq<char>> {
    strings.map_values(|s: String| s@)
}

impl<F> Event<F> {
    pub open spec fn view(self) -> EventView<F> {
        match self {
            Event::Done => EventView::Done,
            Event::Requests(paths) => EventView::Requests(texts(paths@)),
            Event::Exists(b) => EventView::Exists(b),
            Event::Opened(storage) => EventView::Opened(storage),
            Event::DescriptorsInUse(b) => EventView::DescriptorsInUse(b),
            Event::Pushed(b) => EventView::Pushed(b),
        }
    }
}

/// What an [`Action`] asks for. A request to the ring stands for the descriptor that
/// it syncs and the number under which the kernel answers.
#[verifier::ext_equal]
pub enum ActionView {
    Sleep(u64),
    DrainFlushRequests,
    CheckExists(Seq<char>),
    Open(Seq<char>),
    AskBackend,
    Push(i32, u64),
    Submit,
    PushAgain(i32, u64),
    SubmitAndWait(nat),
    TakeCompletion,
    Flush(Seq<char>),
    DrainDeleteRequests,
    Release(Seq<char>),
    Unlink(Seq<char>),
}

impl Action {
    /// The action does what `asked` asks for.
    pub open spec fn does(self, asked: ActionView) -> bool {
        match (self, asked) {
            (Action::Sleep(ms), ActionView::Sleep(millis)) => ms == millis,
            (Action::DrainFlushRequests, ActionView::DrainFlushRequests) => true,
            (Action::CheckExists(p), ActionView::CheckExists(path)) => p@ == path,
            (Action::Open(p), ActionView::Open(path)) => p@ == path,
            (Action::AskBackend, ActionView::AskBackend) => true,
            (Action::Push(e), ActionView::Push(fd, number)) => asks_to_sync(e, fd, number),
            (Action::Submit, ActionView::Submit) => true,
            (Action::PushAgain(e), ActionView::PushAgain(fd, number)) => asks_to_sync(
                e,
                fd,
                number,
            ),
            (Action::SubmitAndWait(n), ActionView::SubmitAndWait(want)) => n == want,
            (Action::TakeCompletion, ActionView::TakeCompletion) => true,
            (Action::Flush(p), ActionView::Flush(path)) => p@ == path,
            (Action::DrainDeleteRequests, ActionView::DrainDeleteRequests) => true,
            (Action::Release(p), ActionView::Release(path)) => p@ == path,
            (Action::Unlink(p), ActionView::Unlink(path)) => p@ == path,
            _ => false,
        }
    }
}

/// The sync jobs for those of the files `paths` that are open as descriptors.
pub open spec fn sync_jobs<F>(
    paths: Seq<Seq<char>>,
    pool: Map<Seq<char>, StorageImpl<F>>,
) -> Seq<SyncJobView>
    decreases paths.len(),
{
    if paths.len() == 0 {
        Seq::empty()
    } else {
        let rest = sync_jobs(paths.drop_last(), pool);
        let path = paths.last();
        if pool.contains_key(path) {
            match pool[path] {
                StorageImpl::Fd(fd) => rest.push(SyncJobView { raw_fd: fd.raw_fd, path }),
                StorageImpl::Mmap(_) => rest,
            }
        } else {
            rest
        }
    }
}

/// Those of the files `paths` that are open.
pub open spec fn open_among<F>(
    paths: Seq<Seq<char>>,
    pool: Map<Seq<char>, StorageImpl<F>>,
) -> Seq<Seq<char>> {
    paths.filter(|p: Seq<char>| pool.contains_key(p))
}

/// The mathematical content of a [`Worker`].
#[verifier::ext_equal]
pub struct WorkerView<F> {
    pub stage: Stage,
    pub millis: u64,
    /// The files that are open for flushing.
    pub pool: Map<Seq<char>, StorageImpl<F>>,
    /// The files to flush in this round.
    pub requested: Seq<Seq<char>>,
    /// The sync jobs of this round.
    pub batch: Seq<SyncJobView>,
    /// The files of this round that are flushed one by one.
    pub singly: Seq<Seq<char>>,
    /// The files to delete.
    pub pending: Seq<Seq<char>>,
    /// The rounds since the pool was closed.
    pub tick: u64,
}

impl<F> WorkerView<F> {
    /// A worker before its first round.
    pub open spec fn fresh(millis: u64) -> Self {
        WorkerView {
            stage: Stage::Asleep,
            millis,
            pool: Map::empty(),
            requested: Seq::empty(),
            batch: Seq::empty(),
            singly: Seq::empty(),
            pending: Seq::empty(),
            tick: 0,
        }
    }

    /// What always holds: lists are no longer than can be, the places are within them,
    /// no file is listed twice, requests to delete wait only while they are dealt with,
    /// and a file that is about to be unlinked is not open.
    pub open spec fn ok(self) -> bool {
        &&& self.millis >= 1
        &&& self.tick < POOL_RESET_ROUNDS
        &&& self.requested.len() <= usize::MAX
        &&& self.batch.len() <= usize::MAX
        &&& self.singly.len() <= usize::MAX
        &&& self.pending.len() <= usize::MAX
        &&& self.requested.no_duplicates()
        &&& self.pending.no_duplicates()
        &&& match self.stage {
            Stage::Checking(i) | Stage::Opening(i) => i < self.requested.len(),
            Stage::Pushing(i)
            | Stage::RingFull(i)
            | Stage::PushingAgain(i)
            | Stage::Completing(i) => i < self.batch.len(),
            Stage::Waiting => self.batch.len() > 0,
            Stage::Flushing(i) => i < self.singly.len(),
            Stage::Releasing(i) | Stage::Unlinking(i) => {
                &&& i < self.pending.len()
                &&& forall|p: Seq<char>|
                    self.pending.contains(p) ==> !#[trigger] self.pool.contains_key(p)
            },
            Stage::Asleep | Stage::Collecting | Stage::Choosing | Stage::Receiving => true,
        }
        &&& (self.stage is Releasing || self.stage is Unlinking || self.pending.len() == 0)
    }

    /// The event is one that the action of this stage ends in.
    pub open spec fn expects(self, event: EventView<F>) -> bool {
        match self.stage {
            Stage::Collecting | Stage::Receiving => event is Requests,
            Stage::Checking(_) => event is Exists,
            Stage::Opening(_) => event is Opened,
            Stage::Choosing => event is DescriptorsInUse,
            Stage::Pushing(_) => event is Pushed,
            _ => event is Done,
        }
    }

    pub open spec fn at(self, stage: Stage) -> Self {
        WorkerView { stage, ..self }
    }

    /// Goes on with the requested file at place `i`, or with flushing.
    pub open spec fn check_from(self, i: int) -> (Self, ActionView) {
        if i < self.requested.len() {
            (self.at(Stage::Checking(i as usize)), ActionView::CheckExists(self.requested[i]))
        } else {
            (self.at(Stage::Choosing), ActionView::AskBackend)
        }
    }

    /// Goes on with the sync job at place `i`, or with carrying them out.
    pub open spec fn push_from(self, i: int) -> (Self, ActionView) {
        if i < self.batch.len() {
            (
                self.at(Stage::Pushing(i as usize)),
                ActionView::Push(self.batch[i].raw_fd, i as u64),
            )
        } else if self.batch.len() > 0 {
            (self.at(Stage::Waiting), ActionView::SubmitAndWait(self.batch.len()))
        } else {
            self.receive()
        }
    }

    /// Goes on after `i` answers were taken: as many as there are sync jobs.
    pub open spec fn complete_from(self, i: int) -> (Self, ActionView) {
        if i < self.batch.len() {
            (self.at(Stage::Completing(i as usize)), ActionView::TakeCompletion)
        } else {
            self.receive()
        }
    }

    /// Goes on with the file at place `i` of those that are flushed one by one.
    pub open spec fn flush_from(self, i: int) -> (Self, ActionView) {
        if i < self.singly.len() {
            (self.at(Stage::Flushing(i as usize)), ActionView::Flush(self.singly[i]))
        } else {
            self.receive()
        }
    }

    /// Goes on with the requests to delete.
    pub open spec fn receive(self) -> (Self, ActionView) {
        (self.at(Stage::Receiving), ActionView::DrainDeleteRequests)
    }

    /// Goes on with the file to delete at place `i`, or ends the round.
    pub open spec fn release_from(self, i: int) -> (Self, ActionView) {
        if i < self.pending.len() {
            (self.at(Stage::Releasing(i as usize)), ActionView::Release(self.pending[i]))
        } else {
            (self.rested(), ActionView::Sleep(self.millis))
        }
    }

    /// The worker at the end of a round. Once in so many rounds the pool is closed.
    pub open spec fn rested(self) -> Self {
        let done = WorkerView { stage: Stage::Asleep, pending: Seq::empty(), ..self };
        if self.tick + 1 >= POOL_RESET_ROUNDS {
            WorkerView { tick: 0, pool: Map::empty(), ..done }
        } else {
            WorkerView { tick: (self.tick + 1) as u64, ..done }
        }
    }

    /// What the worker does when its last action ended in `event`.
    pub open spec fn next(self, event: EventView<F>) -> (Self, ActionView) {
        match (self.stage, event) {
            (Stage::Asleep, _) => (self.at(Stage::Collecting), ActionView::DrainFlushRequests),
            (Stage::Collecting, EventView::Requests(paths)) => WorkerView {
                requested: joined(Seq::empty(), paths),
                ..self
            }.check_from(0),
            (Stage::Checking(i), EventView::Exists(exists)) => if exists
                && !self.pool.contains_key(self.requested[i as int]) {
                (self.at(Stage::Opening(i)), ActionView::Open(self.requested[i as int]))
            } else {
                self.check_from(i + 1)
            },
            (Stage::Opening(i), EventView::Opened(opened)) => WorkerView {
                pool: match opened {
                    Some(storage) => self.pool.insert(self.requested[i as int], storage),
                    None => self.pool,
                },
                ..self
            }.check_from(i + 1),
            (Stage::Choosing, EventView::DescriptorsInUse(descriptors)) => if descriptors {
                WorkerView { batch: sync_jobs(self.requested, self.pool), ..self }.push_from(0)
            } else {
                WorkerView { singly: open_among(self.requested, self.pool), ..self }.flush_from(0)
            },
            (Stage::Pushing(i), EventView::Pushed(room)) => if room {
                self.push_from(i + 1)
            } else {
                (self.at(Stage::RingFull(i)), ActionView::Submit)
            },
            (Stage::RingFull(i), _) => (
                self.at(Stage::PushingAgain(i)),
                ActionView::PushAgain(self.batch[i as int].raw_fd, i as u64),
            ),
            (Stage::PushingAgain(i), _) => self.push_from(i + 1),
            (Stage::Waiting, _) => self.complete_from(0),
            (Stage::Completing(i), _) => self.complete_from(i + 1),
            (Stage::Flushing(i), _) => self.flush_from(i + 1),
            (Stage::Receiving, EventView::Requests(paths)) => {
                let pending = joined(self.pending, paths);
                WorkerView {
                    pending,
                    pool: self.pool.remove_keys(pending.to_set()),
                    ..self
                }.release_from(0)
            },
            (Stage::Releasing(i), _) => (
                self.at(Stage::Unlinking(i)),
                ActionView::Unlink(self.pending[i as int]),
            ),
            (Stage::Unlinking(i), _) => self.release_from(i + 1),
            // No other event is expected.
            _ => arbitrary(),
        }
    }
}

/// The background worker. `F` stands for an open file.
pub struct Worker<F> {
    stage: Stage,
    millis: u64,
    pool: NameMap<StorageImpl<F>>,
    requested: NameSet,
    batch: Vec<SyncJob>,
    singly: Vec<String>,
    pending: NameSet,
    tick: u64,
}

/// Makes the worker for `schedule`, and says what it does first.
pub fn start_background_workers<F>(schedule: FsyncSchedule) -> (started: (Worker<F>, Action))
    ensures
        started.0.wf(),
        started.0@ == WorkerView::<F>::fresh(sleep_of(schedule)),
        started.0@.ok(),
        started.1.does(ActionView::Sleep(sleep_of(schedule))),
        started.0@.stage == Stage::Asleep,
        started.0@.tick == 0,
        forall|p: Seq<char>| !#[trigger] started.0@.pool.contains_key(p),
        started.1 matches Action::Sleep(millis) && {
            &&& millis == started.0@.millis
            &&& (schedule matches FsyncSchedule::Milliseconds(ms) ==> ms >= 1 ==> millis == ms)
            &&& schedule == FsyncSchedule::Milliseconds(0) ==> millis == 1
            &&& schedule == FsyncSchedule::SyncEach ==> millis == 5000
            &&& schedule == FsyncSchedule::NoFsync ==> millis == 10000
        },
{
    let millis: u64 = sleep_millis(schedule);
    let worker = Worker {
        stage: Stage::Asleep,
        millis,
        pool: NameMap::new(),
        requested: NameSet::new(),
        batch: Vec::new(),
        singly: Vec::new(),
        pending: NameSet::new(),
        tick: 0,
    };
    assert(worker@ =~= WorkerView::fresh(millis));
    (worker, Action::Sleep(millis))
}

impl<F> Worker<F> {
    pub closed spec fn view(self) -> WorkerView<F> {
        WorkerView {
            stage: self.stage,
            millis: self.millis,
            pool: self.pool@,
            requested: self.requested@,
            batch: self.batch@.map_values(|j: SyncJob| j@),
            singly: texts(self.singly@),
            pending: self.pending@,
            tick: self.tick,
        }
    }

    pub closed spec fn wf(self) -> bool {
        &&& self.pool.wf()
        &&& self.requested.wf()
        &&& self.pending.wf()
        &&& self@.ok()
    }

    /// The open file called `path`, if there is one.
    pub fn storage(&self, path: &str) -> (storage: Option<&StorageImpl<F>>)
        requires
            self.wf(),
        ensures
            match storage {
                Some(s) => self@.pool.contains_key(path@) && *s == self@.pool[path@],
                None => !self@.pool.contains_key(path@),
            },
    {
        self.pool.get(path)
    }

    /// The file whose sync failed, when the kernel answers the request `user_data`
    /// with `result`. There is none if the sync succeeded, or if the number belongs
    /// to no job of this round.
    pub fn failed_sync(&self, user_data: u64, result: i32) -> (path: Option<&String>)
        ensures
            match path {
                Some(p) => {
                    &&& result < 0
                    &&& user_data < self@.batch.len()
                    &&& p@ == self@.batch[user_data as int].path
                },
                None => result >= 0 || user_data >= self@.batch.len(),
            },
    {
        assert(self.batch.len() == self@.batch.len());
        if result < 0 && user_data < self.batch.len() as u64 {
            let i: usize = user_data as usize;
            Some(&self.batch[i].path)
        } else {
            None
        }
    }

    fn check_from(&mut self, i: usize) -> (action: Action)
        requires
            i <= old(self)@.requested.len(),
        ensures
            final(self)@ == old(self)@.check_from(i as int).0,
            action.does(old(self)@.check_from(i as int).1),
            final(self).parts() == old(self).parts(),
    {
        if i < self.requested.len() {
            self.stage = Stage::Checking(i);
            Action::CheckExists(self.requested.name(i).clone())
        } else {
            self.stage = Stage::Choosing;
            Action::AskBackend
        }
    }

    fn push_from(&mut self, i: usize) -> (action: Action)
        requires
            i <= old(self)@.batch.len(),
        ensures
            final(self)@ == old(self)@.push_from(i as int).0,
            action.does(old(self)@.push_from(i as int).1),
            final(self).parts() == old(self).parts(),
    {
        if i < self.batch.len() {
            self.stage = Stage::Pushing(i);
            Action::Push(fsync_entry(self.batch[i].raw_fd, i as u64))
        } else if self.batch.len() > 0 {
            self.stage = Stage::Waiting;
            Action::SubmitAndWait(self.batch.len())
        } else {
            self.stage = Stage::Receiving;
            Action::DrainDeleteRequests
        }
    }

    fn complete_from(&mut self, i: usize) -> (action: Action)
        ensures
            final(self)@ == old(self)@.complete_from(i as int).0,
            action.does(old(self)@.complete_from(i as int).1),
            final(self).parts() == old(self).parts(),
    {
        if i < self.batch.len() {
            self.stage = Stage::Completing(i);
            Action::TakeCompletion
        } else {
            self.stage = Stage::Receiving;
            Action::DrainDeleteRequests
        }
    }

    fn flush_from(&mut self, i: usize) -> (action: Action)
        ensures
            final(self)@ == old(self)@.flush_from(i as int).0,
            action.does(old(self)@.flush_from(i as int).1),
            final(self).parts() == old(self).parts(),
    {
        if i < self.singly.len() {
            self.stage = Stage::Flushing(i);
            Action::Flush(self.singly[i].clone())
        } else {
            self.stage = Stage::Receiving;
            Action::DrainDeleteRequests
        }
    }

    fn release_from(&mut self, i: usize) -> (action: Action)
        requires
            old(self)@.tick < POOL_RESET_ROUNDS,
            old(self).pool.wf(),
            old(self).pending.wf(),
        ensures
            final(self)@ == old(self)@.release_from(i as int).0,
            action.does(old(self)@.release_from(i as int).1),
            final(self).requested == old(self).requested,
            final(self).pool.wf(),
            final(self).pending.wf(),
    {
        if i < self.pending.len() {
            self.stage = Stage::Releasing(i);
            Action::Release(self.pending.name(i).clone())
        } else {
            self.stage = Stage::Asleep;
            self.pending = NameSet::new();
            self.tick = self.tick + 1;
            if self.tick >= POOL_RESET_ROUNDS {
                self.tick = 0;
                self.pool = NameMap::new();
            }
            Action::Sleep(self.millis)
        }
    }

    /// The collections of the worker.
    spec fn parts(self) -> (NameMap<StorageImpl<F>>, NameSet, NameSet) {
        (self.pool, self.requested, self.pending)
    }

    /// Makes the sync jobs of this round.
    fn gather_jobs(&mut self)
        requires
            old(self).pool.wf(),
        ensures
            final(self)@ == (WorkerView {
                batch: sync_jobs(old(self)@.requested, old(self)@.pool),
                ..old(self)@
            }),
            final(self).parts() == old(self).parts(),
    {
        let ghost paths = self.requested@;
        let ghost pool = self.pool@;
        let n: usize = self.requested.len();
        let mut batch: Vec<SyncJob> = Vec::new();
        let mut i: usize = 0;
        while i < n
            invariant
                i <= n,
                n == paths.len(),
                self == old(self),
                self.pool.wf(),
                self.requested@ == paths,
                self.pool@ == pool,
                batch@.map_values(|j: SyncJob| j@) == sync_jobs(paths.take(i as int), pool),
            decreases n - i,
        {
            let path: &String = self.requested.name(i);
            let ghost so_far = batch@;
            proof {
                let more = paths.take(i + 1);
                assert(more.drop_last() =~= paths.take(i as int));
                assert(more.last() == path@);
            }
            if let Some(storage) = self.pool.get(path.as_str()) {
                if let Some(fd) = storage.as_fd() {
                    batch.push(SyncJob { raw_fd: fd.raw_fd, path: path.clone() });
                    proof {
                        let job = SyncJobView { raw_fd: fd.raw_fd, path: path@ };
                        assert(batch@.map_values(|j: SyncJob| j@) =~= so_far.map_values(
                            |j: SyncJob| j@,
                        ).push(job));
                    }
                }
            }
            i += 1;
        }
        assert(paths.take(n as int) =~= paths);
        self.batch = batch;
    }

    /// Lists the files of this round that are flushed one by one.
    fn gather_singly(&mut self)
        requires
            old(self).pool.wf(),
        ensures
            final(self)@ == (WorkerView {
                singly: open_among(old(self)@.requested, old(self)@.pool),
                ..old(self)@
            }),
            final(self).parts() == old(self).parts(),
    {
        let ghost paths = self.requested@;
        let ghost pool = self.pool@;
        let n: usize = self.requested.len();
        let mut singly: Vec<String> = Vec::new();
        let mut i: usize = 0;
        while i < n
            invariant
                i <= n,
                n == paths.len(),
                self == old(self),
                self.pool.wf(),
                self.requested@ == paths,
                self.pool@ == pool,
                texts(singly@) == open_among(paths.take(i as int), pool),
            decreases n - i,
        {
            let path: &String = self.requested.name(i);
            let ghost so_far = singly@;
            proof {
                reveal(Seq::filter);
                let more = paths.take(i + 1);
                assert(more.drop_last() =~= paths.take(i as int));
                assert(more.last() == path@);
            }
            if self.pool.contains(path.as_str()) {
                singly.push(path.clone());
                assert(texts(singly@) =~= texts(so_far).push(path@));
            }
            i += 1;
        }
        assert(paths.take(n as int) =~= paths);
        self.singly = singly;
    }

    /// Closes the files that are to be deleted.
    fn close_pending(&mut self)
        requires
            old(self).pool.wf(),
        ensures
            final(self)@ == (WorkerView {
                pool: old(self)@.pool.remove_keys(old(self)@.pending.to_set()),
                ..old(self)@
            }),
            final(self).pool.wf(),
            final(self).requested == old(self).requested,
            final(self).pending == old(self).pending,
    {
        let ghost before = self.pool@;
        let n: usize = self.pending.len();
        let mut i: usize = 0;
        while i < n
            invariant
                i <= n,
                n == self.pending@.len(),
                self.pool.wf(),
                self.pool@ == before.remove_keys(self.pending@.take(i as int).to_set()),
                self.stage == old(self).stage,
                self.millis == old(self).millis,
                self.requested == old(self).requested,
                self.batch == old(self).batch,
                self.singly == old(self).singly,
                self.pending == old(self).pending,
                self.tick == old(self).tick,
            decreases n - i,
        {
            let ghost done = self.pending@.take(i as int);
            let ghost more = self.pending@.take(i + 1);
            let ghost prev = self.pool@;
            let path: &String = self.pending.name(i);
            let ghost name = path@;
            let _ = self.pool.remove(path.as_str());
            proof {
                assert(more =~= done.push(name));
                assert forall|k: Seq<char>| more.contains(k) <==> done.contains(k) || k == name by {
                    if done.contains(k) {
                        let j = done.index_of(k);
                        assert(more[j] == k);
                    }
                    assert(more[i as int] == name);
                }
                assert(self.pool@ =~= before.remove_keys(more.to_set()));
            }
            i += 1;
        }
        assert(self.pending@.take(n as int) =~= self.pending@);
    }

    /// Takes in what came of the last action, and says what is to be done next.
    pub fn next(&mut self, event: Event<F>) -> (action: Action)
        requires
            old(self).wf(),
            old(self)@.expects(event@),
        ensures
            final(self).wf(),
            final(self)@.ok(),
            final(self)@ == old(self)@.next(event@).0,
            action.does(old(self)@.next(event@).1),
    {
        proof {
            assert(event matches Event::Requests(paths) ==> paths.len() == texts(paths@).len());
            law_worker_stays_ok(self@, event@);
        }
        match self.stage {
            Stage::Asleep => {
                self.stage = Stage::Collecting;
                Action::DrainFlushRequests
            },
            Stage::Collecting => {
                if let Event::Requests(paths) = event {
                    let mut requested = NameSet::new();
                    requested.insert_all(paths);
                    self.requested = requested;
                }
                self.check_from(0)
            },
            Stage::Checking(i) => {
                let exists: bool = matches!(event, Event::Exists(true));
                if exists && !self.pool.contains(self.requested.name(i).as_str()) {
                    self.stage = Stage::Opening(i);
                    Action::Open(self.requested.name(i).clone())
                } else {
                    self.check_from(i + 1)
                }
            },
            Stage::Opening(i) => {
                if let Event::Opened(Some(storage)) = event {
                    self.pool.insert(self.requested.name(i).clone(), storage);
                }
                self.check_from(i + 1)
            },
            Stage::Choosing => {
                let descriptors: bool = matches!(event, Event::DescriptorsInUse(true));
                if descriptors {
                    self.gather_jobs();
                    self.push_from(0)
                } else {
                    self.gather_singly();
                    self.flush_from(0)
                }
            },
            Stage::Pushing(i) => {
                let room: bool = matches!(event, Event::Pushed(true));
                if room {
                    self.push_from(i + 1)
                } else {
                    self.stage = Stage::RingFull(i);
                    Action::Submit
                }
            },
            Stage::RingFull(i) => {
                self.stage = Stage::PushingAgain(i);
                Action::PushAgain(fsync_entry(self.batch[i].raw_fd, i as u64))
            },
            Stage::PushingAgain(i) => self.push_from(i + 1),
            Stage::Waiting => self.complete_from(0),
            Stage::Completing(i) => self.complete_from(i + 1),
            Stage::Flushing(i) => self.flush_from(i + 1),
            Stage::Receiving => {
                if let Event::Requests(paths) = event {
                    self.pending.insert_all(paths);
                }
                self.close_pending();
                self.release_from(0)
            },
            Stage::Releasing(i) => {
                self.stage = Stage::Unlinking(i);
                Action::Unlink(self.pending.name(i).clone())
            },
            Stage::Unlinking(i) => self.release_from(i + 1),
        }
    }
}

/// Lets go of a file that is about to be unlinked: the keeper drops it, and the
/// readers drop its blocks.
pub fn release_file<T>(
    keeper: &mut Guarded<SharedMmapKeeper<T>>,
    registry: &Guarded<Vec<u64>>,
    live: &mut LiveReaders<T>,
    path: &str,
)
    requires
        old(keeper).value.wf(),
        old(live).wf(),
    ensures
        final(keeper).value.wf(),
        final(keeper).poisoned == old(keeper).poisoned,
        final(keeper).value@ == held_after_evict(old(keeper).poisoned, old(keeper).value@, path@),
        final(live).wf(),
        final(live).next_id == old(live).next_id,
        final(live)@ == purge_registered(old(live)@, *registry, path@),
        final(live).keeps_places_of(*old(live)),
{
    SharedMmapKeeper::evict(keeper, path);
    purge_file_from_readers(registry, live, path);
}

/// There are not more sync jobs than files.
proof fn lemma_sync_jobs_len<F>(paths: Seq<Seq<char>>, pool: Map<Seq<char>, StorageImpl<F>>)
    ensures
        sync_jobs(paths, pool).len() <= paths.len(),
    decreases paths.len(),
{
    if paths.len() > 0 {
        lemma_sync_jobs_len(paths.drop_last(), pool);
    }
}

/// Whatever happens, a worker stays in order.
pub proof fn law_worker_stays_ok<F>(worker: WorkerView<F>, event: EventView<F>)
    requires
        worker.ok(),
        worker.expects(event),
        event.fits(),
    ensures
        worker.next(event).0.ok(),
{
    lemma_sync_jobs_len(worker.requested, worker.pool);
    worker.requested.lemma_filter_len(|p: Seq<char>| worker.pool.contains_key(p));
    if let EventView::Requests(paths) = event {
        crate::name_map::law_joined(Seq::empty(), paths);
        crate::name_map::law_joined(worker.pending, paths);
    }
}

} // verus!
