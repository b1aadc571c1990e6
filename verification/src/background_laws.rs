//! What holds of the background worker whatever its actions end in.
use crate::background::{
    law_worker_stays_ok, open_among, sleep_of, sync_jobs, Action, ActionView, Event, EventView, Stage,
    WorkerView, POOL_RESET_ROUNDS,
};
use crate::config::FsyncSchedule;
use crate::keeper::held_after_evict;
use crate::name_map::{joined, law_joined};
use crate::reader_laws::law_purge_clears_every_column;
use crate::registry::{purge_registered, LiveView};
use crate::storage::StorageImpl;
use crate::sync::Guarded;
use crate::uring::entry_fields;
use std::sync::Arc;
use vstd::prelude::*;

verus! {

/// The worker and its action after `n` more actions were carried out, `at` being the
/// worker and the action that it asks for.
pub open spec fn after_dones<F>(at: (WorkerView<F>, ActionView), n: nat) -> (
    WorkerView<F>,
    ActionView,
)
    decreases n,
{
    if n == 0 {
        at
    } else {
        after_dones(at, (n - 1) as nat).0.next(EventView::Done)
    }
}

/// A file is unlinked only right after the keeper and the readers were told to let
/// go of it, and while the worker itself has it closed.
pub proof fn law_unlink_follows_release<F>(
    worker: WorkerView<F>,
    first: EventView<F>,
    second: EventView<F>,
    path: Seq<char>,
)
    requires
        worker.ok(),
        worker.expects(first),
        first.fits(),
        worker.next(first).0.expects(second),
        worker.next(first).0.next(second).1 == ActionView::Unlink(path),
    ensures
        worker.next(first).1 == ActionView::Release(path),
        !worker.next(first).0.pool.contains_key(path),
        !worker.next(first).0.next(second).0.pool.contains_key(path),
{
    law_worker_stays_ok(worker, first);
    let mid = worker.next(first).0;
    assert(mid.stage is Releasing);
    assert(mid.pending.contains(mid.pending[mid.stage->Releasing_0 as int]));
}

/// Every file that is asked to be deleted is closed, released and unlinked in the
/// same round, each once and one after the other; then the round ends with nothing
/// left to delete.
pub proof fn law_every_delete_request_is_acted_on<F>(
    worker: WorkerView<F>,
    paths: Seq<Seq<char>>,
    i: int,
)
    requires
        worker.ok(),
        worker.stage == Stage::Receiving,
        paths.len() <= usize::MAX,
        0 <= i <= joined(Seq::empty(), paths).len(),
    ensures
        ({
            let start = worker.next(EventView::Requests(paths));
            let pending = joined(Seq::empty(), paths);
            let (now, action) = after_dones(start, (2 * i) as nat);
            &&& pending.no_duplicates()
            &&& forall|p: Seq<char>| #[trigger] pending.contains(p) <==> paths.contains(p)
            &&& forall|p: Seq<char>| #[trigger] paths.contains(p) ==> !now.pool.contains_key(p)
            &&& i < pending.len() ==> {
                &&& now.stage == Stage::Releasing(i as usize)
                &&& now.pending == pending
                &&& now.pool == start.0.pool
                &&& now.tick == worker.tick
                &&& now.millis == worker.millis
                &&& action == ActionView::Release(pending[i])
                &&& after_dones(start, (2 * i + 1) as nat).1 == ActionView::Unlink(pending[i])
            }
            &&& i == pending.len() ==> {
                &&& now.stage == Stage::Asleep
                &&& now.pending.len() == 0
                &&& action == ActionView::Sleep(worker.millis)
            }
        }),
    decreases i,
{
    let event = EventView::<F>::Requests(paths);
    let pending = joined(Seq::empty(), paths);
    law_joined(Seq::empty(), paths);
    law_worker_stays_ok(worker, event);
    assert(worker.pending =~= Seq::empty());
    let start = worker.next(event);
    assert forall|p: Seq<char>| #[trigger] pending.contains(p) <==> paths.contains(p) by {
        assert(!Seq::<Seq<char>>::empty().contains(p));
    }
    assert forall|p: Seq<char>| #[trigger] paths.contains(p) implies !start.0.pool.contains_key(
        p,
    ) by {
        assert(pending.contains(p));
    }
    reveal_with_fuel(after_dones, 3);
    if i > 0 {
        law_every_delete_request_is_acted_on(worker, paths, i - 1);
        assert((2 * i - 2) as nat == (2 * (i - 1)) as nat);
        let before = after_dones(start, (2 * (i - 1)) as nat).0;
        assert(after_dones(start, (2 * i - 1) as nat) == before.next(EventView::Done));
    }
}

/// When storages are mappings, every requested file that is open is flushed by
/// itself, each once, one after the other; then the worker turns to the requests to
/// delete.
pub proof fn law_every_open_file_is_flushed<F>(worker: WorkerView<F>, i: int)
    requires
        worker.ok(),
        worker.stage == Stage::Choosing,
        0 <= i <= open_among(worker.requested, worker.pool).len(),
    ensures
        ({
            let start = worker.next(EventView::DescriptorsInUse(false));
            let files = open_among(worker.requested, worker.pool);
            let (now, action) = after_dones(start, i as nat);
            &&& files.no_duplicates()
            &&& forall|p: Seq<char>| #[trigger]
                files.contains(p) <==> worker.requested.contains(p) && worker.pool.contains_key(p)
            &&& now.singly == files
            &&& now.pool == worker.pool
            &&& i < files.len() ==> {
                &&& now.stage == Stage::Flushing(i as usize)
                &&& action == ActionView::Flush(files[i])
            }
            &&& i == files.len() ==> {
                &&& now.stage == Stage::Receiving
                &&& action == ActionView::DrainDeleteRequests
            }
        }),
    decreases i,
{
    let files = open_among(worker.requested, worker.pool);
    let is_open = |p: Seq<char>| worker.pool.contains_key(p);
    assert(files == worker.requested.filter(is_open));
    lemma_filter_no_duplicates(worker.requested, is_open);
    assert forall|p: Seq<char>| #[trigger] files.contains(p) <==> worker.requested.contains(p)
        && worker.pool.contains_key(p) by {
        if files.contains(p) {
            let k = files.index_of(p);
            worker.requested.lemma_filter_pred(is_open, k);
            worker.requested.lemma_filter_contains_rev(is_open, p);
        }
        if worker.requested.contains(p) && worker.pool.contains_key(p) {
            let k = worker.requested.index_of(p);
            worker.requested.lemma_filter_contains(is_open, k);
        }
    }
    law_worker_stays_ok(worker, EventView::DescriptorsInUse(false));
    if i > 0 {
        law_every_open_file_is_flushed(worker, i - 1);
    }
}

proof fn lemma_filter_no_duplicates<A>(s: Seq<A>, keep: spec_fn(A) -> bool)
    requires
        s.no_duplicates(),
    ensures
        s.filter(keep).no_duplicates(),
    decreases s.len(),
{
    reveal(Seq::filter);
    if s.len() > 0 {
        let rest = s.drop_last();
        assert forall|i: int, j: int| 0 <= i < j < rest.len() implies rest[i] != rest[j] by {}
        lemma_filter_no_duplicates(rest, keep);
        let kept = rest.filter(keep);
        assert forall|i: int| 0 <= i < kept.len() implies #[trigger] kept[i] != s.last() by {
            assert(kept.contains(kept[i]));
            rest.lemma_filter_contains_rev(keep, kept[i]);
            let j = rest.index_of(kept[i]);
            assert(s[j] == kept[i]);
        }
    }
}

/// When storages are descriptors, there is exactly one sync job for each requested
/// file that is open as a descriptor, with that descriptor, and no other job.
pub proof fn law_sync_jobs<F>(paths: Seq<Seq<char>>, pool: Map<Seq<char>, StorageImpl<F>>)
    requires
        paths.no_duplicates(),
    ensures
        forall|i: int|
            0 <= i < sync_jobs(paths, pool).len() ==> {
                let job = #[trigger] sync_jobs(paths, pool)[i];
                &&& paths.contains(job.path)
                &&& pool.contains_key(job.path)
                &&& pool[job.path] matches StorageImpl::Fd(fd)
                &&& fd.raw_fd == job.raw_fd
            },
        forall|p: Seq<char>|
            #![trigger pool.contains_key(p)]
            paths.contains(p) && pool.contains_key(p) && pool[p] is Fd ==> exists|i: int|
                0 <= i < sync_jobs(paths, pool).len() && (#[trigger] sync_jobs(paths, pool)[i]).path
                    == p,
        forall|i: int, j: int|
            0 <= i < j < sync_jobs(paths, pool).len() ==> (#[trigger] sync_jobs(paths, pool)[i]).path
                != (#[trigger] sync_jobs(paths, pool)[j]).path,
    decreases paths.len(),
{
    if paths.len() > 0 {
        let rest = paths.drop_last();
        let last = paths.last();
        assert forall|i: int, j: int| 0 <= i < j < rest.len() implies rest[i] != rest[j] by {}
        law_sync_jobs(rest, pool);
        let before = sync_jobs(rest, pool);
        let after = sync_jobs(paths, pool);
        assert forall|p: Seq<char>| rest.contains(p) implies paths.contains(p) && p != last by {
            let i = rest.index_of(p);
            assert(paths[i] == p);
        }
        assert(paths[paths.len() - 1] == last);
        assert forall|i: int| 0 <= i < before.len() implies after[i] == #[trigger] before[i] by {}
        assert forall|p: Seq<char>|
            #![trigger pool.contains_key(p)]
            paths.contains(p) && pool.contains_key(p) && pool[p] is Fd implies exists|i: int|
            0 <= i < after.len() && (#[trigger] after[i]).path == p by {
            if p == last {
                assert(after[after.len() - 1].path == p);
            } else {
                let k = paths.index_of(p);
                assert(rest[k] == p);
                let i = choose|i: int| 0 <= i < before.len() && (#[trigger] before[i]).path == p;
                assert(after[i].path == p);
            }
        }
    }
}

/// The kernel's answer to a sync request names the file that the request was for:
/// a request that goes to the ring bears the place of its job.
pub proof fn law_answer_names_its_file<F>(
    worker: WorkerView<F>,
    event: EventView<F>,
    raw_fd: i32,
    number: u64,
)
    requires
        worker.ok(),
        worker.expects(event),
        event.fits(),
        ({
            ||| worker.next(event).1 == ActionView::Push(raw_fd, number)
            ||| worker.next(event).1 == ActionView::PushAgain(raw_fd, number)
        }),
    ensures
        number < worker.next(event).0.batch.len(),
        worker.next(event).0.batch[number as int].raw_fd == raw_fd,
{
    law_worker_stays_ok(worker, event);
}

/// A full ring loses no job: the ring is emptied, and the same request goes into it
/// again, before the next one.
pub proof fn law_a_full_ring_loses_no_job<F>(worker: WorkerView<F>, i: usize)
    requires
        worker.ok(),
        worker.stage == Stage::Pushing(i),
    ensures
        ({
            let full = worker.next(EventView::Pushed(false));
            let again = full.0.next(EventView::Done);
            &&& full.1 == ActionView::Submit
            &&& again.1 == ActionView::PushAgain(worker.batch[i as int].raw_fd, i as u64)
            &&& again.0.next(EventView::Done) == worker.next(EventView::Pushed(true))
        }),
{
}

/// After the sync jobs were submitted, as many answers are taken as there are jobs;
/// then the worker turns to the requests to delete.
pub proof fn law_as_many_answers_as_jobs<F>(worker: WorkerView<F>, asked: ActionView, i: int)
    requires
        worker.ok(),
        worker.stage == Stage::Waiting,
        0 < i <= worker.batch.len() + 1,
    ensures
        ({
            let (now, action) = after_dones((worker, asked), i as nat);
            &&& now.batch == worker.batch
            &&& now.pool == worker.pool
            &&& i <= worker.batch.len() ==> {
                &&& now.stage == Stage::Completing((i - 1) as usize)
                &&& action == ActionView::TakeCompletion
            }
            &&& i == worker.batch.len() + 1 ==> {
                &&& now.stage == Stage::Receiving
                &&& action == ActionView::DrainDeleteRequests
            }
        }),
    decreases i,
{
    reveal_with_fuel(after_dones, 2);
    if i > 1 {
        law_as_many_answers_as_jobs(worker, asked, i - 1);
    }
}

/// While files are synced through the ring, no open file is closed.
pub proof fn law_files_stay_open_while_they_are_synced<F>(
    worker: WorkerView<F>,
    event: EventView<F>,
)
    requires
        worker.ok(),
        worker.expects(event),
        ({
            ||| worker.stage is Pushing
            ||| worker.stage is RingFull
            ||| worker.stage is PushingAgain
            ||| worker.stage is Waiting
            ||| worker.stage is Completing
        }),
    ensures
        worker.next(event).0.pool == worker.pool,
        worker.next(event).0.batch == worker.batch,
{
}

/// How far in a round a stage is.
pub open spec fn phase(stage: Stage) -> nat {
    match stage {
        Stage::Asleep => 0,
        Stage::Collecting => 1,
        Stage::Checking(_) | Stage::Opening(_) => 2,
        Stage::Choosing => 3,
        Stage::Pushing(_)
        | Stage::RingFull(_)
        | Stage::PushingAgain(_)
        | Stage::Flushing(_) => 4,
        Stage::Waiting => 5,
        Stage::Completing(_) => 6,
        Stage::Receiving => 7,
        Stage::Releasing(_) | Stage::Unlinking(_) => 8,
    }
}

/// How many actions are left in the phase, at most.
pub open spec fn left_in_phase<F>(worker: WorkerView<F>) -> int {
    match worker.stage {
        Stage::Checking(i) => 2 * (worker.requested.len() - i),
        Stage::Opening(i) => 2 * (worker.requested.len() - i) - 1,
        Stage::Pushing(i) => 3 * (worker.batch.len() - i),
        Stage::RingFull(i) => 3 * (worker.batch.len() - i) - 1,
        Stage::PushingAgain(i) => 3 * (worker.batch.len() - i) - 2,
        Stage::Completing(i) => worker.batch.len() - i,
        Stage::Flushing(i) => worker.singly.len() - i,
        Stage::Releasing(i) => 2 * (worker.pending.len() - i),
        Stage::Unlinking(i) => 2 * (worker.pending.len() - i) - 1,
        _ => 0,
    }
}

/// Every round ends, whatever its actions end in: each brings the worker back to
/// sleep, or into a later phase, or further in its phase.
pub proof fn law_every_round_ends<F>(worker: WorkerView<F>, event: EventView<F>)
    requires
        worker.ok(),
        worker.expects(event),
        event.fits(),
    ensures
        left_in_phase(worker) >= 0,
        ({
            let after = worker.next(event).0;
            ||| after.stage == Stage::Asleep
            ||| phase(after.stage) > phase(worker.stage)
            ||| {
                &&& phase(after.stage) == phase(worker.stage)
                &&& left_in_phase(after) < left_in_phase(worker)
            }
        }),
{
    law_worker_stays_ok(worker, event);
}

/// A file is opened only if it was asked for, exists and is not open.
pub proof fn law_only_what_is_missing_is_opened<F>(
    worker: WorkerView<F>,
    event: EventView<F>,
    path: Seq<char>,
)
    requires
        worker.ok(),
        worker.expects(event),
        worker.next(event).1 == ActionView::Open(path),
    ensures
        event == EventView::<F>::Exists(true),
        worker.requested.contains(path),
        !worker.pool.contains_key(path),
{
    assert(worker.requested.contains(worker.requested[worker.stage->Checking_0 as int]));
}

/// A file that was opened is kept open; one that could not be opened is passed over.
/// The other open files stay open.
pub proof fn law_opened_file_is_kept<F>(
    worker: WorkerView<F>,
    i: usize,
    opened: Option<StorageImpl<F>>,
    other: Seq<char>,
)
    requires
        worker.ok(),
        worker.stage == Stage::Opening(i),
        other != worker.requested[i as int],
    ensures
        ({
            let path = worker.requested[i as int];
            let after = worker.next(EventView::Opened(opened)).0;
            &&& opened matches Some(storage) ==> after.pool.contains_key(path) && after.pool[path]
                == storage
            &&& opened is None ==> after.pool == worker.pool
            &&& after.pool.contains_key(other) == worker.pool.contains_key(other)
            &&& after.pool[other] == worker.pool[other]
        }),
{
}

/// Rounds are counted, and in the last of a thousand every open file is closed: a
/// round either counts one up or starts anew with nothing open.
pub proof fn law_pool_is_closed_in_time<F>(worker: WorkerView<F>, event: EventView<F>)
    requires
        worker.ok(),
        worker.expects(event),
    ensures
        worker.next(event).0.stage == Stage::Asleep ==> {
            ||| worker.tick + 1 < POOL_RESET_ROUNDS && worker.next(event).0.tick == worker.tick + 1
            ||| {
                &&& worker.tick + 1 == POOL_RESET_ROUNDS
                &&& worker.next(event).0.tick == 0
                &&& worker.next(event).0.pool == Map::<Seq<char>, StorageImpl<F>>::empty()
            }
        },
        worker.next(event).0.stage != Stage::Asleep ==> worker.next(event).0.tick == worker.tick,
{
}

/// The worker never sleeps longer or shorter than it was set up to, and every round ends
/// with that sleep.
pub proof fn law_sleep_is_constant<F>(worker: WorkerView<F>, event: EventView<F>, millis: u64)
    requires
        worker.ok(),
        worker.expects(event),
    ensures
        worker.next(event).0.millis == worker.millis,
        worker.next(event).1 == ActionView::Sleep(millis) ==> millis == worker.millis,
        worker.next(event).0.stage == Stage::Asleep ==> worker.next(event).1 == ActionView::Sleep(
            worker.millis,
        ),
{
}

/// The schedule sets the sleep: a schedule of so many milliseconds makes the worker
/// sleep just as many, at least one; the other schedules have a fixed time each.
pub proof fn law_schedule_sets_the_sleep(ms: u64)
    ensures
        ms >= 1 ==> sleep_of(FsyncSchedule::Milliseconds(ms)) == ms,
        ms == 0 ==> sleep_of(FsyncSchedule::Milliseconds(ms)) == 1,
        sleep_of(FsyncSchedule::SyncEach) == 5000,
        sleep_of(FsyncSchedule::NoFsync) == 10000,
{
}

/// A new worker sleeps first, as long as it is told to, with no round counted, no file
/// open and nothing to delete.
pub proof fn law_new_worker_has_nothing<F>(millis: u64, path: Seq<char>)
    ensures
        WorkerView::<F>::fresh(millis).stage == Stage::Asleep,
        WorkerView::<F>::fresh(millis).millis == millis,
        WorkerView::<F>::fresh(millis).tick == 0,
        !WorkerView::<F>::fresh(millis).pool.contains_key(path),
        WorkerView::<F>::fresh(millis).pending.len() == 0,
        millis >= 1 ==> WorkerView::<F>::fresh(millis).ok(),
{
}

/// Every round begins with the flush requests: when the sleep is over, whatever the
/// schedule and the round, the worker asks for those that wait, and then waits for them;
/// its open files are the same, and no round is counted.
pub proof fn law_every_round_takes_in_the_flush_requests<F>(worker: WorkerView<F>)
    requires
        worker.ok(),
        worker.stage == Stage::Asleep,
    ensures
        ({
            let (now, action) = worker.next(EventView::Done);
            &&& action == ActionView::DrainFlushRequests
            &&& now.stage == Stage::Collecting
            &&& now.pool == worker.pool
            &&& now.tick == worker.tick
            &&& now.millis == worker.millis
            &&& now.pending.len() == 0
            &&& forall|paths: Seq<Seq<char>>| #[trigger] now.expects(EventView::Requests(paths))
        }),
{
}

/// A requested file that exists and is not open is the one that is opened next, and no
/// other is opened; one that is open already, or does not exist, is passed over.
pub proof fn law_missing_file_is_opened<F>(worker: WorkerView<F>, i: usize, present: bool)
    requires
        worker.ok(),
        worker.stage == Stage::Checking(i),
    ensures
        ({
            let path = worker.requested[i as int];
            let (now, action) = worker.next(EventView::Exists(present));
            &&& now.pool == worker.pool
            &&& now.requested == worker.requested
            &&& present && !worker.pool.contains_key(path) ==> {
                &&& now.stage == Stage::Opening(i)
                &&& action == ActionView::Open(path)
            }
            &&& !present || worker.pool.contains_key(path) ==> {
                &&& i + 1 < worker.requested.len() ==> action == ActionView::CheckExists(
                    worker.requested[i + 1],
                )
                &&& i + 1 == worker.requested.len() ==> action == ActionView::AskBackend
            }
        }),
{
}

/// Open files come and go in three ways only: one comes when it is opened, those to be
/// deleted go, and all go in the thousandth round.
pub proof fn law_open_files_change_in_three_ways<F>(
    worker: WorkerView<F>,
    event: EventView<F>,
    path: Seq<char>,
)
    requires
        worker.ok(),
        worker.expects(event),
    ensures
        ({
            let now = worker.next(event).0;
            let last = now.stage == Stage::Asleep && worker.tick + 1 >= 1000;
            &&& last ==> !now.pool.contains_key(path)
            &&& !last && !(worker.stage is Opening) && worker.stage != Stage::Receiving
                ==> now.pool == worker.pool
            &&& !last && worker.stage == Stage::Receiving ==> {
                let deleted = event->Requests_0.contains(path);
                &&& now.pool.contains_key(path) <==> worker.pool.contains_key(path) && !deleted
                &&& now.pool.contains_key(path) ==> now.pool[path] == worker.pool[path]
            }
        }),
{
    if worker.stage == Stage::Receiving {
        let paths = event->Requests_0;
        assert(worker.pending =~= Seq::empty());
        law_joined(worker.pending, paths);
        assert(joined(worker.pending, paths).contains(path) <==> paths.contains(path));
    }
}

/// The rounds are counted one by one up to a thousand, and then from the start.
pub proof fn law_rounds_are_counted<F>(worker: WorkerView<F>, event: EventView<F>)
    requires
        worker.ok(),
        worker.expects(event),
    ensures
        worker.tick < 1000,
        ({
            let now = worker.next(event).0;
            &&& now.stage != Stage::Asleep ==> now.tick == worker.tick
            &&& now.stage == Stage::Asleep && worker.tick < 999 ==> now.tick == worker.tick + 1
            &&& now.stage == Stage::Asleep && worker.tick == 999 ==> now.tick == 0
        }),
{
}

/// Whatever an action ends in is expected: each stage takes every outcome of the kind
/// that its action has.
pub proof fn law_every_outcome_is_expected<F>(
    worker: WorkerView<F>,
    yes: bool,
    paths: Seq<Seq<char>>,
    opened: Option<StorageImpl<F>>,
)
    ensures
        match worker.stage {
            Stage::Collecting | Stage::Receiving => worker.expects(EventView::Requests(paths)),
            Stage::Checking(_) => worker.expects(EventView::Exists(yes)),
            Stage::Opening(_) => worker.expects(EventView::Opened(opened)),
            Stage::Choosing => worker.expects(EventView::DescriptorsInUse(yes)),
            Stage::Pushing(_) => worker.expects(EventView::Pushed(yes)),
            Stage::Asleep
            | Stage::RingFull(_)
            | Stage::PushingAgain(_)
            | Stage::Waiting
            | Stage::Completing(_)
            | Stage::Flushing(_)
            | Stage::Releasing(_)
            | Stage::Unlinking(_) => worker.expects(EventView::Done),
        },
        paths.len() <= usize::MAX ==> EventView::<F>::Requests(paths).fits(),
        EventView::<F>::Done.fits(),
        EventView::<F>::Exists(yes).fits(),
        EventView::Opened(opened).fits(),
        EventView::<F>::DescriptorsInUse(yes).fits(),
        EventView::<F>::Pushed(yes).fits(),
{
}

/// An event says what it brought: the requests word by word and in their order, and of
/// the others the outcome.
pub proof fn law_event_says_what_it_brought<F>(event: Event<F>)
    ensures
        match event {
            Event::Done => event@ == EventView::<F>::Done,
            Event::Requests(paths) => {
                &&& event@ is Requests
                &&& event@->Requests_0.len() == paths@.len()
                &&& forall|i: int|
                    0 <= i < paths@.len() ==> #[trigger] event@->Requests_0[i] == paths@[i]@
            },
            Event::Exists(yes) => event@ == EventView::<F>::Exists(yes),
            Event::Opened(opened) => event@ == EventView::Opened(opened),
            Event::DescriptorsInUse(yes) => event@ == EventView::<F>::DescriptorsInUse(yes),
            Event::Pushed(yes) => event@ == EventView::<F>::Pushed(yes),
        },
{
}

/// An action does what is asked and nothing else: it is of the kind that is asked for,
/// on the file that is meant, spelled in full. A request to the ring is a sync of the
/// whole file behind the descriptor, under the number that is meant.
pub proof fn law_action_does_what_is_asked(action: Action, asked: ActionView)
    requires
        action.does(asked),
    ensures
        match action {
            Action::Sleep(millis) => asked == ActionView::Sleep(millis),
            Action::DrainFlushRequests => asked == ActionView::DrainFlushRequests,
            Action::CheckExists(path) => asked == ActionView::CheckExists(path@),
            Action::Open(path) => asked == ActionView::Open(path@),
            Action::AskBackend => asked == ActionView::AskBackend,
            Action::Push(entry) => asked matches ActionView::Push(raw_fd, number) && entry_fields(
                entry,
            ) == (3u8, raw_fd, number, 0u64, 0u32, 0u32),
            Action::Submit => asked == ActionView::Submit,
            Action::PushAgain(entry) => asked matches ActionView::PushAgain(raw_fd, number)
                && entry_fields(entry) == (3u8, raw_fd, number, 0u64, 0u32, 0u32),
            Action::SubmitAndWait(count) => asked == ActionView::SubmitAndWait(count as nat),
            Action::TakeCompletion => asked == ActionView::TakeCompletion,
            Action::Flush(path) => asked == ActionView::Flush(path@),
            Action::DrainDeleteRequests => asked == ActionView::DrainDeleteRequests,
            Action::Release(path) => asked == ActionView::Release(path@),
            Action::Unlink(path) => asked == ActionView::Unlink(path@),
        },
{
}

/// After a file was released, the keeper does not share it any more, unless the keeper
/// is poisoned; the other files are shared as before.
pub proof fn law_released_file_leaves_the_keeper<T>(
    held: Map<Seq<char>, Arc<T>>,
    path: Seq<char>,
    other: Seq<char>,
)
    ensures
        !held_after_evict(false, held, path).contains_key(path),
        other != path ==> {
            &&& held_after_evict(false, held, path).contains_key(other) == held.contains_key(other)
            &&& held.contains_key(other) ==> held_after_evict(false, held, path)[other]
                == held[other]
        },
{
}

/// After a file was released, no column of a listed reader has a block of it, as far
/// as no lock on the way is poisoned.
pub proof fn law_released_file_leaves_the_readers<T>(
    registry: Guarded<Vec<u64>>,
    live: Seq<LiveView<T>>,
    path: Seq<char>,
    r: int,
    col: Seq<char>,
    b: int,
)
    requires
        !registry.poisoned,
        0 <= r < live.len(),
        registry.value@.contains(live[r].id),
        !live[r].reader.poisoned,
        live[r].reader.cols.contains_key(col),
        !live[r].reader.cols[col].poisoned,
        0 <= b < purge_registered(live, registry, path)[r].reader.cols[col].info.chain.len(),
    ensures
        purge_registered(live, registry, path)[r].reader.cols[col].info.chain[b].file_path@ != path,
{
    law_purge_clears_every_column(live[r].reader, path, col, b);
}

} // verus!
