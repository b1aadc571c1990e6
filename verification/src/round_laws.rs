//! What holds of the flush part of a whole round of the background worker, from the
//! requests to the last flush.
use crate::background::{
    law_worker_stays_ok, open_among, sync_jobs, ActionView, EventView, Stage, WorkerView,
};
use crate::background_laws::{
    after_dones, law_a_full_ring_loses_no_job, law_every_open_file_is_flushed, law_sync_jobs,
};
use crate::name_map::{joined, law_joined};
use crate::storage::StorageImpl;
use vstd::prelude::*;

verus! {

/// What the worker finds of a requested file: whether it exists, and what comes of
/// opening it, if it is opened.
pub struct Finding<F> {
    pub exists: bool,
    pub opened: Option<StorageImpl<F>>,
}

/// The worker and its action after it dealt with one requested file.
pub open spec fn after_look<F>(worker: WorkerView<F>, finding: Finding<F>) -> (
    WorkerView<F>,
    ActionView,
) {
    let checked = worker.next(EventView::Exists(finding.exists));
    if checked.0.stage is Opening {
        checked.0.next(EventView::Opened(finding.opened))
    } else {
        checked
    }
}

/// The worker and its action after it dealt with as many requested files as there
/// are findings.
pub open spec fn after_looks<F>(
    at: (WorkerView<F>, ActionView),
    findings: Seq<Finding<F>>,
) -> (WorkerView<F>, ActionView)
    decreases findings.len(),
{
    if findings.len() == 0 {
        at
    } else {
        after_look(after_looks(at, findings.drop_last()).0, findings.last())
    }
}

/// The file `path` is among those dealt with, exists, and can be opened.
pub open spec fn opens<F>(
    requested: Seq<Seq<char>>,
    findings: Seq<Finding<F>>,
    path: Seq<char>,
) -> bool {
    exists|j: int|
        0 <= j < findings.len() && #[trigger] requested[j] == path && findings[j].exists
            && findings[j].opened is Some
}

/// Every requested file is looked at, each once, one after the other. Then a file is
/// open if and only if it was open before, or was asked for, exists and could be
/// opened; what was open before is still open as it was.
pub proof fn law_requests_open_the_pool<F>(
    worker: WorkerView<F>,
    paths: Seq<Seq<char>>,
    findings: Seq<Finding<F>>,
)
    requires
        worker.ok(),
        worker.stage == Stage::Collecting,
        paths.len() <= usize::MAX,
        findings.len() <= joined(Seq::empty(), paths).len(),
    ensures
        ({
            let requested = joined(Seq::empty(), paths);
            let n = findings.len() as int;
            let (now, action) = after_looks(worker.next(EventView::Requests(paths)), findings);
            &&& now.ok()
            &&& now.requested == requested
            &&& requested.no_duplicates()
            &&& forall|p: Seq<char>| #[trigger] requested.contains(p) <==> paths.contains(p)
            &&& n < requested.len() ==> {
                &&& now.stage == Stage::Checking(n as usize)
                &&& action == ActionView::CheckExists(requested[n])
            }
            &&& n == requested.len() ==> {
                &&& now.stage == Stage::Choosing
                &&& action == ActionView::AskBackend
            }
            &&& forall|p: Seq<char>| #[trigger]
                now.pool.contains_key(p) <==> worker.pool.contains_key(p) || opens(
                    requested,
                    findings,
                    p,
                )
            &&& forall|p: Seq<char>| #[trigger]
                worker.pool.contains_key(p) ==> now.pool[p] == worker.pool[p]
            &&& forall|j: int|
                0 <= j < n && !worker.pool.contains_key(#[trigger] requested[j])
                    && findings[j].exists && findings[j].opened is Some
                    ==> now.pool[requested[j]] == findings[j].opened->0
        }),
    decreases findings.len(),
{
    let requested = joined(Seq::empty(), paths);
    let start = worker.next(EventView::Requests(paths));
    law_joined(Seq::empty(), paths);
    law_worker_stays_ok(worker, EventView::Requests(paths));
    assert forall|p: Seq<char>| #[trigger] requested.contains(p) <==> paths.contains(p) by {
        assert(!Seq::<Seq<char>>::empty().contains(p));
    }
    if findings.len() > 0 {
        let rest = findings.drop_last();
        let last = findings.last();
        let k = rest.len() as int;
        law_requests_open_the_pool(worker, paths, rest);
        let before = after_looks(start, rest).0;
        let path = requested[k];
        assert(!opens(requested, rest, path));
        let checked = before.next(EventView::Exists(last.exists)).0;
        law_worker_stays_ok(before, EventView::Exists(last.exists));
        if checked.stage is Opening {
            law_worker_stays_ok(checked, EventView::Opened(last.opened));
        }
        let now = after_looks(start, findings).0;
        assert forall|p: Seq<char>|
            opens(requested, findings, p) <==> opens(requested, rest, p) || p == path
                && last.exists && last.opened is Some by {
            if opens(requested, rest, p) {
                let j = choose|j: int|
                    0 <= j < rest.len() && #[trigger] requested[j] == p && rest[j].exists
                        && rest[j].opened is Some;
                assert(findings[j] == rest[j]);
                assert(requested[j] == p);
            }
            if p == path && last.exists && last.opened is Some {
                assert(findings[k] == last);
                assert(requested[k] == p);
            }
            if opens(requested, findings, p) {
                let j = choose|j: int|
                    0 <= j < findings.len() && #[trigger] requested[j] == p && findings[j].exists
                        && findings[j].opened is Some;
                if j < k {
                    assert(rest[j] == findings[j]);
                    assert(requested[j] == p);
                }
            }
        }
        assert forall|j: int|
            0 <= j < findings.len() && !worker.pool.contains_key(#[trigger] requested[j])
                && findings[j].exists && findings[j].opened is Some implies now.pool[requested[j]]
            == findings[j].opened->0 by {
            if j < k {
                assert(rest[j] == findings[j]);
                assert(requested[j] != requested[k]);
            }
        }
    } else {
        assert forall|p: Seq<char>| !opens(requested, findings, p) by {}
    }
}

/// The worker and its action after one sync request went into the ring: at once where
/// there is room, and else after the ring was emptied.
pub open spec fn after_push<F>(worker: WorkerView<F>, room: bool) -> (WorkerView<F>, ActionView) {
    if room {
        worker.next(EventView::Pushed(true))
    } else {
        worker.next(EventView::Pushed(false)).0.next(EventView::Done).0.next(EventView::Done)
    }
}

/// The worker and its action after as many sync requests went into the ring as
/// `rooms` has entries, each saying whether there was room.
pub open spec fn after_pushes<F>(at: (WorkerView<F>, ActionView), rooms: Seq<bool>) -> (
    WorkerView<F>,
    ActionView,
)
    decreases rooms.len(),
{
    if rooms.len() == 0 {
        at
    } else {
        after_push(after_pushes(at, rooms.drop_last()).0, rooms.last())
    }
}

/// The sync jobs go into the ring one after the other, each under the number of its
/// place, whether or not there is room at once. When all are in, and not before, they
/// are submitted together and all their answers waited for. Without a job nothing is
/// submitted.
pub proof fn law_all_jobs_are_pushed<F>(worker: WorkerView<F>, rooms: Seq<bool>)
    requires
        worker.ok(),
        worker.stage == Stage::Choosing,
        rooms.len() <= sync_jobs(worker.requested, worker.pool).len(),
    ensures
        ({
            let jobs = sync_jobs(worker.requested, worker.pool);
            let n = rooms.len() as int;
            let (now, action) = after_pushes(
                worker.next(EventView::DescriptorsInUse(true)),
                rooms,
            );
            &&& now.ok()
            &&& now.batch == jobs
            &&& now.pool == worker.pool
            &&& n < jobs.len() ==> {
                &&& now.stage == Stage::Pushing(n as usize)
                &&& action == ActionView::Push(jobs[n].raw_fd, n as u64)
            }
            &&& n == jobs.len() && n > 0 ==> {
                &&& now.stage == Stage::Waiting
                &&& action == ActionView::SubmitAndWait(jobs.len())
            }
            &&& n == jobs.len() && n == 0 ==> {
                &&& now.stage == Stage::Receiving
                &&& action == ActionView::DrainDeleteRequests
            }
        }),
    decreases rooms.len(),
{
    law_worker_stays_ok(worker, EventView::DescriptorsInUse(true));
    if rooms.len() > 0 {
        law_all_jobs_are_pushed(worker, rooms.drop_last());
        let start = worker.next(EventView::DescriptorsInUse(true));
        let before = after_pushes(start, rooms.drop_last()).0;
        law_a_full_ring_loses_no_job(before, (rooms.len() - 1) as usize);
        law_worker_stays_ok(before, EventView::Pushed(true));
    }
}

/// A file that is asked for and is open as a descriptor, be it from before or since it
/// was asked for, is synced in the same round, when storages are descriptors: its
/// descriptor goes into the ring under the number of a job that bears its name.
pub proof fn law_requested_descriptor_is_synced<F>(
    worker: WorkerView<F>,
    paths: Seq<Seq<char>>,
    findings: Seq<Finding<F>>,
    rooms: Seq<bool>,
    path: Seq<char>,
) -> (n: int)
    requires
        worker.ok(),
        worker.stage == Stage::Collecting,
        paths.len() <= usize::MAX,
        findings.len() == joined(Seq::empty(), paths).len(),
        ({
            let ready = after_looks(worker.next(EventView::Requests(paths)), findings).0;
            &&& rooms.len() == sync_jobs(ready.requested, ready.pool).len()
            &&& paths.contains(path)
            &&& ready.pool.contains_key(path)
            &&& ready.pool[path] is Fd
        }),
    ensures
        ({
            let ready = after_looks(worker.next(EventView::Requests(paths)), findings).0;
            let start = ready.next(EventView::DescriptorsInUse(true));
            let jobs = sync_jobs(ready.requested, ready.pool);
            &&& 0 <= n < jobs.len()
            &&& jobs[n].path == path
            &&& after_pushes(start, rooms.take(n)).1 == ActionView::Push(
                ready.pool[path]->Fd_0.raw_fd,
                n as u64,
            )
            &&& after_pushes(start, rooms).1 == ActionView::SubmitAndWait(jobs.len())
        }),
{
    law_requests_open_the_pool(worker, paths, findings);
    let ready = after_looks(worker.next(EventView::Requests(paths)), findings).0;
    let jobs = sync_jobs(ready.requested, ready.pool);
    law_sync_jobs(ready.requested, ready.pool);
    assert(ready.requested.contains(path));
    let n = choose|n: int| 0 <= n < jobs.len() && (#[trigger] jobs[n]).path == path;
    law_all_jobs_are_pushed(ready, rooms.take(n));
    law_all_jobs_are_pushed(ready, rooms);
    n
}

/// A file that is asked for and is open, be it from before or since it was asked for,
/// is flushed in the same round, when storages are not descriptors.
pub proof fn law_requested_file_is_flushed<F>(
    worker: WorkerView<F>,
    paths: Seq<Seq<char>>,
    findings: Seq<Finding<F>>,
    path: Seq<char>,
) -> (n: int)
    requires
        worker.ok(),
        worker.stage == Stage::Collecting,
        paths.len() <= usize::MAX,
        findings.len() == joined(Seq::empty(), paths).len(),
        paths.contains(path),
        worker.pool.contains_key(path) || opens(joined(Seq::empty(), paths), findings, path),
    ensures
        ({
            let ready = after_looks(worker.next(EventView::Requests(paths)), findings).0;
            let start = ready.next(EventView::DescriptorsInUse(false));
            &&& 0 <= n < open_among(ready.requested, ready.pool).len()
            &&& after_dones(start, n as nat).1 == ActionView::Flush(path)
        }),
{
    law_requests_open_the_pool(worker, paths, findings);
    let ready = after_looks(worker.next(EventView::Requests(paths)), findings).0;
    let files = open_among(ready.requested, ready.pool);
    law_every_open_file_is_flushed(ready, 0);
    assert(ready.requested.contains(path));
    assert(ready.pool.contains_key(path));
    assert(files.contains(path));
    let n = files.index_of(path);
    law_every_open_file_is_flushed(ready, n);
    n
}

} // verus!
