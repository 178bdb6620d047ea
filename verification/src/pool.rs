//! The bookkeeping of a fixed-size worker pool.
//!
//! A pool owns a number of workers, fixed when it is made, and one queue
//! of jobs. Jobs leave the queue in the order in which they were
//! submitted, each to exactly one worker, and a worker holds at most one
//! job at a time. The pool decides; it runs nothing itself. The caller
//! owns the threads: each of them asks the pool what to do next, under
//! whatever lock guards the pool, and runs the job it is handed.

use std::collections::VecDeque;
use vstd::prelude::*;

verus! {

/// What a worker is doing.
#[derive(Debug, Clone, Copy, PartialEq, Eq, Structural)]
pub enum Worker {
    /// It holds no job.
    Idle,
    /// It was handed a job and has not come back for the next.
    Busy,
    /// It was told to exit.
    Exited,
}

/// What a worker is told when it asks for work.
#[derive(Debug, PartialEq, Eq)]
pub enum Directive<T> {
    /// Run this job, then ask again.
    Run(T),
    /// No job is queued: wait until the pool changes, then ask again.
    Wait,
    /// Leave the worker loop.
    Exit,
}

/// The state of a worker pool over jobs of type `T`.
pub struct Pool<T> {
    workers: Vec<Worker>,
    queue: VecDeque<T>,
    closing: bool,
}

/// The mathematical content of a `Pool`.
pub struct PoolView<T> {
    /// The workers, by their number.
    pub workers: Seq<Worker>,
    /// The jobs that no worker has taken yet, oldest first.
    pub queue: Seq<T>,
    /// Whether the pool was shut down.
    pub closing: bool,
}

impl<T> View for Pool<T> {
    type V = PoolView<T>;

    closed spec fn view(&self) -> PoolView<T> {
        PoolView { workers: self.workers@, queue: self.queue@, closing: self.closing }
    }
}

/// The number of busy workers among `workers`.
pub open spec fn busy_count(workers: Seq<Worker>) -> nat
    decreases workers.len(),
{
    if workers.len() == 0 {
        0
    } else {
        busy_count(workers.drop_last()) + if workers.last() == Worker::Busy {
            1nat
        } else {
            0nat
        }
    }
}

/// Whether every one of `workers` has exited.
pub open spec fn all_exited(workers: Seq<Worker>) -> bool {
    forall|i: int| 0 <= i < workers.len() ==> workers[i] == Worker::Exited
}

/// No more workers are busy than there are workers.
pub proof fn lemma_busy_count_bounded(workers: Seq<Worker>)
    ensures
        busy_count(workers) <= workers.len(),
    decreases workers.len(),
{
    if workers.len() > 0 {
        lemma_busy_count_bounded(workers.drop_last());
    }
}

/// The pool after a submission: the job joins the end of the queue, unless
/// the pool was shut down.
pub open spec fn submitted<T>(pool: PoolView<T>, job: T) -> PoolView<T> {
    if pool.closing {
        pool
    } else {
        PoolView { queue: pool.queue.push(job), ..pool }
    }
}

/// Whether `worker` names a worker of the pool that was not told to exit.
pub open spec fn in_service<T>(pool: PoolView<T>, worker: int) -> bool {
    0 <= worker < pool.workers.len() && pool.workers[worker] != Worker::Exited
}

/// What `worker` is told when it asks for work. A worker that is not in
/// service is told to exit. Any other takes the oldest job; with no job
/// queued it exits if the pool was shut down, and waits if not.
pub open spec fn directive<T>(pool: PoolView<T>, worker: int) -> Directive<T> {
    if !in_service(pool, worker) {
        Directive::Exit
    } else if pool.queue.len() > 0 {
        Directive::Run(pool.queue.first())
    } else if pool.closing {
        Directive::Exit
    } else {
        Directive::Wait
    }
}

/// The pool after `worker` asked for work: the job it held is done, and
/// the job it was handed has left the queue.
pub open spec fn asked<T>(pool: PoolView<T>, worker: int) -> PoolView<T> {
    if !in_service(pool, worker) {
        pool
    } else if pool.queue.len() > 0 {
        PoolView {
            workers: pool.workers.update(worker, Worker::Busy),
            queue: pool.queue.drop_first(),
            ..pool
        }
    } else if pool.closing {
        PoolView { workers: pool.workers.update(worker, Worker::Exited), ..pool }
    } else {
        PoolView { workers: pool.workers.update(worker, Worker::Idle), ..pool }
    }
}

/// No step of a pool changes the number of its workers, so a pool that has
/// workers keeps them.
pub proof fn lemma_workers_stay<T>(pool: PoolView<T>, job: T, worker: int)
    ensures
        submitted(pool, job).workers.len() == pool.workers.len(),
        asked(pool, worker).workers.len() == pool.workers.len(),
        busy_count(asked(pool, worker).workers) <= pool.workers.len(),
{
    lemma_busy_count_bounded(asked(pool, worker).workers);
}

/// A job is handed out as often as it leaves the queue: when a worker is
/// told to run a job, that job was the oldest in the queue and the rest of
/// the queue stays as it was; when it is told anything else, the queue is
/// untouched.
pub proof fn lemma_jobs_leave_in_order<T>(pool: PoolView<T>, worker: int)
    ensures
        match directive(pool, worker) {
            Directive::Run(job) => pool.queue.len() > 0 && job == pool.queue[0] && seq![job] + asked(
                pool,
                worker,
            ).queue == pool.queue,
            _ => asked(pool, worker).queue == pool.queue,
        },
{
}

/// A pool as `Pool::new` makes it: `size` idle workers, no job, not shut
/// down.
pub open spec fn fresh<T>(size: nat) -> PoolView<T> {
    PoolView {
        workers: Seq::new(size, |i: int| Worker::Idle),
        queue: Seq::<T>::empty(),
        closing: false,
    }
}

/// The pool after it was shut down.
pub open spec fn shut_down<T>(pool: PoolView<T>) -> PoolView<T> {
    PoolView { closing: true, ..pool }
}

/// The pool after the jobs of `jobs` were submitted, in their order.
pub open spec fn submitted_all<T>(pool: PoolView<T>, jobs: Seq<T>) -> PoolView<T>
    decreases jobs.len(),
{
    if jobs.len() == 0 {
        pool
    } else {
        submitted(submitted_all(pool, jobs.drop_last()), jobs.last())
    }
}

/// The pool after the workers named in `order` asked for work, one after
/// the other. A worker may be named more than once: it asks again when it
/// is done with what it was handed.
pub open spec fn asked_all<T>(pool: PoolView<T>, order: Seq<int>) -> PoolView<T>
    decreases order.len(),
{
    if order.len() == 0 {
        pool
    } else {
        asked(asked_all(pool, order.drop_last()), order.last())
    }
}

/// What the `i`-th worker of `order` is told when the workers of `order`
/// ask one after the other.
pub open spec fn told<T>(pool: PoolView<T>, order: Seq<int>, i: int) -> Directive<T> {
    directive(asked_all(pool, order.take(i)), order[i])
}

/// One thing that can happen to a pool.
pub enum Step<T> {
    /// A job is submitted.
    Submit(T),
    /// The worker of this number asks for work.
    Ask(int),
    /// The pool is shut down.
    Shutdown,
}

/// The pool after one step.
pub open spec fn stepped<T>(pool: PoolView<T>, step: Step<T>) -> PoolView<T> {
    match step {
        Step::Submit(job) => submitted(pool, job),
        Step::Ask(worker) => asked(pool, worker),
        Step::Shutdown => shut_down(pool),
    }
}

/// The pool after the steps of `steps` happened, in their order.
pub open spec fn ran<T>(pool: PoolView<T>, steps: Seq<Step<T>>) -> PoolView<T>
    decreases steps.len(),
{
    if steps.len() == 0 {
        pool
    } else {
        stepped(ran(pool, steps.drop_last()), steps.last())
    }
}

/// Whatever happens to a pool of `size` workers, in whatever order, it
/// keeps its `size` workers, and at no time do more than `size` of them
/// hold a job.
pub proof fn lemma_never_more_than_size<T>(size: nat, steps: Seq<Step<T>>)
    ensures
        ran(fresh::<T>(size), steps).workers.len() == size,
        busy_count(ran(fresh::<T>(size), steps).workers) <= size,
    decreases steps.len(),
{
    if steps.len() > 0 {
        lemma_never_more_than_size::<T>(size, steps.drop_last());
    }
    lemma_busy_count_bounded(ran(fresh::<T>(size), steps).workers);
}

/// Jobs submitted to a pool that is not shut down join its queue in the
/// order of their submission; nothing else changes, and no job is run,
/// dropped or refused.
pub proof fn lemma_submitted_all<T>(pool: PoolView<T>, jobs: Seq<T>)
    requires
        !pool.closing,
    ensures
        submitted_all(pool, jobs) == (PoolView { queue: pool.queue + jobs, ..pool }),
    decreases jobs.len(),
{
    if jobs.len() > 0 {
        lemma_submitted_all(pool, jobs.drop_last());
        assert((pool.queue + jobs.drop_last()).push(jobs.last()) =~= pool.queue + jobs);
    }
}

/// While jobs wait, every worker that asks is handed one: where the
/// workers of `order` are in service and no more of them ask than jobs
/// wait, the `i`-th to ask is handed the `i`-th job of the queue, the
/// jobs behind those stay queued in their order, every worker that asked
/// holds a job, and no other worker changes.
pub proof fn lemma_asked_all<T>(pool: PoolView<T>, order: Seq<int>)
    requires
        order.len() <= pool.queue.len(),
        forall|i: int| 0 <= i < order.len() ==> in_service(pool, #[trigger] order[i]),
    ensures
        asked_all(pool, order).queue == pool.queue.skip(order.len() as int),
        asked_all(pool, order).closing == pool.closing,
        asked_all(pool, order).workers.len() == pool.workers.len(),
        forall|w: int|
            0 <= w < pool.workers.len() ==> #[trigger] asked_all(pool, order).workers[w] == if order.contains(
                w,
            ) {
                Worker::Busy
            } else {
                pool.workers[w]
            },
        forall|i: int|
            0 <= i < order.len() ==> #[trigger] told(pool, order, i) == Directive::Run(
                pool.queue[i],
            ),
    decreases order.len(),
{
    if order.len() > 0 {
        // By induction the workers before the last have taken the jobs
        // before the last; the last worker is still in service and finds
        // the next job at the head of the queue.
        let before = order.drop_last();
        assert(forall|i: int| 0 <= i < before.len() ==> before[i] == order[i]);
        lemma_asked_all(pool, before);
        assert forall|v: int| 0 <= v < pool.workers.len() implies #[trigger] asked_all(
            pool,
            order,
        ).workers[v] == if order.contains(v) {
            Worker::Busy
        } else {
            pool.workers[v]
        } by {
            if v != order.last() && !before.contains(v) && order.contains(v) {
                let i = choose|i: int| 0 <= i < order.len() && order[i] == v;
                assert(before[i] == v);
            }
        }
        assert forall|i: int| 0 <= i < order.len() implies #[trigger] told(pool, order, i)
            == Directive::Run(pool.queue[i]) by {
            if i < before.len() {
                assert(order.take(i) =~= before.take(i));
                assert(told(pool, before, i) == Directive::Run(pool.queue[i]));
            }
        }
    }
}

/// Workers that are all busy count as many as they are; workers of which
/// none is busy count zero.
pub proof fn lemma_busy_count_uniform(workers: Seq<Worker>)
    ensures
        (forall|i: int| 0 <= i < workers.len() ==> workers[i] == Worker::Busy) ==> busy_count(
            workers,
        ) == workers.len(),
        (forall|i: int| 0 <= i < workers.len() ==> workers[i] != Worker::Busy) ==> busy_count(
            workers,
        ) == 0,
    decreases workers.len(),
{
    if workers.len() > 0 {
        let rest = workers.drop_last();
        lemma_busy_count_uniform(rest);
    }
}

/// Twice as many jobs as workers: when `2 * size` jobs were submitted to a
/// fresh pool of `size` workers, none runs before a worker asks; and once
/// each worker has asked once, in whatever order, the first `size` jobs
/// are each in the hands of one worker, exactly `size` workers hold a job,
/// and the other `size` jobs wait in the queue, in their order.
pub proof fn lemma_twice_as_many_jobs<T>(size: nat, jobs: Seq<T>, order: Seq<int>)
    requires
        size >= 1,
        jobs.len() == 2 * size,
        order.len() == size,
        forall|i: int| 0 <= i < order.len() ==> 0 <= #[trigger] order[i] < size,
        forall|w: int| 0 <= w < size ==> order.contains(w),
    ensures
        ({
            let queued = submitted_all(fresh::<T>(size), jobs);
            let started = asked_all(queued, order);
            &&& queued.queue == jobs
            &&& busy_count(queued.workers) == 0
            &&& forall|i: int|
                0 <= i < size ==> #[trigger] told(queued, order, i) == Directive::Run(jobs[i])
            &&& busy_count(started.workers) == size
            &&& started.workers.len() == size
            &&& started.queue == jobs.skip(size as int)
            &&& started.queue.len() == size
        }),
{
    let pool = fresh::<T>(size);
    lemma_submitted_all(pool, jobs);
    let queued = submitted_all(pool, jobs);
    lemma_busy_count_uniform(queued.workers);
    lemma_asked_all(queued, order);
    let started = asked_all(queued, order);
    lemma_busy_count_uniform(started.workers);
}

/// Every job is handed out exactly once: when the jobs of `jobs` were
/// submitted to a fresh pool of `size` workers and workers keep asking, in
/// whatever order they come back, the `i`-th to ask is handed the `i`-th
/// job. After as many asks as there are jobs none is left in the queue,
/// and the next worker to ask is told to wait. At no point in between do
/// more than `size` workers hold a job.
pub proof fn lemma_every_job_is_handed_out_once<T>(size: nat, jobs: Seq<T>, order: Seq<int>)
    requires
        size >= 1,
        order.len() == jobs.len(),
        forall|i: int| 0 <= i < order.len() ==> 0 <= #[trigger] order[i] < size,
    ensures
        ({
            let queued = submitted_all(fresh::<T>(size), jobs);
            let done = asked_all(queued, order);
            &&& forall|i: int|
                0 <= i < jobs.len() ==> #[trigger] told(queued, order, i) == Directive::Run(jobs[i])
            &&& forall|k: int|
                0 <= k <= order.len() ==> busy_count(
                    #[trigger] asked_all(queued, order.take(k)).workers,
                ) <= size
            &&& done.queue.len() == 0
            &&& forall|w: int| 0 <= w < size ==> #[trigger] directive(done, w) == Directive::<
                T,
            >::Wait
        }),
{
    let pool = fresh::<T>(size);
    lemma_submitted_all(pool, jobs);
    let queued = submitted_all(pool, jobs);
    lemma_asked_all(queued, order);
    assert forall|k: int| 0 <= k <= order.len() implies busy_count(
        #[trigger] asked_all(queued, order.take(k)).workers,
    ) <= size by {
        let prefix = order.take(k);
        assert(forall|i: int| 0 <= i < prefix.len() ==> prefix[i] == order[i]);
        lemma_asked_all(queued, prefix);
        lemma_busy_count_bounded(asked_all(queued, prefix).workers);
    }
}

impl<T> Pool<T> {
    /// What holds of every pool that `new` made, whatever was done to it
    /// since: it has at least one worker.
    pub open spec fn wf(&self) -> bool {
        self@.workers.len() > 0
    }

    /// A pool of `size` idle workers with an empty queue.
    pub fn new(size: usize) -> (pool: Pool<T>)
        requires
            size > 0,
        ensures
            pool.wf(),
            pool@ == fresh::<T>(size as nat),
    {
        let mut workers: Vec<Worker> = Vec::new();
        while workers.len() < size
            invariant
                workers.len() <= size,
                forall|i: int| 0 <= i < workers.len() ==> workers@[i] == Worker::Idle,
            decreases size - workers.len(),
        {
            workers.push(Worker::Idle);
        }
        assert(workers@ =~= fresh::<T>(size as nat).workers);
        Pool { workers, queue: VecDeque::new(), closing: false }
    }

    /// The number of workers.
    pub fn size(&self) -> (n: usize)
        ensures
            n == self@.workers.len(),
    {
        self.workers.len()
    }

    /// The number of jobs that no worker has taken yet.
    pub fn pending(&self) -> (n: usize)
        ensures
            n == self@.queue.len(),
    {
        self.queue.len()
    }

    /// The number of workers that hold a job. It never exceeds the number
    /// of workers.
    pub fn running(&self) -> (n: usize)
        ensures
            n == busy_count(self@.workers),
            n <= self@.workers.len(),
    {
        let mut n: usize = 0;
        let mut i: usize = 0;
        while i < self.workers.len()
            invariant
                i <= self.workers.len(),
                n == busy_count(self.workers@.take(i as int)),
                n <= i,
            decreases self.workers.len() - i,
        {
            proof {
                let next = self.workers@.take(i + 1);
                assert(next.drop_last() =~= self.workers@.take(i as int));
            }
            if self.workers[i] == Worker::Busy {
                n += 1;
            }
            i += 1;
        }
        assert(self.workers@.take(i as int) =~= self.workers@);
        n
    }

    /// Whether the pool was shut down.
    pub fn is_closing(&self) -> (closing: bool)
        ensures
            closing == self@.closing,
    {
        self.closing
    }

    /// Whether every worker has exited.
    pub fn is_finished(&self) -> (finished: bool)
        ensures
            finished == all_exited(self@.workers),
    {
        let mut i: usize = 0;
        while i < self.workers.len()
            invariant
                i <= self.workers.len(),
                forall|j: int| 0 <= j < i ==> self.workers@[j] == Worker::Exited,
            decreases self.workers.len() - i,
        {
            if self.workers[i] != Worker::Exited {
                return false;
            }
            i += 1;
        }
        true
    }

    /// Queues `job` behind the jobs submitted before it. A pool that was
    /// shut down takes no job: it hands `job` back.
    pub fn submit(&mut self, job: T) -> (r: Result<(), T>)
        ensures
            final(self)@ == submitted(old(self)@, job),
            match r {
                Ok(_) => !old(self)@.closing,
                Err(back) => old(self)@.closing && back == job,
            },
    {
        if self.closing {
            Err(job)
        } else {
            self.queue.push_back(job);
            Ok(())
        }
    }

    /// Answers `worker`, which holds no job any more, with what it is to do
    /// next, and hands it the oldest job where there is one.
    pub fn next(&mut self, worker: usize) -> (d: Directive<T>)
        ensures
            d == directive(old(self)@, worker as int),
            final(self)@ == asked(old(self)@, worker as int),
    {
        if worker >= self.workers.len() || self.workers[worker] == Worker::Exited {
            return Directive::Exit;
        }
        match self.queue.pop_front() {
            Some(job) => {
                self.workers.set(worker, Worker::Busy);
                Directive::Run(job)
            },
            None => {
                if self.closing {
                    self.workers.set(worker, Worker::Exited);
                    Directive::Exit
                } else {
                    self.workers.set(worker, Worker::Idle);
                    Directive::Wait
                }
            },
        }
    }

    /// Shuts the pool down: it takes no further job, and each worker is
    /// told to exit once the queue is empty.
    pub fn shutdown(&mut self)
        ensures
            final(self)@ == shut_down(old(self)@),
    {
        self.closing = true;
    }
}

} // verus!
