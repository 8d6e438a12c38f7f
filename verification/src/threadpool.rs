//! The resizable worker pool, modeled as verified state: the count of
//! running workers plus the shared work queue with exactly-once handover.
//!
//! OS threads themselves live outside the verified core (the application
//! crate runs the same protocol over real spawned workers and a shared
//! channel); here the pool's contracts pin down everything the scheduler
//! relies on: growing and shrinking move the worker count by exactly one,
//! submission never loses or duplicates an item, and the barrier hands every
//! queued unit of work back exactly once, in submission order, so the tick
//! that consumes them never depends on scheduling.

use vstd::prelude::*;

verus! {

/// One unit of work: a contiguous index range of the particle buffer,
/// updated by one worker in one tick.
#[derive(Clone, Copy, PartialEq, Eq, Structural, Debug)]
pub struct ChunkJob {
    pub begin: usize,
    pub end: usize,
}

/// One item of the shared queue: a unit of work, or the marker telling the
/// worker that receives it to report its identity and shut down.
#[derive(Clone, Copy, PartialEq, Eq, Structural, Debug)]
pub enum Work {
    Close,
    Closure(ChunkJob),
}

/// The units of work in a queue, oldest first, shutdown markers skipped.
pub open spec fn closures_of(q: Seq<Work>) -> Seq<ChunkJob>
    decreases q.len(),
{
    if q.len() == 0 {
        Seq::empty()
    } else {
        let rest = closures_of(q.drop_last());
        match q.last() {
            Work::Closure(j) => rest.push(j),
            Work::Close => rest,
        }
    }
}

/// Submitting a unit of work appends it to the delivered sequence; nothing
/// else moves. With the barrier's contract this is the exactly-once
/// guarantee: every submitted unit comes back once, in order.
pub proof fn lemma_queue_exactly_once(q: Seq<Work>, j: ChunkJob)
    ensures
        closures_of(q.push(Work::Closure(j))) == closures_of(q).push(j),
        closures_of(q.push(Work::Close)) == closures_of(q),
{
    assert(q.push(Work::Closure(j)).drop_last() =~= q);
    assert(q.push(Work::Close).drop_last() =~= q);
}

/// Why a worker removal was refused: there was nobody to remove, or units
/// of work were still queued — a lifecycle precondition violation that must
/// surface instead of racing the outstanding work.
#[derive(Clone, Copy, PartialEq, Eq, Structural, Debug)]
pub enum PoolError {
    NoWorkers,
    JobsOutstanding,
}

/// The worker pool: how many workers run, and what is queued for them.
pub struct Threadpool {
    /// The number of running workers.
    pub threads: usize,
    /// The shared multi-producer multi-consumer queue, oldest first.
    pub queue: Vec<Work>,
}

/// The pool after one worker is added.
pub open spec fn grown(p: Threadpool) -> Threadpool
    recommends
        p.threads < usize::MAX,
{
    Threadpool { threads: (p.threads + 1) as usize, queue: p.queue }
}

/// The pool after one worker has acknowledged shutdown and left.
pub open spec fn shrunk(p: Threadpool) -> Threadpool
    recommends
        p.threads >= 1,
{
    Threadpool { threads: (p.threads - 1) as usize, queue: p.queue }
}

/// Adding a worker and then removing one restores the pool exactly.
pub proof fn lemma_grow_shrink_roundtrip(p: Threadpool)
    requires
        p.threads < usize::MAX,
    ensures
        shrunk(grown(p)) == p,
{
}

impl Threadpool {
    /// An empty pool: no workers, nothing queued.
    pub fn new() -> (r: Threadpool)
        ensures
            r.threads == 0,
            r.queue@ =~= Seq::<Work>::empty(),
    {
        Threadpool::new_with_threads(0)
    }

    /// A pool with `num` workers and an empty queue.
    pub fn new_with_threads(num: usize) -> (r: Threadpool)
        ensures
            r.threads == num,
            r.queue@ =~= Seq::<Work>::empty(),
    {
        Threadpool { threads: num, queue: Vec::new() }
    }

    /// The number of running workers.
    pub fn num_threads(&self) -> (r: usize)
        ensures
            r == self.threads,
    {
        self.threads
    }

    /// Add exactly one worker sharing the same queue.
    pub fn new_thread(&mut self)
        requires
            old(self).threads < usize::MAX,
        ensures
            *final (self) == grown(*old(self)),
            final (self).threads == old(self).threads + 1,
            final (self).queue == old(self).queue,
    {
        self.threads = self.threads + 1;
    }

    /// Remove exactly one worker: a shutdown marker goes out, and the call
    /// stands for the blocking wait until the worker that received it has
    /// reported its identity and been reclaimed. Removing a worker is a
    /// between-ticks operation: while units of work are still queued the
    /// call is a lifecycle violation and fails fast, removing nobody, and
    /// with no workers running there is nobody to remove. Either failure is
    /// reported explicitly, never ignored.
    pub fn delete_thread(&mut self) -> (r: Result<(), PoolError>)
        ensures
            *old(self) == *final (self) || *final (self) == shrunk(*old(self)),
            final (self).queue == old(self).queue,
            r is Ok <==> old(self).threads > 0 && old(self).queue@.len() == 0,
            r is Ok ==> *final (self) == shrunk(*old(self)),
            old(self).threads == 0 ==> r == Result::<(), PoolError>::Err(PoolError::NoWorkers)
                && *final (self) == *old(self),
            old(self).threads > 0 && old(self).queue@.len() > 0 ==> r == Result::<
                (),
                PoolError,
            >::Err(PoolError::JobsOutstanding) && *final (self) == *old(self),
    {
        if self.threads == 0 {
            return Err(PoolError::NoWorkers);
        }
        if self.queue.len() > 0 {
            return Err(PoolError::JobsOutstanding);
        }
        self.threads = self.threads - 1;
        Ok(())
    }

    /// Enqueue one unit of work without blocking the submitter. Work
    /// submitted while no workers run stays queued; it is not an error.
    pub fn send_work(&mut self, job: ChunkJob)
        ensures
            final (self).queue@ == old(self).queue@.push(Work::Closure(job)),
            closures_of(final (self).queue@) == closures_of(old(self).queue@).push(job),
            final (self).threads == old(self).threads,
    {
        proof {
            lemma_queue_exactly_once(self.queue@, job);
        }
        self.queue.push(Work::Closure(job));
    }

    /// The barrier: block until every queued unit of work is done, and hand
    /// the units back to the caller, oldest first, each exactly once. In
    /// this verified core the caller performs them at the barrier itself,
    /// which fixes the reference behavior any threaded runner must
    /// reproduce.
    pub fn wait(&mut self) -> (jobs: Vec<ChunkJob>)
        ensures
            jobs@ == closures_of(old(self).queue@),
            final (self).queue@ =~= Seq::<Work>::empty(),
            final (self).threads == old(self).threads,
    {
        let mut jobs: Vec<ChunkJob> = Vec::new();
        let n = self.queue.len();
        let mut i: usize = 0;
        while i < n
            invariant
                0 <= i <= n,
                n == self.queue@.len(),
                jobs@ == closures_of(self.queue@.subrange(0, i as int)),
            decreases n - i,
        {
            proof {
                assert(self.queue@.subrange(0, i as int + 1).drop_last() =~= self.queue@.subrange(
                    0,
                    i as int,
                ));
                assert(self.queue@.subrange(0, i as int + 1).last() == self.queue@[i as int]);
            }
            match self.queue[i] {
                Work::Closure(j) => {
                    jobs.push(j);
                },
                Work::Close => {},
            }
            i = i + 1;
        }
        proof {
            assert(self.queue@.subrange(0, n as int) =~= self.queue@);
        }
        self.queue.clear();
        jobs
    }
}

} // verus!
