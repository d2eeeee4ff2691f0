//! The worker-pool model: a fixed number of workers, live busy/idle
//! accounting under the invariant `busy + idle == total`, and an unbounded
//! FIFO job queue.
//!
//! The blocking parts of a pool — parking worker threads on the queue and
//! waking them — live outside this crate. The accounting decisions live
//! here: a job is handed out only when an idle worker is available, taking a
//! job moves one worker from idle to busy, and finishing one moves it back,
//! so a pool of `N` workers never has more than `N` jobs running at once.

use std::sync::Arc;
use vstd::prelude::*;

use crate::router::HelixRouter;

verus! {

/// A fixed pool of workers sharing the engine handle and the router, with a
/// queue of jobs of type `J` awaiting an idle worker.
pub struct ThreadPool<E, H, J> {
    graph: Arc<E>,
    router: Arc<HelixRouter<H>>,
    num_workers: usize,
    num_used_workers: usize,
    num_unused_workers: usize,
    jobs: Vec<J>,
}

impl<E, H, J> ThreadPool<E, H, J> {
    /// The fixed number of workers, as set at construction.
    pub closed spec fn spec_total(&self) -> int {
        self.num_workers as int
    }

    /// How many workers are currently executing a job.
    pub closed spec fn spec_busy(&self) -> int {
        self.num_used_workers as int
    }

    /// How many workers are currently idle.
    pub closed spec fn spec_idle(&self) -> int {
        self.num_unused_workers as int
    }

    /// The jobs waiting for an idle worker, oldest first.
    pub closed spec fn spec_jobs(&self) -> Seq<J> {
        self.jobs@
    }

    /// The shared engine handle each job is processed against.
    pub closed spec fn spec_graph(&self) -> Arc<E> {
        self.graph
    }

    /// The shared dispatch table.
    pub closed spec fn spec_router(&self) -> Arc<HelixRouter<H>> {
        self.router
    }

    /// The accounting invariant: every worker is either busy or idle, and
    /// the pool was built with at least one worker.
    pub closed spec fn wf(&self) -> bool {
        self.num_used_workers + self.num_unused_workers == self.num_workers && self.num_workers
            >= 1
    }

    /// A pool of `size` workers, all idle, with an empty queue. A pool of
    /// size zero cannot be built: the caller must reject that configuration
    /// before construction.
    pub fn new(size: usize, graph: Arc<E>, router: Arc<HelixRouter<H>>) -> (r: ThreadPool<
        E,
        H,
        J,
    >)
        requires
            size >= 1,
        ensures
            r.wf(),
            r.spec_total() == size,
            r.spec_busy() == 0,
            r.spec_idle() == size,
            r.spec_jobs() == Seq::<J>::empty(),
            r.spec_graph() == graph,
            r.spec_router() == router,
    {
        let r = ThreadPool {
            graph,
            router,
            num_workers: size,
            num_used_workers: 0,
            num_unused_workers: size,
            jobs: Vec::new(),
        };
        proof {
            assert(r.jobs@ =~= Seq::<J>::empty());
        }
        r
    }

    /// Borrows the shared engine handle.
    pub fn graph(&self) -> (g: &Arc<E>)
        ensures
            g == self.spec_graph(),
    {
        &self.graph
    }

    /// Borrows the shared dispatch table.
    pub fn router(&self) -> (r: &Arc<HelixRouter<H>>)
        ensures
            r == self.spec_router(),
    {
        &self.router
    }

    /// The number of workers currently executing a job.
    pub fn num_used_workers(&self) -> (n: usize)
        ensures
            n as int == self.spec_busy(),
    {
        self.num_used_workers
    }

    /// The number of workers currently idle.
    pub fn num_unused_workers(&self) -> (n: usize)
        ensures
            n as int == self.spec_idle(),
    {
        self.num_unused_workers
    }

    /// The fixed number of workers.
    pub fn num_workers(&self) -> (n: usize)
        ensures
            n as int == self.spec_total(),
    {
        self.num_workers
    }

    /// The number of jobs waiting for an idle worker.
    pub fn queued_jobs(&self) -> (n: usize)
        ensures
            n as int == self.spec_jobs().len(),
    {
        self.jobs.len()
    }

    /// Enqueues a job for any idle worker. Never blocks and never refuses:
    /// excess jobs queue up, and the counters are untouched.
    pub fn submit(&mut self, job: J)
        requires
            old(self).wf(),
        ensures
            final(self).wf(),
            final(self).spec_jobs() == old(self).spec_jobs().push(job),
            final(self).spec_total() == old(self).spec_total(),
            final(self).spec_busy() == old(self).spec_busy(),
            final(self).spec_idle() == old(self).spec_idle(),
            final(self).spec_graph() == old(self).spec_graph(),
            final(self).spec_router() == old(self).spec_router(),
    {
        self.jobs.push(job);
    }

    /// Hands the oldest queued job to an idle worker, moving that worker
    /// from idle to busy. Yields nothing when the queue is empty or no
    /// worker is idle, leaving the pool unchanged.
    pub fn take_job(&mut self) -> (j: Option<J>)
        requires
            old(self).wf(),
        ensures
            final(self).wf(),
            final(self).spec_total() == old(self).spec_total(),
            final(self).spec_graph() == old(self).spec_graph(),
            final(self).spec_router() == old(self).spec_router(),
            (match j {
                Some(job) => {
                    &&& old(self).spec_jobs().len() > 0
                    &&& old(self).spec_idle() > 0
                    &&& job == old(self).spec_jobs()[0]
                    &&& final(self).spec_jobs() == old(self).spec_jobs().remove(0)
                    &&& final(self).spec_busy() == old(self).spec_busy() + 1
                    &&& final(self).spec_idle() == old(self).spec_idle() - 1
                },
                None => {
                    &&& (old(self).spec_jobs().len() == 0 || old(self).spec_idle() == 0)
                    &&& *final(self) == *old(self)
                },
            }),
    {
        if self.jobs.len() > 0 && self.num_unused_workers > 0 {
            let job = self.jobs.remove(0);
            self.num_used_workers = self.num_used_workers + 1;
            self.num_unused_workers = self.num_unused_workers - 1;
            Some(job)
        } else {
            None
        }
    }

    /// Marks one busy worker idle again after its job finished, whatever the
    /// job's own outcome was: failed jobs restore capacity too.
    pub fn finish_job(&mut self)
        requires
            old(self).wf(),
            old(self).spec_busy() > 0,
        ensures
            final(self).wf(),
            final(self).spec_total() == old(self).spec_total(),
            final(self).spec_busy() == old(self).spec_busy() - 1,
            final(self).spec_idle() == old(self).spec_idle() + 1,
            final(self).spec_jobs() == old(self).spec_jobs(),
            final(self).spec_graph() == old(self).spec_graph(),
            final(self).spec_router() == old(self).spec_router(),
    {
        self.num_used_workers = self.num_used_workers - 1;
        self.num_unused_workers = self.num_unused_workers + 1;
    }
}

/// Law: under the accounting invariant every worker is busy or idle and
/// nothing else, so `busy + idle == total` at every observable instant and,
/// in particular, the number of concurrently executing jobs never exceeds
/// the pool size, however many jobs were submitted.
pub proof fn lemma_pool_accounting<E, H, J>(p: &ThreadPool<E, H, J>)
    requires
        p.wf(),
    ensures
        p.spec_busy() + p.spec_idle() == p.spec_total(),
        0 <= p.spec_busy() <= p.spec_total(),
        0 <= p.spec_idle() <= p.spec_total(),
{
}

} // verus!
