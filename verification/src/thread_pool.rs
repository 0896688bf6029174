//! The decisions of the pool of threads that run blocking work: how many
//! workers, the queue of submitted jobs, and what a worker does with a job.
use crate::error::ENOSYS;
use crate::links::{last_of, same_outside};
use crate::ready_fifo::ReadyFifo;
use crate::request::{
    Request, OP_FILE_READ, OP_FILE_WRITE, OP_IO_WORK, OP_NOOP, PENDING,
};
use vstd::prelude::*;

verus! {

/// The most worker threads a pool runs.
pub const MAX_POOL_THREADS: usize = 1024;

/// The stack size of a worker thread.
pub const WORKER_STACK_SIZE: usize = 262144;

/// The number of workers for `hw_parallelism` hardware threads: twice as
/// many plus one, at most `MAX_POOL_THREADS`.
pub fn pool_size(hw_parallelism: usize) -> (n: usize)
    requires
        hw_parallelism * 2 + 1 <= usize::MAX,
    ensures
        n == if hw_parallelism * 2 + 1 > MAX_POOL_THREADS {
            MAX_POOL_THREADS as int
        } else {
            hw_parallelism * 2 + 1
        },
{
    let mut n = hw_parallelism * 2 + 1;
    if n > MAX_POOL_THREADS {
        n = MAX_POOL_THREADS;
    }
    n
}

/// What a worker does with a job.
#[derive(Debug, Clone, Copy, PartialEq, Eq, Structural)]
pub enum JobAction {
    /// The job is over with this status; nothing to run.
    Complete(i32),
    /// Run the job's function.
    RunWork,
    /// Read from the job's file.
    FileRead,
    /// Write to the job's file.
    FileWrite,
}

/// What a worker does with `job`: a job that already has a status keeps
/// it; a no-op completes with `0`; work and file transfers run; any other
/// operation completes with `ENOSYS`.
pub fn job_action(job: &Request) -> (a: JobAction)
    ensures
        a == if job@.status != PENDING {
            JobAction::Complete(job@.status)
        } else if job@.opcode_raw() == OP_NOOP {
            JobAction::Complete(0)
        } else if job@.opcode_raw() == OP_IO_WORK {
            JobAction::RunWork
        } else if job@.opcode_raw() == OP_FILE_READ {
            JobAction::FileRead
        } else if job@.opcode_raw() == OP_FILE_WRITE {
            JobAction::FileWrite
        } else {
            JobAction::Complete(ENOSYS)
        },
{
    let status = job.status();
    if status != PENDING {
        return JobAction::Complete(status);
    }
    let opcode = job.opcode_raw();
    if opcode == OP_NOOP {
        JobAction::Complete(0)
    } else if opcode == OP_IO_WORK {
        JobAction::RunWork
    } else if opcode == OP_FILE_READ {
        JobAction::FileRead
    } else if opcode == OP_FILE_WRITE {
        JobAction::FileWrite
    } else {
        JobAction::Complete(ENOSYS)
    }
}

/// The jobs submitted to a pool and not taken by a worker yet, first
/// submitted first.
pub struct JobQueue {
    queue: ReadyFifo,
}

impl View for JobQueue {
    type V = Seq<usize>;

    /// The queued jobs, by position in the arena.
    closed spec fn view(&self) -> Seq<usize> {
        self.queue@
    }
}

impl JobQueue {
    /// The queue's own bookkeeping holds.
    pub closed spec fn inv(&self) -> bool {
        self.queue.inv()
    }

    /// The queue is consistent with the links stored in `reqs`.
    pub open spec fn wf(&self, reqs: Seq<Request>) -> bool {
        &&& self.inv()
        &&& crate::links::links_ok(reqs, self@)
    }

    /// An empty queue.
    pub fn new() -> (q: JobQueue)
        ensures
            q.inv(),
            q@ == Seq::<usize>::empty(),
    {
        JobQueue { queue: ReadyFifo::new() }
    }

    /// Tells whether no job waits.
    pub fn is_empty(&self) -> (b: bool)
        requires
            self.inv(),
        ensures
            b == (self@.len() == 0),
    {
        self.queue.is_empty()
    }

    /// Queues the unlinked job `req`, which must be tied to a completion
    /// queue (as `Request::is_concurrent` tells); returns whether the queue
    /// was empty, when an idle worker must be woken.
    pub fn submit(&mut self, reqs: &mut Vec<Request>, req: usize) -> (was_empty: bool)
        requires
            old(self).wf(old(reqs)@),
            req < old(reqs)@.len(),
            !old(reqs)@[req as int]@.in_list,
            !old(reqs)@[req as int]@.has_concurrent_flag(),
            old(reqs)@[req as int]@.completion_queue is Some,
        ensures
            final(self).wf(final(reqs)@),
            final(self)@ == old(self)@.push(req),
            was_empty == (old(self)@.len() == 0),
            same_outside(
                old(reqs)@,
                final(reqs)@,
                match last_of(old(self)@) {
                    Some(l) => set![req, l],
                    None => set![req],
                },
            ),
    {
        let was_empty = self.queue.is_empty();
        self.queue.push_back(reqs, req);
        was_empty
    }

    /// Takes the first queued job, `None` when there is none (a worker then
    /// waits for a submission).
    pub fn next_job(&mut self, reqs: &mut Vec<Request>) -> (job: Option<usize>)
        requires
            old(self).wf(old(reqs)@),
        ensures
            final(self).wf(final(reqs)@),
            job == crate::links::first_of(old(self)@),
            old(self)@.len() == 0 ==> final(self)@ == old(self)@ && final(reqs)@ == old(reqs)@,
            old(self)@.len() > 0 ==> {
                &&& final(self)@ == old(self)@.drop_first()
                &&& same_outside(old(reqs)@, final(reqs)@, set![old(self)@[0]])
                &&& !final(reqs)@[old(self)@[0] as int]@.in_list
            },
    {
        self.queue.pop_front(reqs)
    }
}

/// A pool always has at least one worker and never more than
/// `MAX_POOL_THREADS`, and more hardware threads never give fewer workers.
pub proof fn law_pool_size_bounds(a: usize, b: usize)
    requires
        a * 2 + 1 <= usize::MAX,
        b * 2 + 1 <= usize::MAX,
        a <= b,
    ensures
        ({
            let size_a = if a * 2 + 1 > MAX_POOL_THREADS { MAX_POOL_THREADS as int } else { a * 2 + 1 };
            let size_b = if b * 2 + 1 > MAX_POOL_THREADS { MAX_POOL_THREADS as int } else { b * 2 + 1 };
            1 <= size_a <= MAX_POOL_THREADS && size_a <= size_b
        }),
{
}

} // verus!
