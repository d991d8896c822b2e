//! The single worker: a bounded queue of jobs in the order of their
//! submission, and the one pipeline that serves them.

use std::collections::VecDeque;
use vstd::prelude::*;
use crate::call::Call;
use crate::script::Error;

verus! {

/// The number of jobs that may wait for the worker.
pub const QUEUE_CAPACITY: usize = 32;

/// One job: the identity of its workspace, the request, and the handle on
/// which its result is owed.
pub struct Job<R> {
    pub identity: usize,
    pub call: Call,
    pub reply: R,
}

/// What a job came to, for the handle on which it is owed.
pub struct Delivery<R> {
    pub reply: R,
    /// The output, or why there is none.
    pub outcome: Result<String, Error>,
    /// What the processes printed beside the output.
    pub diagnostics: Vec<u8>,
}

/// What the worker is doing.
pub enum Phase {
    /// No job is in flight.
    Idle,
    /// The pipeline of one job runs.
    Running,
    /// The pipeline has ended and its result is not yet delivered.
    Completing,
}

enum Slot<R> {
    Idle,
    Running { reply: R },
    Completing { delivery: Delivery<R> },
}

/// The worker with its queue.
pub struct Worker<R> {
    queue: VecDeque<Job<R>>,
    limit: usize,
    slot: Slot<R>,
    accepted: Ghost<Seq<Job<R>>>,
    started: Ghost<nat>,
    delivered: Ghost<nat>,
}

impl<R> Worker<R> {
    /// Every job accepted so far, in the order of submission.
    pub closed spec fn accepted(self) -> Seq<Job<R>> {
        self.accepted@
    }

    /// The number of jobs whose pipeline has begun.
    pub closed spec fn started(self) -> nat {
        self.started@
    }

    /// The number of jobs whose result has been delivered.
    pub closed spec fn delivered(self) -> nat {
        self.delivered@
    }

    /// The number of jobs that may wait.
    pub closed spec fn limit(self) -> nat {
        self.limit as nat
    }

    /// What the worker is doing.
    pub closed spec fn phase(self) -> Phase {
        match self.slot {
            Slot::Idle => Phase::Idle,
            Slot::Running { .. } => Phase::Running,
            Slot::Completing { .. } => Phase::Completing,
        }
    }

    /// The result that waits to be delivered.
    pub closed spec fn pending(self) -> Delivery<R>
        recommends
            self.phase() is Completing,
    {
        match self.slot {
            Slot::Completing { delivery } => delivery,
            _ => arbitrary(),
        }
    }

    /// The jobs that wait, the next one first: the accepted jobs that have
    /// not begun.
    pub open spec fn waiting(self) -> Seq<Job<R>> {
        self.accepted().skip(self.started() as int)
    }

    /// The queue holds the accepted jobs that have not begun, in order and
    /// within its limit; at most one job has begun and is not delivered, and
    /// its reply handle is the one it was submitted with.
    pub closed spec fn wf(self) -> bool {
        &&& self.started@ <= self.accepted@.len()
        &&& self.queue@ == self.accepted@.skip(self.started@ as int)
        &&& self.queue@.len() <= self.limit
        &&& match self.slot {
            Slot::Idle => self.delivered@ == self.started@,
            Slot::Running { reply } => self.started@ == self.delivered@ + 1 && reply
                == self.accepted@[self.delivered@ as int].reply,
            Slot::Completing { delivery } => self.started@ == self.delivered@ + 1
                && delivery.reply == self.accepted@[self.delivered@ as int].reply,
        }
    }

    /// An idle worker with an empty queue for up to `limit` jobs.
    pub fn new(limit: usize) -> (w: Self)
        ensures
            w.wf(),
            w.accepted() == Seq::<Job<R>>::empty(),
            w.started() == 0,
            w.delivered() == 0,
            w.limit() == limit,
            w.phase() is Idle,
    {
        let w = Worker {
            queue: VecDeque::new(),
            limit,
            slot: Slot::Idle,
            accepted: Ghost(Seq::empty()),
            started: Ghost(0),
            delivered: Ghost(0),
        };
        assert(w.queue@ =~= w.accepted@.skip(0));
        w
    }

    /// Submits a job. It is accepted at the end of the queue while the
    /// queue has room. From a full queue it comes back, and the worker is
    /// as before: the caller waits and submits again.
    pub fn submit(&mut self, job: Job<R>) -> (r: Result<(), Job<R>>)
        requires
            old(self).wf(),
        ensures
            final(self).wf(),
            final(self).limit() == old(self).limit(),
            final(self).started() == old(self).started(),
            final(self).delivered() == old(self).delivered(),
            final(self).phase() == old(self).phase(),
            match r {
                Ok(()) => old(self).waiting().len() < old(self).limit() && final(self).accepted()
                    == old(self).accepted().push(job),
                Err(back) => old(self).waiting().len() >= old(self).limit() && back == job
                    && final(self).accepted() == old(self).accepted(),
            },
    {
        if self.queue.len() < self.limit {
            self.queue.push_back(job);
            proof {
                self.accepted = Ghost(self.accepted@.push(job));
            }
            assert(self.queue@ =~= self.accepted@.skip(self.started@ as int));
            Ok(())
        } else {
            Err(job)
        }
    }

    /// Begins the next job. An idle worker takes the job that has waited
    /// longest and runs its pipeline; a worker that is not idle, or has no
    /// job waiting, stays as it is.
    pub fn start(&mut self) -> (r: Option<(usize, Call)>)
        requires
            old(self).wf(),
        ensures
            final(self).wf(),
            final(self).limit() == old(self).limit(),
            final(self).accepted() == old(self).accepted(),
            final(self).delivered() == old(self).delivered(),
            match r {
                Some((identity, call)) => {
                    &&& old(self).phase() is Idle
                    &&& old(self).waiting().len() > 0
                    &&& identity == old(self).waiting()[0].identity
                    &&& call == old(self).waiting()[0].call
                    &&& final(self).phase() is Running
                    &&& final(self).started() == old(self).started() + 1
                },
                None => {
                    &&& !(old(self).phase() is Idle) || old(self).waiting().len() == 0
                    &&& final(self).phase() == old(self).phase()
                    &&& final(self).started() == old(self).started()
                },
            },
    {
        match &self.slot {
            Slot::Idle => {},
            _ => {
                return None;
            },
        }
        match self.queue.pop_front() {
            None => None,
            Some(job) => {
                let Job { identity, call, reply } = job;
                self.slot = Slot::Running { reply };
                proof {
                    self.started = Ghost(self.started@ + 1);
                }
                assert(self.queue@ =~= self.accepted@.skip(self.started@ as int));
                Some((identity, call))
            },
        }
    }

    /// Records how the running job's pipeline ended. The result then waits
    /// to be delivered. A worker that runs no job stays as it is and gives
    /// back `false`.
    pub fn finish(&mut self, outcome: Result<String, Error>, diagnostics: Vec<u8>) -> (done: bool)
        requires
            old(self).wf(),
        ensures
            final(self).wf(),
            final(self).limit() == old(self).limit(),
            final(self).accepted() == old(self).accepted(),
            final(self).started() == old(self).started(),
            final(self).delivered() == old(self).delivered(),
            done == (old(self).phase() is Running),
            done ==> final(self).phase() is Completing && final(self).pending().outcome == outcome
                && final(self).pending().diagnostics == diagnostics,
            !done ==> final(self).phase() == old(self).phase(),
            !done && old(self).phase() is Completing ==> final(self).pending() == old(
                self,
            ).pending(),
    {
        let mut slot = Slot::Idle;
        std::mem::swap(&mut self.slot, &mut slot);
        match slot {
            Slot::Running { reply } => {
                self.slot = Slot::Completing { delivery: Delivery { reply, outcome, diagnostics } };
                true
            },
            other => {
                self.slot = other;
                false
            },
        }
    }

    /// Hands out the result that waits, with the reply handle of the job
    /// that it belongs to, and makes the worker idle. Each result is handed
    /// out once. A worker with no result waiting stays as it is.
    pub fn deliver(&mut self) -> (r: Option<Delivery<R>>)
        requires
            old(self).wf(),
        ensures
            final(self).wf(),
            final(self).limit() == old(self).limit(),
            final(self).accepted() == old(self).accepted(),
            final(self).started() == old(self).started(),
            match r {
                Some(delivery) => {
                    &&& old(self).phase() is Completing
                    &&& delivery == old(self).pending()
                    &&& old(self).delivered() < old(self).accepted().len()
                    &&& delivery.reply == old(self).accepted()[old(self).delivered() as int].reply
                    &&& final(self).phase() is Idle
                    &&& final(self).delivered() == old(self).delivered() + 1
                },
                None => {
                    &&& !(old(self).phase() is Completing)
                    &&& final(self).phase() == old(self).phase()
                    &&& final(self).delivered() == old(self).delivered()
                },
            },
    {
        let mut slot = Slot::Idle;
        std::mem::swap(&mut self.slot, &mut slot);
        match slot {
            Slot::Completing { delivery } => {
                proof {
                    self.delivered = Ghost(self.delivered@ + 1);
                }
                Some(delivery)
            },
            other => {
                self.slot = other;
                None
            },
        }
    }

    /// Jobs are served strictly in the order of their submission: when a
    /// job has begun, the result of every job accepted before it has been
    /// delivered.
    pub proof fn lemma_strict_order(self, earlier: int, later: int)
        requires
            self.wf(),
            0 <= earlier < later < self.accepted().len(),
            later < self.started(),
        ensures
            earlier < self.delivered(),
    {
    }

    /// At most one pipeline is in flight, and none while the worker is idle.
    pub proof fn lemma_one_pipeline(self)
        requires
            self.wf(),
        ensures
            self.delivered() <= self.started() <= self.delivered() + 1,
            self.started() <= self.accepted().len(),
            self.waiting().len() <= self.limit(),
            self.phase() is Idle <==> self.started() == self.delivered(),
    {
    }
}

} // verus!
