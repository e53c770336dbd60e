use vstd::prelude::*;
use crate::message::{Action, Message, WorkerState};
use crate::queue::JobQueue;

verus! {

/// One worker of the pool: a stable id and its state.
pub struct Worker {
    pub id: usize,
    pub state: WorkerState,
}

impl Worker {
    /// A worker that has just started, waiting for its first message.
    pub fn new(id: usize) -> (w: Self)
        ensures
            w.id == id,
            w.state == WorkerState::Idle,
    {
        Worker { id, state: WorkerState::Idle }
    }
}

/// The seq of `n` terminate messages.
pub open spec fn terminates<J>(n: nat) -> Seq<Message<J>> {
    Seq::new(n, |i: int| Message::<J>::Terminate)
}

/// How many of the states are `Terminated`: the workers that took a
/// terminate message.
pub open spec fn count_exited(s: Seq<WorkerState>) -> nat
    decreases s.len(),
{
    if s.len() == 0 {
        0
    } else {
        count_exited(s.drop_last()) + if s.last() == WorkerState::Terminated {
            1nat
        } else {
            0nat
        }
    }
}

/// Changing one state moves the count by that state alone.
pub proof fn lemma_count_exited_update(s: Seq<WorkerState>, i: int, v: WorkerState)
    requires
        0 <= i < s.len(),
    ensures
        count_exited(s.update(i, v)) + (if s[i] == WorkerState::Terminated { 1nat } else { 0nat })
            == count_exited(s) + (if v == WorkerState::Terminated { 1nat } else { 0nat }),
    decreases s.len(),
{
    let t = s.update(i, v);
    if i == s.len() - 1 {
        assert(t.drop_last() =~= s.drop_last());
    } else {
        assert(t.drop_last() =~= s.drop_last().update(i, v));
        lemma_count_exited_update(s.drop_last(), i, v);
    }
}

/// The count is zero exactly when no state is `Terminated`.
pub proof fn lemma_count_exited_zero(s: Seq<WorkerState>)
    ensures
        count_exited(s) == 0 <==> forall|i: int| 0 <= i < s.len() ==> s[i] != WorkerState::Terminated,
    decreases s.len(),
{
    if s.len() > 0 {
        lemma_count_exited_zero(s.drop_last());
        if count_exited(s) == 0 {
            assert forall|i: int| 0 <= i < s.len() implies s[i] != WorkerState::Terminated by {
                if i < s.len() - 1 {
                    assert(s[i] == s.drop_last()[i]);
                }
            }
        }
        if forall|i: int| 0 <= i < s.len() ==> s[i] != WorkerState::Terminated {
            assert forall|i: int| 0 <= i < s.drop_last().len() implies s.drop_last()[i]
                != WorkerState::Terminated by {
                assert(s[i] == s.drop_last()[i]);
            }
        }
    }
}

/// The count never exceeds the length, and reaches it exactly when every
/// state is `Terminated`.
pub proof fn lemma_count_exited_full(s: Seq<WorkerState>)
    ensures
        count_exited(s) <= s.len(),
        count_exited(s) == s.len() <==> forall|i: int| 0 <= i < s.len() ==> s[i] == WorkerState::Terminated,
    decreases s.len(),
{
    if s.len() > 0 {
        lemma_count_exited_full(s.drop_last());
        if count_exited(s) == s.len() {
            assert forall|i: int| 0 <= i < s.len() implies s[i] == WorkerState::Terminated by {
                if i < s.len() - 1 {
                    assert(s[i] == s.drop_last()[i]);
                }
            }
        }
        if forall|i: int| 0 <= i < s.len() ==> s[i] == WorkerState::Terminated {
            assert forall|i: int| 0 <= i < s.drop_last().len() implies s.drop_last()[i]
                == WorkerState::Terminated by {
                assert(s[i] == s.drop_last()[i]);
            }
        }
    }
}

/// Some state is `Terminated` exactly when the count is positive.
proof fn lemma_count_exited_some(s: Seq<WorkerState>, i: int)
    requires
        0 <= i < s.len(),
        s[i] == WorkerState::Terminated,
    ensures
        count_exited(s) > 0,
{
    lemma_count_exited_zero(s);
}

/// A fixed set of workers fed from one first-in first-out queue.
///
/// Besides the queue, the pool keeps as ghost state every job ever submitted
/// and every job handed to a worker, both in order.
pub struct ThreadPool<J> {
    workers: Vec<Worker>,
    queue: JobQueue<J>,
    shut_down: bool,
    submitted: Ghost<Seq<J>>,
    started: Ghost<Seq<J>>,
}

impl<J> ThreadPool<J> {
    /// The states of the workers, indexed by id.
    pub closed spec fn states(&self) -> Seq<WorkerState> {
        self.workers@.map_values(|w: Worker| w.state)
    }

    /// Number of workers, fixed at construction.
    pub open spec fn size(&self) -> nat {
        self.states().len()
    }

    /// State of the worker with id `i`.
    pub open spec fn state(&self, i: int) -> WorkerState {
        self.states()[i]
    }

    /// The messages sent and not yet taken, the oldest first.
    pub closed spec fn pending(&self) -> Seq<Message<J>> {
        self.queue@
    }

    /// Every job submitted so far, in submission order.
    pub closed spec fn submitted(&self) -> Seq<J> {
        self.submitted@
    }

    /// Every job handed to a worker so far, in the order they were handed out.
    pub closed spec fn started(&self) -> Seq<J> {
        self.started@
    }

    /// Whether shutdown has been signalled.
    pub closed spec fn is_shut_down(&self) -> bool {
        self.shut_down
    }

    /// The jobs submitted and not yet handed out.
    pub open spec fn unstarted(&self) -> Seq<J> {
        self.submitted().skip(self.started().len() as int)
    }

    /// The pool's invariant.
    ///
    /// Worker ids are their positions. The jobs handed out are the oldest
    /// submitted, in order. The queue holds the remaining jobs in order,
    /// followed only by terminate messages, and those only after shutdown.
    pub closed spec fn wf(&self) -> bool {
        &&& self.ids_ok()
        &&& self.queue_ok()
        &&& self.exits_ok()
    }

    closed spec fn ids_ok(&self) -> bool {
        &&& self.workers@.len() > 0
        &&& forall|i: int| 0 <= i < self.workers@.len() ==> (#[trigger] self.workers@[i]).id == i
    }

    /// Terminate messages are sent only at shutdown, one per worker; each is
    /// either pending or taken by a worker that then exited. A worker exits
    /// only once every job has been handed out.
    closed spec fn exits_ok(&self) -> bool {
        let t = self.queue@.len() - (self.submitted@.len() - self.started@.len());
        &&& !self.shut_down ==> count_exited(self.states()) == 0
        &&& self.shut_down ==> count_exited(self.states()) + t == self.workers@.len()
        &&& count_exited(self.states()) > 0 ==> self.started@.len() == self.submitted@.len()
    }

    closed spec fn queue_ok(&self) -> bool {
        let q = self.queue@;
        let k = self.submitted@.len() - self.started@.len();
        &&& self.started@.len() <= self.submitted@.len()
        &&& self.started@ == self.submitted@.take(self.started@.len() as int)
        &&& k <= q.len()
        &&& forall|i: int|
            0 <= i < k ==> #[trigger] q[i] == Message::NewJob(
                self.submitted@[self.started@.len() + i],
            )
        &&& forall|i: int| k <= i < q.len() ==> (#[trigger] q[i]) is Terminate
        &&& !self.shut_down ==> q.len() == k
    }

    /// A pool of `size` workers, with ids `0..size`, all idle, and an empty queue.
    ///
    /// A pool of no workers is a programming error: `size` must be positive.
    pub fn new(size: usize) -> (p: Self)
        requires
            size > 0,
        ensures
            p.wf(),
            p.size() == size,
            forall|i: int| 0 <= i < size ==> p.state(i) == WorkerState::Idle,
            p.pending() == Seq::<Message<J>>::empty(),
            p.submitted() == Seq::<J>::empty(),
            p.started() == Seq::<J>::empty(),
            !p.is_shut_down(),
    {
        let mut workers: Vec<Worker> = Vec::with_capacity(size);
        let mut id: usize = 0;
        while id < size
            invariant
                id <= size,
                workers@.len() == id,
                forall|i: int| 0 <= i < id ==> (#[trigger] workers@[i]).id == i
                    && workers@[i].state == WorkerState::Idle,
            decreases size - id,
        {
            workers.push(Worker::new(id));
            id = id + 1;
        }
        let p = ThreadPool {
            workers,
            queue: JobQueue::new(),
            shut_down: false,
            submitted: Ghost(Seq::empty()),
            started: Ghost(Seq::empty()),
        };
        assert(p.started@ =~= p.submitted@.take(0));
        proof {
            lemma_count_exited_zero(p.states());
        }
        p
    }

    /// Sends a job to the pool: it joins the back of the queue and is handed
    /// to a worker once every earlier message has been taken. Never fails.
    pub fn execute(&mut self, job: J)
        requires
            old(self).wf(),
            !old(self).is_shut_down(),
        ensures
            final(self).wf(),
            final(self).pending() == old(self).pending().push(Message::NewJob(job)),
            final(self).submitted() == old(self).submitted().push(job),
            final(self).started() == old(self).started(),
            final(self).states() == old(self).states(),
            !final(self).is_shut_down(),
    {
        self.submitted = Ghost(self.submitted@.push(job));
        self.queue.enqueue(Message::NewJob(job));
        proof {
            assert(self.started@ =~= self.submitted@.take(self.started@.len() as int));
        }
    }

    /// Signals shutdown: one terminate message for each worker, behind every
    /// job already sent. A second call changes nothing.
    pub fn shutdown(&mut self)
        requires
            old(self).wf(),
        ensures
            final(self).wf(),
            final(self).is_shut_down(),
            old(self).is_shut_down() ==> *final(self) == *old(self),
            !old(self).is_shut_down() ==> final(self).pending() == old(self).pending()
                + terminates::<J>(old(self).size()),
            final(self).submitted() == old(self).submitted(),
            final(self).started() == old(self).started(),
            final(self).states() == old(self).states(),
    {
        if !self.shut_down {
            let n = self.workers.len();
            let ghost q0 = self.queue@;
            let mut i: usize = 0;
            while i < n
                invariant
                    n == self.workers@.len(),
                    i <= n,
                    self.queue@ == q0 + terminates::<J>(i as nat),
                    self.workers@ == old(self).workers@,
                    self.submitted@ == old(self).submitted@,
                    self.started@ == old(self).started@,
                    !self.shut_down,
                    q0 == old(self).queue@,
                decreases n - i,
            {
                self.queue.enqueue(Message::Terminate);
                i = i + 1;
                assert(self.queue@ =~= q0 + terminates::<J>(i as nat));
            }
            self.shut_down = true;
        }
    }

    /// The decision of an idle worker: it takes the oldest pending message.
    ///
    /// A job is handed to the worker, which becomes busy. A terminate message
    /// ends the worker. With nothing pending the worker waits and nothing
    /// changes. No other worker is touched.
    pub fn next_action(&mut self, id: usize) -> (a: Action<J>)
        requires
            old(self).wf(),
            id < old(self).size(),
            old(self).state(id as int) == WorkerState::Idle,
        ensures
            final(self).wf(),
            final(self).submitted() == old(self).submitted(),
            final(self).is_shut_down() == old(self).is_shut_down(),
            final(self).size() == old(self).size(),
            forall|i: int| 0 <= i < old(self).size() && i != id ==> final(self).state(i) == old(self).state(i),
            old(self).pending().len() == 0 ==> {
                &&& a is Wait
                &&& final(self).pending() == old(self).pending()
                &&& final(self).started() == old(self).started()
                &&& final(self).state(id as int) == WorkerState::Idle
            },
            old(self).pending().len() > 0 ==> final(self).pending() == old(self).pending().drop_first(),
            old(self).pending().len() > 0 ==> match old(self).pending()[0] {
                Message::NewJob(j) => {
                    &&& a == Action::Run(j)
                    &&& final(self).state(id as int) == WorkerState::Busy
                    &&& final(self).started() == old(self).started().push(j)
                },
                Message::Terminate => {
                    &&& a is Exit
                    &&& final(self).state(id as int) == WorkerState::Terminated
                    &&& final(self).started() == old(self).started()
                },
            },
            a matches Action::Run(j) ==> j == old(self).submitted()[old(self).started().len() as int],
            a is Exit ==> final(self).started() == final(self).submitted(),
    {
        match self.queue.dequeue() {
            None => Action::Wait,
            Some(Message::NewJob(job)) => {
                self.started = Ghost(self.started@.push(job));
                self.set_state(id, WorkerState::Busy);
                proof {
                    let s = self.started@.len() as int;
                    assert(self.started@ =~= self.submitted@.take(s));
                    lemma_count_exited_update(old(self).states(), id as int, WorkerState::Busy);
                }
                Action::Run(job)
            },
            Some(Message::Terminate) => {
                self.set_state(id, WorkerState::Terminated);
                proof {
                    lemma_count_exited_update(old(self).states(), id as int, WorkerState::Terminated);
                    assert(self.started@ =~= self.submitted@);
                }
                Action::Exit
            },
        }
    }

    /// The worker `id` finished its job and is idle again.
    pub fn job_done(&mut self, id: usize)
        requires
            old(self).wf(),
            id < old(self).size(),
            old(self).state(id as int) == WorkerState::Busy,
        ensures
            final(self).wf(),
            final(self).states() == old(self).states().update(id as int, WorkerState::Idle),
            final(self).pending() == old(self).pending(),
            final(self).submitted() == old(self).submitted(),
            final(self).started() == old(self).started(),
            final(self).is_shut_down() == old(self).is_shut_down(),
    {
        self.set_state(id, WorkerState::Idle);
        proof {
            lemma_count_exited_update(old(self).states(), id as int, WorkerState::Idle);
        }
    }

    /// The job of worker `id` faulted: that worker is gone for good, and no
    /// other worker, nor the queue, is touched. The pool does not replace it.
    pub fn job_faulted(&mut self, id: usize)
        requires
            old(self).wf(),
            id < old(self).size(),
            old(self).state(id as int) == WorkerState::Busy,
        ensures
            final(self).wf(),
            final(self).states() == old(self).states().update(id as int, WorkerState::Faulted),
            final(self).pending() == old(self).pending(),
            final(self).submitted() == old(self).submitted(),
            final(self).started() == old(self).started(),
            final(self).is_shut_down() == old(self).is_shut_down(),
    {
        self.set_state(id, WorkerState::Faulted);
        proof {
            lemma_count_exited_update(old(self).states(), id as int, WorkerState::Faulted);
        }
    }

    /// Number of workers.
    pub fn worker_count(&self) -> (r: usize)
        ensures
            r == self.size(),
    {
        self.workers.len()
    }

    /// State of the worker `id`.
    pub fn worker_state(&self, id: usize) -> (r: WorkerState)
        requires
            id < self.size(),
        ensures
            r == self.state(id as int),
    {
        self.workers[id].state
    }

    /// Number of messages sent and not yet taken.
    pub fn pending_count(&self) -> (r: usize)
        ensures
            r == self.pending().len(),
    {
        self.queue.len()
    }

    /// Whether shutdown has been signalled.
    pub fn shutdown_signalled(&self) -> (r: bool)
        ensures
            r == self.is_shut_down(),
    {
        self.shut_down
    }

    /// Whether every worker has taken its terminate message and exited.
    pub fn all_exited(&self) -> (r: bool)
        ensures
            r == forall|i: int| 0 <= i < self.size() ==> self.state(i) == WorkerState::Terminated,
    {
        let n = self.workers.len();
        let mut i: usize = 0;
        while i < n
            invariant
                n == self.size(),
                i <= n,
                forall|j: int| 0 <= j < i ==> self.state(j) == WorkerState::Terminated,
            decreases n - i,
        {
            assert(self.state(i as int) == self.workers@[i as int].state);
            if self.workers[i].state != WorkerState::Terminated {
                assert(self.state(i as int) == self.workers@[i as int].state);
                return false;
            }
            i = i + 1;
        }
        true
    }

    fn set_state(&mut self, id: usize, st: WorkerState)
        requires
            old(self).ids_ok(),
            id < old(self).size(),
        ensures
            final(self).ids_ok(),
            final(self).states() == old(self).states().update(id as int, st),
            final(self).queue@ == old(self).queue@,
            final(self).submitted@ == old(self).submitted@,
            final(self).started@ == old(self).started@,
            final(self).shut_down == old(self).shut_down,
    {
        self.workers.set(id, Worker { id, state: st });
        proof {
            assert forall|i: int| 0 <= i < self.workers@.len() implies (#[trigger] self.workers@[i]).id == i by {
                assert(old(self).workers@[i].id == i);
            }
            assert(self.states() =~= old(self).states().update(id as int, st));
        }
    }
}

/// Jobs are handed out first in, first out, each exactly once.
///
/// At every point the jobs handed to workers are the oldest submitted, in
/// submission order. Every other submitted job is still pending, in
/// submission order, ahead of every terminate message. So no job is skipped,
/// none is handed out twice, and none is overtaken by a later one.
pub proof fn lemma_jobs_in_order<J>(p: &ThreadPool<J>)
    requires
        p.wf(),
    ensures
        p.started().len() <= p.submitted().len(),
        p.started() == p.submitted().take(p.started().len() as int),
        p.unstarted().len() <= p.pending().len(),
        forall|i: int| 0 <= i < p.unstarted().len() ==> p.pending()[i] == Message::NewJob(p.unstarted()[i]),
        forall|i: int| p.unstarted().len() <= i < p.pending().len() ==> p.pending()[i] is Terminate,
{
    assert forall|i: int| 0 <= i < p.unstarted().len() implies p.pending()[i] == Message::NewJob(p.unstarted()[i]) by {
        assert(p.queue@[i] == Message::NewJob(p.submitted@[p.started@.len() + i]));
    }
    assert forall|i: int| p.unstarted().len() <= i < p.pending().len() implies p.pending()[i] is Terminate by {
        assert(p.queue@[i] is Terminate);
    }
}

/// Shutdown signals each worker exactly once.
///
/// Before shutdown no terminate message exists and no worker has exited.
/// After it, the terminate messages still pending and the workers that have
/// exited together number exactly the workers of the pool.
pub proof fn lemma_shutdown_signals<J>(p: &ThreadPool<J>)
    requires
        p.wf(),
    ensures
        !p.is_shut_down() ==> p.pending().len() == p.unstarted().len()
            && forall|i: int| 0 <= i < p.size() ==> p.state(i) != WorkerState::Terminated,
        p.is_shut_down() ==> count_exited(p.states()) + (p.pending().len() - p.unstarted().len()) == p.size(),
{
    lemma_count_exited_zero(p.states());
}

/// Shutdown is complete once the queue is drained after it: then every
/// worker has exited. (A faulted worker never takes its terminate message,
/// so the queue of a pool that lost a worker is never drained.)
pub proof fn lemma_shutdown_completes<J>(p: &ThreadPool<J>)
    requires
        p.wf(),
        p.is_shut_down(),
        p.pending().len() == 0,
    ensures
        forall|i: int| 0 <= i < p.size() ==> p.state(i) == WorkerState::Terminated,
{
    lemma_count_exited_full(p.states());
}

/// A worker exits only after shutdown, once every submitted job has been
/// handed out: no job is left behind, and none starts after the last worker
/// is gone.
pub proof fn lemma_exit_after_all_jobs<J>(p: &ThreadPool<J>, i: int)
    requires
        p.wf(),
        0 <= i < p.size(),
        p.state(i) == WorkerState::Terminated,
    ensures
        p.is_shut_down(),
        p.started() == p.submitted(),
        forall|j: int| 0 <= j < p.pending().len() ==> p.pending()[j] is Terminate,
{
    lemma_count_exited_some(p.states(), i);
    assert(p.started@ =~= p.submitted@);
}

} // verus!
