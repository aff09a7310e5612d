use vstd::prelude::*;

verus! {

/// One more than the largest number of workers a pool may hold.
pub const POOL_SIZE_LIMIT: usize = 64;

/// What travels through the pool's queue: a unit of work, or the signal
/// that tells the worker taking it to stop.
pub enum Message<J> {
    NewJob(J),
    Terminate,
}

/// What a worker obtains when it asks the queue for its next message.
pub enum Received<J> {
    /// Run this job, then ask again.
    Job(J),
    /// The pool told this worker to stop.
    Terminate,
    /// The sending side is gone and nothing is left: stop as if told to.
    Disconnected,
    /// Nothing to take yet: block until something is sent, then ask again.
    Empty,
}

/// The two states of a worker's loop.
#[derive(Clone, Copy, PartialEq, Eq, Structural)]
pub enum Phase {
    Running,
    Terminated,
}

/// Number of `Terminate` messages in a queue.
pub open spec fn terminate_count<J>(q: Seq<Message<J>>) -> nat
    decreases q.len(),
{
    if q.len() == 0 {
        0
    } else {
        terminate_count(q.drop_last()) + if q.last() is Terminate {
            1nat
        } else {
            0nat
        }
    }
}

/// Number of workers still in their loop.
pub open spec fn running_count(ps: Seq<Phase>) -> nat
    decreases ps.len(),
{
    if ps.len() == 0 {
        0
    } else {
        running_count(ps.drop_last()) + if ps.last() == Phase::Running {
            1nat
        } else {
            0nat
        }
    }
}

/// The phases of a freshly built pool of `n` workers.
pub open spec fn all_running(n: nat) -> Seq<Phase> {
    Seq::new(n, |i: int| Phase::Running)
}

/// `n` termination signals in a row.
pub open spec fn terminates<J>(n: nat) -> Seq<Message<J>> {
    Seq::new(n, |i: int| Message::Terminate)
}

/// The worker ids `0..n`, in order.
pub open spec fn ids_upto(n: nat) -> Seq<usize> {
    Seq::new(n, |i: int| i as usize)
}

proof fn lemma_terminate_count_first<J>(q: Seq<Message<J>>)
    requires
        q.len() > 0,
    ensures
        terminate_count(q) == terminate_count(q.drop_first()) + if q[0] is Terminate {
            1nat
        } else {
            0nat
        },
    decreases q.len(),
{
    if q.len() > 1 {
        lemma_terminate_count_first(q.drop_last());
        assert(q.drop_last().drop_first() =~= q.drop_first().drop_last());
        assert(q.drop_last()[0] == q[0]);
        assert(q.drop_first().last() == q.last());
        assert(terminate_count(q.drop_first()) == terminate_count(q.drop_first().drop_last())
            + if q.last() is Terminate { 1nat } else { 0nat });
    } else {
        assert(q.drop_first().len() == 0);
        assert(q.drop_last().len() == 0);
        assert(q.last() == q[0]);
        assert(terminate_count(q.drop_first()) == 0);
        assert(terminate_count(q.drop_last()) == 0);
    }
}

proof fn lemma_terminate_count_append<J>(q: Seq<Message<J>>, n: nat)
    ensures
        terminate_count(q + terminates::<J>(n)) == terminate_count(q) + n,
    decreases n,
{
    if n > 0 {
        lemma_terminate_count_append(q, (n - 1) as nat);
        assert((q + terminates::<J>(n)).drop_last() =~= q + terminates::<J>((n - 1) as nat));
    } else {
        assert(q + terminates::<J>(0) =~= q);
    }
}

proof fn lemma_terminate_count_bound<J>(q: Seq<Message<J>>)
    ensures
        terminate_count(q) <= q.len(),
    decreases q.len(),
{
    if q.len() > 0 {
        lemma_terminate_count_bound(q.drop_last());
    }
}

proof fn lemma_running_count_bound(ps: Seq<Phase>)
    ensures
        running_count(ps) <= ps.len(),
    decreases ps.len(),
{
    if ps.len() > 0 {
        lemma_running_count_bound(ps.drop_last());
    }
}

proof fn lemma_running_count_all(n: nat)
    ensures
        running_count(all_running(n)) == n,
    decreases n,
{
    if n > 0 {
        lemma_running_count_all((n - 1) as nat);
        assert(all_running(n).drop_last() =~= all_running((n - 1) as nat));
    }
}

proof fn lemma_running_count_prefix_positive(ps: Seq<Phase>, i: int)
    requires
        0 <= i < ps.len(),
        ps[i] == Phase::Running,
    ensures
        running_count(ps) > 0,
    decreases ps.len(),
{
    if i < ps.len() - 1 {
        lemma_running_count_prefix_positive(ps.drop_last(), i);
    }
}

/// Stopping one worker lowers the count of running workers by one when it
/// was running, and leaves it as it was otherwise.
proof fn lemma_running_count_stop(ps: Seq<Phase>, i: int)
    requires
        0 <= i < ps.len(),
    ensures
        running_count(ps.update(i, Phase::Terminated)) == running_count(ps) - if ps[i]
            == Phase::Running {
            1int
        } else {
            0int
        },
    decreases ps.len(),
{
    let qs = ps.update(i, Phase::Terminated);
    if i == ps.len() - 1 {
        assert(qs.drop_last() =~= ps.drop_last());
    } else {
        lemma_running_count_stop(ps.drop_last(), i);
        assert(qs.drop_last() =~= ps.drop_last().update(i, Phase::Terminated));
    }
}


/// Whether `size` is a pool size that `ThreadPool::new` accepts.
pub fn is_valid_size(size: usize) -> (r: bool)
    ensures
        r == (0 < size && size < POOL_SIZE_LIMIT),
{
    0 < size && size < POOL_SIZE_LIMIT
}

/// The bookkeeping of a fixed-size worker pool: the queue of messages that
/// workers take from, the phase of each worker (its id is its index), whether
/// the sending side is still there, and whether shutdown has begun.
///
/// The threads themselves, the lock around this value and the blocking wait
/// on an empty queue belong to whoever runs the pool; every decision about
/// what a worker does next, and the shutdown handshake, is made here.
pub struct ThreadPool<J> {
    queue: Vec<Message<J>>,
    phases: Vec<Phase>,
    open: bool,
    shutting_down: bool,
}

impl<J> ThreadPool<J> {
    /// Messages waiting in the queue, oldest first.
    pub closed spec fn queue(&self) -> Seq<Message<J>> {
        self.queue@
    }

    /// The phase of each worker, indexed by worker id.
    pub closed spec fn phases(&self) -> Seq<Phase> {
        self.phases@
    }

    pub closed spec fn is_open(&self) -> bool {
        self.open
    }

    pub closed spec fn is_shutting_down(&self) -> bool {
        self.shutting_down
    }

    /// The number of workers is fixed and in range; no termination signal is
    /// queued before shutdown, and after it there is at least one for every
    /// worker still running.
    pub closed spec fn wf(&self) -> bool {
        &&& 0 < self.phases@.len() < POOL_SIZE_LIMIT
        &&& if self.shutting_down {
            terminate_count(self.queue@) >= running_count(self.phases@)
        } else {
            terminate_count(self.queue@) == 0
        }
    }

    /// A pool of `size` running workers with ids `0..size` and an empty queue.
    pub fn new(size: usize) -> (r: Self)
        requires
            0 < size < POOL_SIZE_LIMIT,
        ensures
            r.wf(),
            r.queue() == Seq::<Message<J>>::empty(),
            r.phases() == all_running(size as nat),
            r.is_open(),
            !r.is_shutting_down(),
    {
        let mut phases: Vec<Phase> = Vec::with_capacity(size);
        let mut i: usize = 0;
        while i < size
            invariant
                i <= size,
                phases@ == all_running(i as nat),
            decreases size - i,
        {
            phases.push(Phase::Running);
            i = i + 1;
            assert(phases@ =~= all_running(i as nat));
        }
        ThreadPool { queue: Vec::new(), phases, open: true, shutting_down: false }
    }

    /// The number of workers, fixed for the pool's lifetime.
    pub fn size(&self) -> (r: usize)
        ensures
            r == self.phases().len(),
    {
        self.phases.len()
    }

    /// Whether some worker is still in its loop, so that a sent job can be
    /// taken.
    pub fn has_running_worker(&self) -> (r: bool)
        ensures
            r == (running_count(self.phases()) > 0),
    {
        let mut i: usize = 0;
        while i < self.phases.len()
            invariant
                i <= self.phases@.len(),
                running_count(self.phases@.take(i as int)) == 0,
            decreases self.phases@.len() - i,
        {
            assert(self.phases@.take(i as int + 1).drop_last() =~= self.phases@.take(i as int));
            if self.phases[i] == Phase::Running {
                proof {
                    lemma_running_count_prefix_positive(self.phases@, i as int);
                }
                return true;
            }
            i = i + 1;
        }
        assert(self.phases@.take(i as int) =~= self.phases@);
        false
    }

    /// Sends a job to the workers. It is queued behind every message already
    /// there, and the caller never waits. When no worker is left to take it,
    /// or the sending side is closed, it is handed back instead.
    pub fn execute(&mut self, job: J) -> (r: Result<(), J>)
        requires
            old(self).wf(),
        ensures
            final(self).wf(),
            final(self).phases() == old(self).phases(),
            final(self).is_open() == old(self).is_open(),
            final(self).is_shutting_down() == old(self).is_shutting_down(),
            old(self).is_open() && running_count(old(self).phases()) > 0 ==> r is Ok
                && final(self).queue() == old(self).queue().push(Message::NewJob(job)),
            !(old(self).is_open() && running_count(old(self).phases()) > 0) ==> r == Err::<(), J>(job)
                && final(self).queue() == old(self).queue(),
    {
        if self.open && self.has_running_worker() {
            let ghost q = self.queue@;
            self.queue.push(Message::NewJob(job));
            assert(self.queue@.drop_last() =~= q);
            Ok(())
        } else {
            Err(job)
        }
    }

    /// Worker `id` takes the oldest message, if any, and learns what to do:
    /// run a job, or stop on a termination signal, or stop because the
    /// sending side is gone and nothing is left, or wait.
    pub fn receive(&mut self, id: usize) -> (r: Received<J>)
        requires
            old(self).wf(),
            id < old(self).phases().len(),
            old(self).phases()[id as int] == Phase::Running,
        ensures
            final(self).wf(),
            final(self).is_open() == old(self).is_open(),
            final(self).is_shutting_down() == old(self).is_shutting_down(),
            old(self).queue().len() > 0 ==> final(self).queue() == old(self).queue().drop_first(),
            old(self).queue().len() > 0 ==> match old(self).queue()[0] {
                Message::NewJob(j) => r == Received::Job(j)
                    && final(self).phases() == old(self).phases(),
                Message::Terminate => r is Terminate
                    && final(self).phases() == old(self).phases().update(id as int, Phase::Terminated),
            },
            old(self).queue().len() == 0 ==> final(self).queue() == old(self).queue(),
            old(self).queue().len() == 0 && old(self).is_open() ==> r is Empty
                && final(self).phases() == old(self).phases(),
            old(self).queue().len() == 0 && !old(self).is_open() ==> r is Disconnected
                && final(self).phases() == old(self).phases().update(id as int, Phase::Terminated),
            old(self).is_shutting_down() ==> !(r is Empty) && !(r is Disconnected),
    {
        proof {
            lemma_running_count_stop(self.phases@, id as int);
            if self.shutting_down {
                lemma_shutdown_never_waits(self, id as int);
            }
        }
        if self.queue.len() > 0 {
            proof {
                lemma_terminate_count_first(self.queue@);
            }
            let m = self.queue.remove(0);
            assert(self.queue@ =~= old(self).queue@.drop_first());
            match m {
                Message::NewJob(j) => Received::Job(j),
                Message::Terminate => {
                    self.phases.set(id, Phase::Terminated);
                    Received::Terminate
                },
            }
        } else if self.open {
            Received::Empty
        } else {
            self.phases.set(id, Phase::Terminated);
            Received::Disconnected
        }
    }

    /// Worker `id` has left its loop without being told to: its job panicked.
    pub fn retire(&mut self, id: usize)
        requires
            old(self).wf(),
            id < old(self).phases().len(),
        ensures
            final(self).wf(),
            final(self).queue() == old(self).queue(),
            final(self).phases() == old(self).phases().update(id as int, Phase::Terminated),
            final(self).is_open() == old(self).is_open(),
            final(self).is_shutting_down() == old(self).is_shutting_down(),
    {
        proof {
            lemma_running_count_stop(self.phases@, id as int);
        }
        self.phases.set(id, Phase::Terminated);
    }

    /// First half of shutdown: queues one termination signal per worker,
    /// behind everything already queued, and returns the ids of the workers
    /// in the order in which they are then to be joined.
    pub fn begin_shutdown(&mut self) -> (order: Vec<usize>)
        requires
            old(self).wf(),
            !old(self).is_shutting_down(),
        ensures
            final(self).wf(),
            final(self).is_shutting_down(),
            final(self).queue() == old(self).queue() + terminates::<J>(old(self).phases().len()),
            final(self).phases() == old(self).phases(),
            final(self).is_open() == old(self).is_open(),
            order@ == ids_upto(old(self).phases().len()),
    {
        let n = self.phases.len();
        let ghost q0 = self.queue@;
        let mut order: Vec<usize> = Vec::with_capacity(n);
        let mut i: usize = 0;
        while i < n
            invariant
                i <= n,
                n == self.phases@.len(),
                self.phases@ == old(self).phases@,
                self.open == old(self).open,
                self.shutting_down == old(self).shutting_down,
                self.queue@ == q0 + terminates::<J>(i as nat),
                order@ == ids_upto(i as nat),
            decreases n - i,
        {
            self.queue.push(Message::Terminate);
            order.push(i);
            i = i + 1;
            assert(self.queue@ =~= q0 + terminates::<J>(i as nat));
            assert(order@ =~= ids_upto(i as nat));
        }
        proof {
            lemma_terminate_count_append(q0, n as nat);
            lemma_running_count_bound(self.phases@);
        }
        self.shutting_down = true;
        order
    }

    /// The sending side is gone: a worker that finds the queue empty stops.
    pub fn close(&mut self)
        requires
            old(self).wf(),
        ensures
            final(self).wf(),
            final(self).queue() == old(self).queue(),
            final(self).phases() == old(self).phases(),
            !final(self).is_open(),
            final(self).is_shutting_down() == old(self).is_shutting_down(),
    {
        self.open = false;
    }
}


/// One operation on a queue: a producer sends a message, or a consumer takes
/// the oldest one (and finds nothing when the queue is empty).
pub enum QueueOp<M> {
    Send(M),
    Receive,
}

/// Replays `ops` on a queue that starts as `q`, as `ThreadPool::execute` and
/// `ThreadPool::receive` do to their queue: the messages handed out, in the
/// order they were handed out, and what is left queued.
pub open spec fn replay<M>(q: Seq<M>, ops: Seq<QueueOp<M>>) -> (Seq<M>, Seq<M>)
    decreases ops.len(),
{
    if ops.len() == 0 {
        (Seq::empty(), q)
    } else {
        let (handed, left) = replay(q, ops.drop_last());
        match ops.last() {
            QueueOp::Send(m) => (handed, left.push(m)),
            QueueOp::Receive => if left.len() > 0 {
                (handed.push(left[0]), left.drop_first())
            } else {
                (handed, left)
            },
        }
    }
}

/// The messages that `ops` sends, in order.
pub open spec fn sent<M>(ops: Seq<QueueOp<M>>) -> Seq<M>
    decreases ops.len(),
{
    if ops.len() == 0 {
        Seq::empty()
    } else {
        match ops.last() {
            QueueOp::Send(m) => sent(ops.drop_last()).push(m),
            QueueOp::Receive => sent(ops.drop_last()),
        }
    }
}

/// Exactly-once, first-in first-out delivery: under any interleaving of
/// sends and receives, the messages handed out followed by those still
/// queued are exactly the messages that were queued and sent, in order. No
/// message is handed out twice, lost, or overtaken.
pub proof fn lemma_delivery_exactly_once_in_order<M>(q: Seq<M>, ops: Seq<QueueOp<M>>)
    ensures
        replay(q, ops).0 + replay(q, ops).1 == q + sent(ops),
    decreases ops.len(),
{
    if ops.len() > 0 {
        lemma_delivery_exactly_once_in_order(q, ops.drop_last());
        let (handed, left) = replay(q, ops.drop_last());
        match ops.last() {
            QueueOp::Send(m) => {
                assert(handed + left.push(m) =~= (handed + left).push(m));
            },
            QueueOp::Receive => {
                if left.len() > 0 {
                    assert(handed.push(left[0]) + left.drop_first() =~= handed + left);
                }
            },
        }
    }
}

proof fn lemma_terminate_count_concat<J>(a: Seq<Message<J>>, b: Seq<Message<J>>)
    ensures
        terminate_count(a + b) == terminate_count(a) + terminate_count(b),
    decreases b.len(),
{
    if b.len() == 0 {
        assert(a + b =~= a);
    } else {
        lemma_terminate_count_concat(a, b.drop_last());
        assert((a + b).drop_last() =~= a + b.drop_last());
    }
}

/// Shutdown drains the jobs: when a queue holds jobs followed by `n`
/// termination signals and the first `k` messages handed out include all
/// `n` signals (every worker stopped on its own signal, none panicked), then
/// every job was handed out before them.
pub proof fn lemma_shutdown_delivers_every_job<J>(jobs: Seq<Message<J>>, n: nat, k: nat)
    requires
        terminate_count(jobs) == 0,
        n > 0,
        k <= jobs.len() + n,
        terminate_count((jobs + terminates::<J>(n)).take(k as int)) == n,
    ensures
        k == jobs.len() + n,
{
    let all = jobs + terminates::<J>(n);
    if k <= jobs.len() {
        assert(all.take(k as int) =~= jobs.take(k as int));
        assert(jobs =~= jobs.take(k as int) + jobs.skip(k as int));
        lemma_terminate_count_concat(jobs.take(k as int), jobs.skip(k as int));
    } else {
        let extra = (k - jobs.len()) as nat;
        assert(all.take(k as int) =~= jobs + terminates::<J>(extra));
        lemma_terminate_count_append(jobs, extra);
    }
}

/// Shutdown cannot deadlock: once the termination signals are queued, a
/// worker that is still running never finds the queue empty, so each of its
/// receives returns at once, and it stops after the jobs ahead of its signal.
pub proof fn lemma_shutdown_never_waits<J>(pool: &ThreadPool<J>, id: int)
    requires
        pool.wf(),
        pool.is_shutting_down(),
        0 <= id < pool.phases().len(),
        pool.phases()[id] == Phase::Running,
    ensures
        pool.queue().len() > 0,
{
    lemma_running_count_prefix_positive(pool.phases@, id);
    lemma_terminate_count_bound(pool.queue@);
}

/// A worker that panics does not hold up the others' shutdown: with it
/// retired, the queued signals still cover every running worker, and each
/// other running worker still finds a message waiting.
pub proof fn lemma_panicked_worker_keeps_shutdown_live<J>(
    q: Seq<Message<J>>,
    ps: Seq<Phase>,
    dead: int,
    id: int,
)
    requires
        terminate_count(q) >= running_count(ps),
        0 <= dead < ps.len(),
        0 <= id < ps.len(),
        id != dead,
        ps[id] == Phase::Running,
    ensures
        terminate_count(q) >= running_count(ps.update(dead, Phase::Terminated)),
        q.len() > 0,
{
    lemma_running_count_stop(ps, dead);
    lemma_running_count_prefix_positive(ps.update(dead, Phase::Terminated), id);
    lemma_terminate_count_bound(q);
}

/// A fresh pool of `n` workers has exactly `n` running workers with ids
/// `0..n`, so it takes every job sent to it without the sender waiting.
pub proof fn lemma_fresh_pool_all_running(n: nat)
    requires
        0 < n < POOL_SIZE_LIMIT,
    ensures
        running_count(all_running(n)) == n,
        all_running(n).len() == n,
        ids_upto(n).len() == n,
        forall|i: int| 0 <= i < n ==> ids_upto(n)[i] == i,
{
    lemma_running_count_all(n);
}

} // verus!
