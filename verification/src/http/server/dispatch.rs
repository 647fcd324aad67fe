//! How accepted connections are spread over threads.
//!
//! The server starts a number of accept loops. In a fixed pool a loop serves
//! the connection it accepted before it accepts again; otherwise it starts a
//! task for the connection and accepts again at once.

use vstd::prelude::*;
use crate::http::server::error::HttpError;
use crate::http::server::settings::HttpThreads;

verus! {

/// What an accept loop does with a connection.
#[derive(Clone, Copy, Debug, PartialEq, Eq, Structural)]
pub enum Dispatch {
    /// The loop serves the connection itself.
    Inline,
    /// The loop starts a task that serves the connection.
    Spawn,
}

/// How the accept loops are started.
#[derive(Clone, Copy, Debug, PartialEq, Eq, Structural)]
pub struct WorkerPlan {
    /// The number of accept loops.
    pub loops: usize,
    /// What each loop does with a connection.
    pub dispatch: Dispatch,
    /// Whether a loop that ended abnormally is started again.
    pub restart: bool,
}

/// What a loop does with a connection under the given mode.
pub open spec fn dispatch_of(threads: HttpThreads) -> Dispatch {
    match threads {
        HttpThreads::CONSTANT(_) => Dispatch::Inline,
        HttpThreads::SPAWN(_) => Dispatch::Spawn,
    }
}

/// What a loop does with a connection under the given mode.
pub fn on_accept(threads: HttpThreads) -> (r: Dispatch)
    ensures
        r == dispatch_of(threads),
{
    match threads {
        HttpThreads::CONSTANT(_) => Dispatch::Inline,
        HttpThreads::SPAWN(_) => Dispatch::Spawn,
    }
}

/// How the accept loops are started under the given mode: as many as the
/// mode says; the loops of a fixed pool are started again when they end
/// abnormally.
pub fn worker_plan(threads: HttpThreads) -> (r: WorkerPlan)
    ensures
        r.loops == threads.count(),
        r.dispatch == dispatch_of(threads),
        r.restart == (threads is CONSTANT),
{
    match threads {
        HttpThreads::CONSTANT(n) => WorkerPlan {
            loops: n,
            dispatch: Dispatch::Inline,
            restart: true,
        },
        HttpThreads::SPAWN(n) => WorkerPlan { loops: n, dispatch: Dispatch::Spawn, restart: false },
    }
}

/// The accept loops of a server and the connections that are being served.
pub struct Loops {
    pub threads: HttpThreads,
    /// For each loop, whether it is serving a connection itself.
    pub busy: Seq<bool>,
    /// The number of tasks that are serving a connection.
    pub tasks: nat,
}

/// What happens among the loops.
pub enum LoopEvent {
    /// The loop with this number accepted a connection.
    Accepted(int),
    /// The loop with this number is done with the connection it served.
    Returned(int),
    /// A task is done with its connection.
    TaskEnded,
}

/// The number of loops that are serving a connection.
pub open spec fn count_busy(busy: Seq<bool>) -> nat
    decreases busy.len(),
{
    if busy.len() == 0 {
        0
    } else {
        count_busy(busy.drop_last()) + if busy.last() {
            1nat
        } else {
            0nat
        }
    }
}

impl Loops {
    /// The loops as they are started: none serves a connection.
    pub open spec fn start(threads: HttpThreads) -> Loops {
        Loops { threads, busy: Seq::new(threads.count() as nat, |i: int| false), tasks: 0 }
    }

    /// There are as many loops as the mode says, and a fixed pool has no
    /// tasks.
    pub open spec fn wf(self) -> bool {
        &&& self.busy.len() == self.threads.count()
        &&& self.threads is CONSTANT ==> self.tasks == 0
    }

    /// The number of connections that are being served.
    pub open spec fn in_flight(self) -> nat {
        count_busy(self.busy) + self.tasks
    }

    /// The loops after an event. Only a loop that serves no connection
    /// accepts one.
    pub open spec fn step(self, event: LoopEvent) -> Loops {
        match event {
            LoopEvent::Accepted(i) => if 0 <= i < self.busy.len() && !self.busy[i] {
                match dispatch_of(self.threads) {
                    Dispatch::Inline => Loops { busy: self.busy.update(i, true), ..self },
                    Dispatch::Spawn => Loops { tasks: self.tasks + 1, ..self },
                }
            } else {
                self
            },
            LoopEvent::Returned(i) => if 0 <= i < self.busy.len() && self.busy[i] {
                Loops { busy: self.busy.update(i, false), ..self }
            } else {
                self
            },
            LoopEvent::TaskEnded => if self.tasks > 0 {
                Loops { tasks: (self.tasks - 1) as nat, ..self }
            } else {
                self
            },
        }
    }

    /// The loops after a list of events.
    pub open spec fn run(self, events: Seq<LoopEvent>) -> Loops
        decreases events.len(),
    {
        if events.len() == 0 {
            self
        } else {
            self.run(events.drop_last()).step(events.last())
        }
    }
}

/// No more loops are busy than there are loops.
pub proof fn lemma_count_busy_bound(busy: Seq<bool>)
    ensures
        count_busy(busy) <= busy.len(),
    decreases busy.len(),
{
    if busy.len() > 0 {
        lemma_count_busy_bound(busy.drop_last());
    }
}

/// In a fixed pool of `n` workers no more than `n` connections are being
/// served at any instant, whatever happens.
pub proof fn law_fixed_pool_bound(n: usize, events: Seq<LoopEvent>)
    ensures
        Loops::start(HttpThreads::CONSTANT(n)).run(events).wf(),
        Loops::start(HttpThreads::CONSTANT(n)).run(events).threads == HttpThreads::CONSTANT(n),
        Loops::start(HttpThreads::CONSTANT(n)).run(events).in_flight() <= n,
    decreases events.len(),
{
    let start = Loops::start(HttpThreads::CONSTANT(n));
    if events.len() > 0 {
        law_fixed_pool_bound(n, events.drop_last());
    }
    lemma_count_busy_bound(start.run(events).busy);
}

/// With a task for each connection the number of connections that are being
/// served is not bounded by the number of loops: one loop alone can have any
/// number of them open.
pub proof fn law_spawn_is_unbounded(n: usize, k: nat)
    requires
        n >= 1,
    ensures
        Loops::start(HttpThreads::SPAWN(n)).run(Seq::new(k, |i: int| LoopEvent::Accepted(0))).in_flight()
            == k,
        Loops::start(HttpThreads::SPAWN(n)).run(Seq::new(k, |i: int| LoopEvent::Accepted(0))).busy
            == Loops::start(HttpThreads::SPAWN(n)).busy,
    decreases k,
{
    let start = Loops::start(HttpThreads::SPAWN(n));
    let events = Seq::new(k, |i: int| LoopEvent::Accepted(0));
    lemma_none_busy(n as nat);
    if k > 0 {
        law_spawn_is_unbounded(n, (k - 1) as nat);
        assert(events.drop_last() =~= Seq::new((k - 1) as nat, |i: int| LoopEvent::Accepted(0)));
        assert(events.last() == LoopEvent::Accepted(0));
    }
}

/// Where no loop is busy the count is zero.
proof fn lemma_none_busy(n: nat)
    ensures
        count_busy(Seq::new(n, |i: int| false)) == 0,
    decreases n,
{
    if n > 0 {
        lemma_none_busy((n - 1) as nat);
        assert(Seq::new(n, |i: int| false).drop_last() =~= Seq::new(
            (n - 1) as nat,
            |i: int| false,
        ));
    }
}

/// What the end of a worker means for whoever waits for the workers: a
/// worker that ended abnormally is a crash, which ends the waiting.
pub fn joined(ended_normally: bool) -> (r: Result<(), HttpError>)
    ensures
        ended_normally ==> r is Ok,
        !ended_normally ==> r == Err::<(), HttpError>(HttpError::WorkerCrashed),
{
    if ended_normally {
        Ok(())
    } else {
        Err(HttpError::WorkerCrashed)
    }
}

} // verus!
