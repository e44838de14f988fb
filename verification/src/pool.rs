//! The pool supervisor: which workers a pool starts, and which worker's end
//! decides what the pool reports.

use crate::address::{ResolvedAddresses, SocketAddress};
use crate::error::ListenError;
use crate::service::Service;
use crate::worker::{
    lemma_fresh_worker_startup, lemma_startup, listens_begun, run, steps_to_serving, successes,
    Event, Phase, Worker, WorkerView,
};
use vstd::prelude::*;

verus! {

/// How the execution unit of a worker ended.
#[derive(Clone, Copy, Debug, PartialEq, Eq)]
pub enum Exit {
    /// The worker left with `result`.
    Returned { result: Result<(), ListenError> },
    /// The unit ended abnormally, with no result.
    Panicked,
}

/// What a pool does next.
#[derive(Clone, Copy, Debug, PartialEq, Eq)]
pub enum Decision {
    /// Wait for the end of the worker that was started as number `worker`.
    Join { worker: usize },
    /// Stop waiting and report `result`.
    Return { result: Result<(), ListenError> },
    /// Stop waiting and raise again the abnormal end of a worker.
    Unwind,
}

/// Whether a worker left without an error.
pub open spec fn clean(exit: Exit) -> bool {
    exit matches Exit::Returned { result } && result is Ok
}

/// What the pool does about a worker that did not leave without an error.
pub open spec fn report(exit: Exit) -> Decision {
    match exit {
        Exit::Returned { result } => Decision::Return { result },
        Exit::Panicked => Decision::Unwind,
    }
}

/// What a pool of `workers` workers does first: it waits for the first
/// worker, or has nothing to wait for.
pub open spec fn opening(workers: usize) -> Decision {
    if workers == 0 {
        Decision::Return { result: Ok(()) }
    } else {
        Decision::Join { worker: 0 }
    }
}

/// What a pool that stood at `decision` does once `exit` is reported. While it
/// waits for a worker, `exit` is that worker's; afterwards nothing changes its
/// mind.
pub open spec fn after(workers: usize, decision: Decision, exit: Exit) -> Decision {
    match decision {
        Decision::Join { worker } => if clean(exit) {
            if worker + 1 < workers {
                Decision::Join { worker: (worker + 1) as usize }
            } else {
                Decision::Return { result: Ok(()) }
            }
        } else {
            report(exit)
        },
        _ => decision,
    }
}

/// What a pool of `workers` workers does after the exits of `exits`, reported
/// in the order in which the workers were started.
pub open spec fn joined(workers: usize, exits: Seq<Exit>) -> Decision
    decreases exits.len(),
{
    if exits.len() == 0 {
        opening(workers)
    } else {
        after(workers, joined(workers, exits.drop_last()), exits.last())
    }
}

/// While every worker that was waited for left without an error, the pool
/// waits for the next one in starting order; after the last one it reports
/// success.
pub proof fn lemma_clean_exits(workers: usize, exits: Seq<Exit>)
    requires
        forall|j: int| 0 <= j < exits.len() && j < workers ==> clean(#[trigger] exits[j]),
    ensures
        joined(workers, exits) == if exits.len() < workers {
            Decision::Join { worker: exits.len() as usize }
        } else {
            Decision::Return { result: Ok(()) }
        },
    decreases exits.len(),
{
    if exits.len() > 0 {
        let front = exits.drop_last();
        assert forall|j: int| 0 <= j < front.len() && j < workers implies clean(
            #[trigger] front[j],
        ) by {
            assert(front[j] == exits[j]);
        }
        lemma_clean_exits(workers, front);
        if front.len() < workers {
            assert(clean(exits[exits.len() - 1]));
        }
    }
}

/// The first worker, in starting order, that did not leave without an error
/// decides what the pool reports, whatever the workers after it did.
pub proof fn lemma_first_failure_decides(workers: usize, exits: Seq<Exit>, k: int)
    requires
        0 <= k < exits.len(),
        k < workers,
        !clean(exits[k]),
        forall|j: int| 0 <= j < k ==> clean(#[trigger] exits[j]),
    ensures
        joined(workers, exits) == report(exits[k]),
    decreases exits.len(),
{
    let front = exits.drop_last();
    if k == exits.len() - 1 {
        assert forall|j: int| 0 <= j < front.len() && j < workers implies clean(
            #[trigger] front[j],
        ) by {
            assert(front[j] == exits[j]);
        }
        lemma_clean_exits(workers, front);
    } else {
        assert(front[k] == exits[k]);
        assert forall|j: int| 0 <= j < k implies clean(#[trigger] front[j]) by {
            assert(front[j] == exits[j]);
        }
        lemma_first_failure_decides(workers, front, k);
    }
}

/// Either every exit among the first `workers` is clean, or one of them is
/// the first that is not.
proof fn lemma_first_failure_exists(workers: usize, exits: Seq<Exit>) -> (k: int)
    ensures
        k == -1 ==> forall|j: int| 0 <= j < exits.len() && j < workers ==> clean(
            #[trigger] exits[j],
        ),
        k != -1 ==> {
            &&& 0 <= k < exits.len()
            &&& k < workers
            &&& !clean(exits[k])
            &&& forall|j: int| 0 <= j < k ==> clean(#[trigger] exits[j])
        },
    decreases exits.len(),
{
    if exits.len() == 0 {
        -1
    } else {
        let front = exits.drop_last();
        let k = lemma_first_failure_exists(workers, front);
        assert forall|j: int| 0 <= j < front.len() implies front[j] == exits[j] by {}
        if k != -1 {
            k
        } else if exits.len() - 1 < workers && !clean(exits.last()) {
            exits.len() - 1
        } else {
            -1
        }
    }
}

/// An error that the pool reports is that of a worker before which every
/// worker, in starting order, has left, and left without an error.
pub proof fn lemma_error_waits_for_earlier_workers(
    workers: usize,
    exits: Seq<Exit>,
    error: ListenError,
) -> (k: int)
    requires
        joined(workers, exits) == (Decision::Return { result: Err(error) }),
    ensures
        0 <= k < exits.len(),
        k < workers,
        exits[k] == (Exit::Returned { result: Err(error) }),
        forall|j: int| 0 <= j < k ==> clean(#[trigger] exits[j]),
{
    let k = lemma_first_failure_exists(workers, exits);
    if k == -1 {
        lemma_clean_exits(workers, exits);
    } else {
        lemma_first_failure_decides(workers, exits, k);
    }
    k
}

/// An abnormal end that the pool raises again is that of a worker before
/// which every worker, in starting order, has left without an error.
pub proof fn lemma_unwind_waits_for_earlier_workers(workers: usize, exits: Seq<Exit>) -> (k: int)
    requires
        joined(workers, exits) == Decision::Unwind,
    ensures
        0 <= k < exits.len(),
        k < workers,
        exits[k] == Exit::Panicked,
        forall|j: int| 0 <= j < k ==> clean(#[trigger] exits[j]),
{
    let k = lemma_first_failure_exists(workers, exits);
    if k == -1 {
        lemma_clean_exits(workers, exits);
    } else {
        lemma_first_failure_decides(workers, exits, k);
    }
    k
}

/// The state of a pool, as contracts speak of it.
pub struct PoolView {
    pub addrs: Seq<SocketAddress>,
    pub port_reuse: bool,
    pub workers: usize,
    pub decision: Decision,
}

impl PoolView {
    /// What holds of every pool: it has an address set, and it waits only for
    /// a worker that it has.
    pub open spec fn inv(self) -> bool {
        &&& 0 < self.addrs.len() <= usize::MAX
        &&& self.addrs.no_duplicates()
        &&& self.decision matches Decision::Join { worker } ==> worker < self.workers
    }

    /// A pool that has not waited for any worker yet.
    pub open spec fn fresh(addrs: Seq<SocketAddress>, port_reuse: bool, workers: usize) -> PoolView {
        PoolView { addrs, port_reuse, workers, decision: opening(workers) }
    }

    /// The pool after `exit` was reported.
    pub open spec fn next(self, exit: Exit) -> PoolView {
        PoolView { decision: after(self.workers, self.decision, exit), ..self }
    }
}

/// A pool of workers that all listen on the same addresses and share one
/// handler.
pub struct Pool<H> {
    service: Service<H>,
    addrs: ResolvedAddresses,
    port_reuse: bool,
    workers: usize,
    decision: Decision,
}

impl<H> View for Pool<H> {
    type V = PoolView;

    closed spec fn view(&self) -> PoolView {
        PoolView {
            addrs: self.addrs@,
            port_reuse: self.port_reuse,
            workers: self.workers,
            decision: self.decision,
        }
    }
}

impl<H> Pool<H> {
    #[verifier::type_invariant]
    closed spec fn well_formed(&self) -> bool {
        self@.inv()
    }

    /// The adapter on the handler that the workers of this pool share.
    pub closed spec fn adapter(&self) -> Service<H> {
        self.service
    }

    /// A pool of `workers` workers on the addresses of `addrs`.
    pub fn new(service: Service<H>, addrs: ResolvedAddresses, port_reuse: bool, workers: usize) -> (pool:
        Pool<H>)
        ensures
            pool@ == PoolView::fresh(addrs@, port_reuse, workers),
            pool@.inv(),
            pool.adapter() == service,
    {
        proof {
            use_type_invariant(&addrs);
        }
        let decision = if workers == 0 {
            Decision::Return { result: Ok(()) }
        } else {
            Decision::Join { worker: 0 }
        };
        Pool { service, addrs, port_reuse, workers, decision }
    }

    /// The number of workers of this pool.
    pub fn worker_count(&self) -> (workers: usize)
        ensures
            workers == self@.workers,
    {
        self.workers
    }

    /// The addresses that every worker of this pool listens on.
    pub fn addresses(&self) -> (addrs: &ResolvedAddresses)
        ensures
            addrs@ == self@.addrs,
    {
        &self.addrs
    }

    /// The workers to start, in starting order: as many as the pool has,
    /// each with a copy of the address set and a handle on the shared
    /// handler, and none of them started yet.
    pub fn workers(&self) -> (workers: Vec<Worker<H>>)
        ensures
            workers@.len() == self@.workers,
            forall|i: int|
                0 <= i < workers@.len() ==> {
                    &&& (#[trigger] workers@[i])@ == WorkerView::fresh(
                        self@.addrs,
                        self@.port_reuse,
                    )
                    &&& workers@[i]@.inv()
                    &&& workers@[i].adapter() == self.adapter()
                },
    {
        let mut workers: Vec<Worker<H>> = Vec::new();
        let mut i: usize = 0;
        while i < self.workers
            invariant
                i <= self.workers,
                workers@.len() == i,
                forall|j: int|
                    0 <= j < workers@.len() ==> {
                        &&& (#[trigger] workers@[j])@ == WorkerView::fresh(
                            self@.addrs,
                            self@.port_reuse,
                        )
                        &&& workers@[j]@.inv()
                        &&& workers@[j].adapter() == self.adapter()
                    },
            decreases self.workers - i,
        {
            let worker = Worker::new(self.service.clone(), self.addrs.duplicate(), self.port_reuse);
            workers.push(worker);
            i += 1;
        }
        workers
    }

    /// What this pool does now.
    pub fn decision(&self) -> (decision: Decision)
        ensures
            decision == self@.decision,
            self@.inv(),
    {
        proof {
            use_type_invariant(self);
        }
        self.decision
    }

    /// Takes note of how a worker ended and says what to do next. While the
    /// pool waits for a worker, `exit` is taken as that worker's.
    pub fn join(&mut self, exit: Exit) -> (decision: Decision)
        ensures
            final(self)@ == old(self)@.next(exit),
            final(self)@.inv(),
            final(self).adapter() == old(self).adapter(),
            decision == final(self)@.decision,
    {
        proof {
            use_type_invariant(&*self);
        }
        match self.decision {
            Decision::Join { worker } => {
                match exit {
                    Exit::Returned { result: Ok(()) } => {
                        if worker + 1 < self.workers {
                            self.decision = Decision::Join { worker: worker + 1 };
                        } else {
                            self.decision = Decision::Return { result: Ok(()) };
                        }
                    },
                    Exit::Returned { result: Err(error) } => {
                        self.decision = Decision::Return { result: Err(error) };
                    },
                    Exit::Panicked => {
                        self.decision = Decision::Unwind;
                    },
                }
            },
            _ => {},
        }
        self.decision
    }
}

/// A pool that stands where `joined` says for the exits so far stands there
/// for one exit more: its decisions are those of `joined` all along.
pub proof fn lemma_pool_follows_joined(pool: PoolView, exits: Seq<Exit>, exit: Exit)
    requires
        pool.decision == joined(pool.workers, exits),
    ensures
        pool.next(exit).decision == joined(pool.workers, exits.push(exit)),
{
    let grown = exits.push(exit);
    assert(grown.drop_last() =~= exits);
    assert(grown.last() == exit);
}

/// The listening sockets of all the workers of `fleet` together.
pub open spec fn total_listening(fleet: Seq<WorkerView>) -> nat
    decreases fleet.len(),
{
    if fleet.len() == 0 {
        0
    } else {
        total_listening(fleet.drop_last()) + fleet.last().listening()
    }
}

/// Workers that all serve the same address set hold, together, as many
/// listening sockets as there are workers times addresses.
pub proof fn lemma_sockets_of_a_serving_pool(fleet: Seq<WorkerView>, addrs: Seq<SocketAddress>)
    requires
        forall|i: int|
            0 <= i < fleet.len() ==> {
                &&& (#[trigger] fleet[i]).inv()
                &&& fleet[i].phase is Serving
                &&& fleet[i].addrs == addrs
            },
    ensures
        total_listening(fleet) == fleet.len() * addrs.len(),
    decreases fleet.len(),
{
    if fleet.len() > 0 {
        let front = fleet.drop_last();
        assert forall|i: int| 0 <= i < front.len() implies {
            &&& (#[trigger] front[i]).inv()
            &&& front[i].phase is Serving
            &&& front[i].addrs == addrs
        } by {
            assert(front[i] == fleet[i]);
        }
        lemma_sockets_of_a_serving_pool(front, addrs);
        let last = fleet[fleet.len() - 1];
        assert(last.listening() == addrs.len());
        assert(fleet.len() * addrs.len() == front.len() * addrs.len() + addrs.len())
            by (nonlinear_arith)
            requires
                fleet.len() == front.len() + 1,
        ;
    } else {
        assert(fleet.len() * addrs.len() == 0) by (nonlinear_arith)
            requires
                fleet.len() == 0,
        ;
    }
}

/// The workers of a pool of `workers` workers on `addrs`, each after a
/// startup in which everything succeeded.
pub open spec fn started(addrs: Seq<SocketAddress>, port_reuse: bool, workers: nat) -> Seq<
    WorkerView,
> {
    let fresh = WorkerView::fresh(addrs, port_reuse);
    Seq::new(workers, |i: int| run(fresh, successes(steps_to_serving(fresh))))
}

/// A pool of W workers on A addresses that starts without a failure has every
/// worker serving, each after one socket per address began to listen: W times
/// A listening sockets in all.
pub proof fn lemma_pool_startup(addrs: Seq<SocketAddress>, port_reuse: bool, workers: nat)
    requires
        WorkerView::fresh(addrs, port_reuse).inv(),
    ensures
        ({
            let fresh = WorkerView::fresh(addrs, port_reuse);
            let fleet = started(addrs, port_reuse, workers);
            &&& fleet.len() == workers
            &&& forall|i: int| 0 <= i < workers ==> (#[trigger] fleet[i]).phase == Phase::Serving
            &&& listens_begun(fresh, successes(steps_to_serving(fresh))) == addrs.len()
            &&& total_listening(fleet) == workers * addrs.len()
        }),
{
    let fresh = WorkerView::fresh(addrs, port_reuse);
    let fleet = started(addrs, port_reuse, workers);
    lemma_fresh_worker_startup(addrs, port_reuse);
    lemma_startup(fresh, steps_to_serving(fresh));
    lemma_sockets_of_a_serving_pool(fleet, addrs);
}

/// The workers of `fleet` after `event` was reported to worker `k`.
pub open spec fn fleet_after(fleet: Seq<WorkerView>, k: int, event: Event) -> Seq<WorkerView> {
    fleet.update(k, fleet[k].next(event))
}

/// What is reported to one worker changes no other worker: whatever happens
/// to worker `k`, and be it a failure that stops it, every other worker
/// stands where it stood.
pub proof fn lemma_workers_are_independent(fleet: Seq<WorkerView>, k: int, event: Event)
    requires
        0 <= k < fleet.len(),
    ensures
        fleet_after(fleet, k, event).len() == fleet.len(),
        forall|j: int|
            0 <= j < fleet.len() && j != k ==> #[trigger] fleet_after(fleet, k, event)[j]
                == fleet[j],
{
}

} // verus!
