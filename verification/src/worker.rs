//! The reactor worker: one execution unit of a pool, as a state machine.
//!
//! A worker is told what happened ([`Event`]) and answers with what to do
//! ([`Directive`]). The program that runs it owns the scheduler and the
//! sockets; the worker owns the order of things.

use crate::address::{ResolvedAddresses, SocketAddress};
use crate::binder::{plan, plan_len, plan_step, spec_plan_len, SocketStep};
use crate::error::{ListenError, OsError};
use crate::service::Service;
use vstd::prelude::*;

verus! {

/// Where a worker stands.
#[derive(Clone, Copy, Debug, PartialEq, Eq)]
pub enum Phase {
    /// Nothing has been done yet; the scheduler is to be created.
    Created,
    /// The sockets for the first `listener` addresses are registered; the
    /// socket for the next address is at step `step` of its plan.
    Binding { listener: usize, step: usize },
    /// The socket for address `listener` listens and is to be registered with
    /// the scheduler.
    Registering { listener: usize },
    /// Every address has its listener, and the accept loops run.
    Serving,
    /// The worker stopped with `error`.
    Failed { error: ListenError },
    /// Every accept loop ended without an error.
    Finished,
}

/// What a worker is told.
#[derive(Clone, Copy, Debug, PartialEq, Eq)]
pub enum Event {
    /// What the standing directive asked for has been done.
    Done,
    /// What the standing directive asked for could not be done.
    Failed { cause: OsError },
    /// The listener for address `listener` accepted a connection.
    Accepted { listener: usize },
    /// The accept loop of the listener for address `listener` ended with an
    /// error.
    AcceptFailed { listener: usize, cause: OsError },
    /// Every accept loop has ended, and none with an error.
    Drained,
}

/// What a worker asks for.
#[derive(Clone, Copy, Debug, PartialEq, Eq)]
pub enum Directive {
    /// Create this worker's private scheduler.
    CreateScheduler,
    /// Carry out `step` on the socket for `addr`, the address at position
    /// `listener`.
    Socket { listener: usize, addr: SocketAddress, step: SocketStep },
    /// Register the listening socket for `addr` with this worker's scheduler.
    Register { listener: usize, addr: SocketAddress },
    /// Install an accept loop on every listener and drive them all.
    Serve,
    /// Hand the connection that listener `listener` accepted to the protocol
    /// engine, with a copy of this worker's adapter, and go on accepting.
    Dispatch { listener: usize },
    /// Leave, with this result.
    Exit { result: Result<(), ListenError> },
}

/// The state of a worker, as contracts speak of it.
pub struct WorkerView {
    pub addrs: Seq<SocketAddress>,
    pub port_reuse: bool,
    pub phase: Phase,
}

impl WorkerView {
    /// A worker that has done nothing yet.
    pub open spec fn fresh(addrs: Seq<SocketAddress>, port_reuse: bool) -> WorkerView {
        WorkerView { addrs, port_reuse, phase: Phase::Created }
    }

    /// What holds of every worker: it has an address set, and its phase
    /// speaks of an address and a step that exist.
    pub open spec fn inv(self) -> bool {
        &&& 0 < self.addrs.len() <= usize::MAX
        &&& self.addrs.no_duplicates()
        &&& match self.phase {
            Phase::Binding { listener, step } => listener < self.addrs.len() && step
                < spec_plan_len(self.port_reuse),
            Phase::Registering { listener } => listener < self.addrs.len(),
            _ => true,
        }
    }

    /// Whether the worker has left: it failed, or all its accept loops ended.
    pub open spec fn stopped(self) -> bool {
        self.phase is Failed || self.phase is Finished
    }

    /// The same worker in another phase.
    pub open spec fn at(self, phase: Phase) -> WorkerView {
        WorkerView { phase, ..self }
    }

    /// The same worker, stopped with `error`.
    pub open spec fn failed(self, error: ListenError) -> WorkerView {
        self.at(Phase::Failed { error })
    }

    /// The state after `event`. An event that the phase does not expect
    /// changes nothing.
    pub open spec fn next(self, event: Event) -> WorkerView {
        match self.phase {
            Phase::Created => match event {
                Event::Done => self.at(Phase::Binding { listener: 0, step: 0 }),
                Event::Failed { cause } => self.failed(ListenError::SchedulerInit { cause }),
                _ => self,
            },
            Phase::Binding { listener, step } => match event {
                Event::Done => if step + 1 < spec_plan_len(self.port_reuse) {
                    self.at(Phase::Binding { listener, step: (step + 1) as usize })
                } else {
                    self.at(Phase::Registering { listener })
                },
                Event::Failed { cause } => self.failed(
                    ListenError::Bind {
                        addr: self.addrs[listener as int],
                        step: plan(self.addrs[listener as int], self.port_reuse)[step as int],
                        cause,
                    },
                ),
                _ => self,
            },
            Phase::Registering { listener } => match event {
                Event::Done => if listener + 1 < self.addrs.len() {
                    self.at(Phase::Binding { listener: (listener + 1) as usize, step: 0 })
                } else {
                    self.at(Phase::Serving)
                },
                Event::Failed { cause } => self.failed(
                    ListenError::Register { addr: self.addrs[listener as int], cause },
                ),
                _ => self,
            },
            Phase::Serving => match event {
                Event::AcceptFailed { listener, cause } => if listener < self.addrs.len() {
                    self.failed(ListenError::Accept { addr: self.addrs[listener as int], cause })
                } else {
                    self
                },
                Event::Drained => self.at(Phase::Finished),
                _ => self,
            },
            Phase::Failed { .. } => self,
            Phase::Finished => self,
        }
    }

    /// What the worker asks for while it is in this state.
    pub open spec fn standing(self) -> Directive {
        match self.phase {
            Phase::Created => Directive::CreateScheduler,
            Phase::Binding { listener, step } => Directive::Socket {
                listener,
                addr: self.addrs[listener as int],
                step: plan(self.addrs[listener as int], self.port_reuse)[step as int],
            },
            Phase::Registering { listener } => Directive::Register {
                listener,
                addr: self.addrs[listener as int],
            },
            Phase::Serving => Directive::Serve,
            Phase::Failed { error } => Directive::Exit { result: Err(error) },
            Phase::Finished => Directive::Exit { result: Ok(()) },
        }
    }

    /// Whether `event` is a connection that a serving worker accepted on one
    /// of its listeners.
    pub open spec fn accepts(self, event: Event) -> bool {
        &&& self.phase is Serving
        &&& event matches Event::Accepted { listener }
        &&& listener < self.addrs.len()
    }

    /// The answer to `event`: to dispatch the connection, where the event is
    /// an accepted connection, and else what the next state asks for.
    pub open spec fn reply(self, event: Event) -> Directive {
        if self.accepts(event) {
            Directive::Dispatch { listener: event->Accepted_listener }
        } else {
            self.next(event).standing()
        }
    }

    /// The number of listening sockets that the worker holds.
    pub open spec fn listening(self) -> nat {
        match self.phase {
            Phase::Created => 0,
            Phase::Binding { listener, .. } => listener as nat,
            Phase::Registering { listener } => (listener + 1) as nat,
            Phase::Serving => self.addrs.len(),
            Phase::Failed { .. } => 0,
            Phase::Finished => 0,
        }
    }

    /// Whether `event` reports that a socket began to listen.
    pub open spec fn begins_listening(self, event: Event) -> bool {
        &&& self.phase matches Phase::Binding { listener, step }
        &&& event is Done
        &&& plan(self.addrs[listener as int], self.port_reuse)[step as int] is Listen
    }
}

/// One execution unit of a pool: its own copy of the address set, its own
/// adapter on the shared handler, and its place in the order of things.
pub struct Worker<H> {
    service: Service<H>,
    addrs: ResolvedAddresses,
    port_reuse: bool,
    phase: Phase,
}

impl<H> View for Worker<H> {
    type V = WorkerView;

    closed spec fn view(&self) -> WorkerView {
        WorkerView { addrs: self.addrs@, port_reuse: self.port_reuse, phase: self.phase }
    }
}

impl<H> Worker<H> {
    #[verifier::type_invariant]
    closed spec fn well_formed(&self) -> bool {
        self@.inv()
    }

    /// This worker's connection adapter.
    pub closed spec fn adapter(&self) -> Service<H> {
        self.service
    }

    /// A worker that has done nothing yet.
    pub fn new(service: Service<H>, addrs: ResolvedAddresses, port_reuse: bool) -> (worker: Worker<
        H,
    >)
        ensures
            worker@ == WorkerView::fresh(addrs@, port_reuse),
            worker@.inv(),
            worker.adapter() == service,
    {
        proof {
            use_type_invariant(&addrs);
        }
        Worker { service, addrs, port_reuse, phase: Phase::Created }
    }

    /// Where this worker stands.
    pub fn phase(&self) -> (phase: Phase)
        ensures
            phase == self@.phase,
            self@.inv(),
    {
        proof {
            use_type_invariant(self);
        }
        self.phase
    }

    /// The addresses that this worker listens on.
    pub fn addresses(&self) -> (addrs: &ResolvedAddresses)
        ensures
            addrs@ == self@.addrs,
    {
        &self.addrs
    }

    /// Whether sockets of this worker may share their address with others.
    pub fn port_reuse(&self) -> (port_reuse: bool)
        ensures
            port_reuse == self@.port_reuse,
    {
        self.port_reuse
    }

    /// The number of listening sockets that this worker holds.
    pub fn listening(&self) -> (sockets: usize)
        ensures
            sockets == self@.listening(),
    {
        proof {
            use_type_invariant(self);
        }
        match self.phase {
            Phase::Created => 0,
            Phase::Binding { listener, .. } => listener,
            Phase::Registering { listener } => listener + 1,
            Phase::Serving => self.addrs.len(),
            Phase::Failed { .. } => 0,
            Phase::Finished => 0,
        }
    }

    /// A copy of this worker's adapter, for one connection.
    pub fn service(&self) -> (service: Service<H>)
        ensures
            service == self.adapter(),
    {
        self.service.clone()
    }

    /// What this worker asks for now.
    pub fn directive(&self) -> (directive: Directive)
        ensures
            directive == self@.standing(),
    {
        proof {
            use_type_invariant(self);
        }
        match self.phase {
            Phase::Created => Directive::CreateScheduler,
            Phase::Binding { listener, step } => {
                let addr = self.addrs.get(listener).unwrap();
                let step = plan_step(addr, self.port_reuse, step).unwrap();
                Directive::Socket { listener, addr, step }
            },
            Phase::Registering { listener } => {
                let addr = self.addrs.get(listener).unwrap();
                Directive::Register { listener, addr }
            },
            Phase::Serving => Directive::Serve,
            Phase::Failed { error } => Directive::Exit { result: Err(error) },
            Phase::Finished => Directive::Exit { result: Ok(()) },
        }
    }

    /// Takes note of `event` and says what to do next.
    pub fn step(&mut self, event: Event) -> (directive: Directive)
        ensures
            final(self)@ == old(self)@.next(event),
            final(self)@.inv(),
            final(self).adapter() == old(self).adapter(),
            directive == old(self)@.reply(event),
    {
        proof {
            use_type_invariant(&*self);
            lemma_next_keeps_inv(self@, event);
        }
        let count = self.addrs.len();
        match self.phase {
            Phase::Created => match event {
                Event::Done => {
                    self.phase = Phase::Binding { listener: 0, step: 0 };
                },
                Event::Failed { cause } => {
                    self.phase = Phase::Failed { error: ListenError::SchedulerInit { cause } };
                },
                _ => {},
            },
            Phase::Binding { listener, step } => match event {
                Event::Done => {
                    if step + 1 < plan_len(self.port_reuse) {
                        self.phase = Phase::Binding { listener, step: step + 1 };
                    } else {
                        self.phase = Phase::Registering { listener };
                    }
                },
                Event::Failed { cause } => {
                    let addr = self.addrs.get(listener).unwrap();
                    let failed = plan_step(addr, self.port_reuse, step).unwrap();
                    self.phase = Phase::Failed {
                        error: ListenError::Bind { addr, step: failed, cause },
                    };
                },
                _ => {},
            },
            Phase::Registering { listener } => match event {
                Event::Done => {
                    if listener + 1 < count {
                        self.phase = Phase::Binding { listener: listener + 1, step: 0 };
                    } else {
                        self.phase = Phase::Serving;
                    }
                },
                Event::Failed { cause } => {
                    let addr = self.addrs.get(listener).unwrap();
                    self.phase = Phase::Failed { error: ListenError::Register { addr, cause } };
                },
                _ => {},
            },
            Phase::Serving => match event {
                Event::Accepted { listener } => {
                    if listener < count {
                        return Directive::Dispatch { listener };
                    }
                },
                Event::AcceptFailed { listener, cause } => {
                    if listener < count {
                        let addr = self.addrs.get(listener).unwrap();
                        self.phase = Phase::Failed { error: ListenError::Accept { addr, cause } };
                    }
                },
                Event::Drained => {
                    self.phase = Phase::Finished;
                },
                _ => {},
            },
            Phase::Failed { .. } => {},
            Phase::Finished => {},
        }
        self.directive()
    }
}

/// No event leads a worker out of the states that `inv` describes.
pub proof fn lemma_next_keeps_inv(w: WorkerView, event: Event)
    requires
        w.inv(),
    ensures
        w.next(event).inv(),
        w.next(event).addrs == w.addrs,
        w.next(event).port_reuse == w.port_reuse,
{
}

/// A worker that has left stays as it is, and asks for nothing but to leave
/// with the result that it has.
pub proof fn lemma_stopped_is_final(w: WorkerView, event: Event)
    requires
        w.stopped(),
    ensures
        w.next(event) == w,
        w.reply(event) == w.standing(),
        w.standing() is Exit,
{
}

/// A step that fails ends the worker at once, with an error that names the
/// address and the step; the worker then asks to leave with that error.
pub proof fn lemma_failed_step_names_address_and_step(w: WorkerView, cause: OsError)
    requires
        w.inv(),
        w.phase is Binding,
    ensures
        ({
            let listener = w.phase->Binding_listener;
            let step = w.phase->Binding_step;
            let error = ListenError::Bind {
                addr: w.addrs[listener as int],
                step: plan(w.addrs[listener as int], w.port_reuse)[step as int],
                cause,
            };
            &&& w.next(Event::Failed { cause }).phase == Phase::Failed { error }
            &&& w.reply(Event::Failed { cause }) == Directive::Exit {
                result: Err::<(), ListenError>(error),
            }
        }),
{
}

/// A worker fails only on the failure of something that it asked for, or of
/// an accept loop. Nothing else that is reported to it, and so nothing that a
/// request handler does, makes it fail.
pub proof fn lemma_what_makes_a_worker_fail(w: WorkerView, event: Event)
    requires
        w.inv(),
        !(w.phase is Failed),
        w.next(event).phase is Failed,
    ensures
        event is Failed || event is AcceptFailed,
{
}

/// A serving worker goes on serving, unchanged, whatever is reported to it
/// but the end of its accept loops; and it answers each accepted connection
/// by dispatching it.
pub proof fn lemma_serving_goes_on(w: WorkerView, event: Event)
    requires
        w.inv(),
        w.phase is Serving,
        !(event is AcceptFailed),
        !(event is Drained),
    ensures
        w.next(event) == w,
        w.accepts(event) ==> w.reply(event) == (Directive::Dispatch {
            listener: event->Accepted_listener,
        }),
        !w.accepts(event) ==> w.reply(event) == Directive::Serve,
{
}

/// The sockets of one worker are for different addresses: each address of the
/// set has its own position, and with it its own socket.
pub proof fn lemma_one_socket_per_address(w: WorkerView, i: int, j: int)
    requires
        w.inv(),
        0 <= i < w.addrs.len(),
        0 <= j < w.addrs.len(),
        i != j,
    ensures
        w.addrs[i] != w.addrs[j],
{
}

/// A serving worker listens on every address of its set.
pub proof fn lemma_serving_listens_on_every_address(w: WorkerView)
    requires
        w.inv(),
        w.phase is Serving,
    ensures
        w.listening() == w.addrs.len(),
        w.listening() >= 1,
{
}

/// The count of listening sockets grows by one when a socket begins to
/// listen, and at no other event; it falls, to nothing, only when the worker
/// leaves.
pub proof fn lemma_listening_grows_by_listen(w: WorkerView, event: Event)
    requires
        w.inv(),
    ensures
        w.begins_listening(event) ==> w.next(event).listening() == w.listening() + 1,
        !w.begins_listening(event) && !w.next(event).stopped() ==> w.next(event).listening()
            == w.listening(),
        w.next(event).stopped() ==> w.next(event).listening() == 0,
        w.listening() <= w.addrs.len(),
{
    if let Phase::Binding { listener, step } = w.phase {
        crate::binder::lemma_plan_shape(w.addrs[listener as int], w.port_reuse);
    }
}

/// The state after the events of `events`, in order.
pub open spec fn run(w: WorkerView, events: Seq<Event>) -> WorkerView
    decreases events.len(),
{
    if events.len() == 0 {
        w
    } else {
        run(w.next(events[0]), events.drop_first())
    }
}

/// How many of the events of `events`, reported in order to a worker in state
/// `w`, say that a socket began to listen.
pub open spec fn listens_begun(w: WorkerView, events: Seq<Event>) -> nat
    decreases events.len(),
{
    if events.len() == 0 {
        0
    } else {
        let rest = listens_begun(w.next(events[0]), events.drop_first());
        if w.begins_listening(events[0]) {
            rest + 1
        } else {
            rest
        }
    }
}

/// `n` reports of success.
pub open spec fn successes(n: nat) -> Seq<Event> {
    Seq::new(n, |i: int| Event::Done)
}

/// The number of successes that separate a worker from serving.
pub open spec fn steps_to_serving(w: WorkerView) -> nat {
    let per_address = spec_plan_len(w.port_reuse) + 1;
    match w.phase {
        Phase::Created => (1 + w.addrs.len() * per_address) as nat,
        Phase::Binding { listener, step } => ((w.addrs.len() - listener) * per_address
            - step) as nat,
        Phase::Registering { listener } => ((w.addrs.len() - listener - 1) * per_address
            + 1) as nat,
        _ => 0,
    }
}

/// A worker that is starting up never stands still on an answer: a failure
/// of what it asked for ends it at once, and each success brings it one step
/// closer to serving.
pub proof fn lemma_every_answer_moves_on(w: WorkerView, cause: OsError)
    requires
        w.inv(),
        !w.stopped(),
        !(w.phase is Serving),
    ensures
        w.next(Event::Failed { cause }).phase is Failed,
        w.reply(Event::Failed { cause }) is Exit,
        steps_to_serving(w.next(Event::Done)) == steps_to_serving(w) - 1,
{
    lemma_success_advances(w);
}

/// Each success brings a worker that is starting up one step closer to
/// serving, which it reaches with the last step and not before.
proof fn lemma_success_advances(w: WorkerView)
    requires
        w.inv(),
        !w.stopped(),
        !(w.phase is Serving),
    ensures
        steps_to_serving(w) >= 1,
        steps_to_serving(w.next(Event::Done)) == steps_to_serving(w) - 1,
        !w.next(Event::Done).stopped(),
        w.next(Event::Done).phase is Serving <==> steps_to_serving(w) == 1,
{
    let a = w.addrs.len() as int;
    let p = spec_plan_len(w.port_reuse) + 1;
    let next = w.next(Event::Done);
    assert(p == 5 || p == 6);
    match w.phase {
        Phase::Created => {
            assert(a * p >= p) by (nonlinear_arith)
                requires
                    a >= 1,
                    p >= 5,
            ;
            assert((a - 0) * p - 0 == a * p);
        },
        Phase::Binding { listener, step } => {
            let left = a - listener;
            assert(left * p >= p) by (nonlinear_arith)
                requires
                    left >= 1,
                    p >= 5,
            ;
            if step + 1 < spec_plan_len(w.port_reuse) {
                assert(steps_to_serving(next) == left * p - (step + 1));
            } else {
                assert((left - 1) * p == left * p - p) by (nonlinear_arith);
                assert(steps_to_serving(next) == (left - 1) * p + 1);
            }
        },
        Phase::Registering { listener } => {
            let left = a - listener - 1;
            if listener + 1 < a {
                assert(left * p >= p) by (nonlinear_arith)
                    requires
                        left >= 1,
                        p >= 5,
                ;
                assert(steps_to_serving(next) == (a - (listener + 1)) * p - 0);
            } else {
                assert(left * p == 0) by (nonlinear_arith)
                    requires
                        left == 0,
                ;
            }
        },
        _ => {},
    }
}

/// A worker for which everything succeeds serves after exactly
/// `steps_to_serving` events, not before, and on the way each address that
/// had no listening socket yet gets one: no more, no fewer.
pub proof fn lemma_startup(w: WorkerView, n: nat)
    requires
        w.inv(),
        !w.stopped(),
        n <= steps_to_serving(w),
    ensures
        run(w, successes(n)).inv(),
        run(w, successes(n)).addrs == w.addrs,
        !run(w, successes(n)).stopped(),
        steps_to_serving(run(w, successes(n))) == steps_to_serving(w) - n,
        run(w, successes(n)).phase is Serving <==> n == steps_to_serving(w),
        run(w, successes(n)).listening() == w.listening() + listens_begun(w, successes(n)),
    decreases n,
{
    if n > 0 {
        let events = successes(n);
        assert(events[0] == Event::Done);
        assert(events.drop_first() =~= successes((n - 1) as nat));
        lemma_success_advances(w);
        lemma_next_keeps_inv(w, Event::Done);
        lemma_listening_grows_by_listen(w, Event::Done);
        lemma_startup(w.next(Event::Done), (n - 1) as nat);
    }
}

/// From nothing to serving: a fresh worker for which everything succeeds
/// serves after one event for its scheduler and, for each address, one for
/// each step of the plan and one for the registration. By then exactly one
/// socket per address has begun to listen.
pub proof fn lemma_fresh_worker_startup(addrs: Seq<SocketAddress>, port_reuse: bool)
    requires
        WorkerView::fresh(addrs, port_reuse).inv(),
    ensures
        ({
            let fresh = WorkerView::fresh(addrs, port_reuse);
            let n = (1 + addrs.len() * (spec_plan_len(port_reuse) + 1)) as nat;
            &&& steps_to_serving(fresh) == n
            &&& run(fresh, successes(n)).phase == Phase::Serving
            &&& listens_begun(fresh, successes(n)) == addrs.len()
            &&& forall|k: nat| k < n ==> !(#[trigger] run(fresh, successes(k)).phase is Serving)
        }),
{
    let fresh = WorkerView::fresh(addrs, port_reuse);
    let n = steps_to_serving(fresh);
    lemma_startup(fresh, n);
    assert forall|k: nat| k < n implies !(#[trigger] run(fresh, successes(k)).phase is Serving) by {
        lemma_startup(fresh, k);
    }
}

} // verus!
