use shio::address::{Family, ResolvedAddresses, SocketAddress};
use shio::binder::SocketStep;
use shio::error::{ListenError, OsError};
use shio::service::Service;
use shio::worker::{Directive, Event, Phase, Worker};
use std::sync::Arc;

const ADDRESS_IN_USE: i32 = 98;

fn a4() -> SocketAddress {
    SocketAddress::V4 { octets: 0x7f00_0001, port: 3000 }
}

fn a6() -> SocketAddress {
    SocketAddress::V6 { segments: 1, port: 3000, flowinfo: 0, scope_id: 0 }
}

fn worker_on(addrs: Vec<SocketAddress>, port_reuse: bool) -> Worker<u8> {
    let set = ResolvedAddresses::from_resolved(Ok(addrs)).unwrap();
    Worker::new(Service::new(Arc::new(7u8)), set, port_reuse)
}

fn succeed(worker: &mut Worker<u8>, times: usize) -> Vec<Directive> {
    let mut given = Vec::new();
    let mut i: usize = 0;
    while i < times {
        given.push(worker.step(Event::Done));
        i += 1;
    }
    given
}

fn serving(addrs: Vec<SocketAddress>, port_reuse: bool) -> Worker<u8> {
    let steps: usize = 1 + addrs.len() * (if port_reuse { 6 } else { 5 });
    let mut worker = worker_on(addrs, port_reuse);
    succeed(&mut worker, steps);
    assert_eq!(worker.phase(), Phase::Serving);
    worker
}

#[test]
fn a_new_worker_asks_for_its_scheduler() {
    let worker = worker_on(vec![a4()], true);
    assert_eq!(worker.phase(), Phase::Created);
    assert_eq!(worker.directive(), Directive::CreateScheduler);
    assert!(worker.port_reuse());
    assert_eq!(worker.addresses().to_vec(), vec![a4()]);
}

#[test]
fn startup_in_order_with_port_reuse() {
    let mut worker = worker_on(vec![a4(), a6()], true);
    let socket = |listener: usize, addr: SocketAddress, step: SocketStep| Directive::Socket {
        listener,
        addr,
        step,
    };
    let given = succeed(&mut worker, 13);
    assert_eq!(
        given,
        vec![
            socket(0, a4(), SocketStep::Create { family: Family::V4 }),
            socket(0, a4(), SocketStep::ReuseAddress),
            socket(0, a4(), SocketStep::ReusePort),
            socket(0, a4(), SocketStep::Bind),
            socket(0, a4(), SocketStep::Listen { backlog: 128 }),
            Directive::Register { listener: 0, addr: a4() },
            socket(1, a6(), SocketStep::Create { family: Family::V6 }),
            socket(1, a6(), SocketStep::ReuseAddress),
            socket(1, a6(), SocketStep::ReusePort),
            socket(1, a6(), SocketStep::Bind),
            socket(1, a6(), SocketStep::Listen { backlog: 128 }),
            Directive::Register { listener: 1, addr: a6() },
            Directive::Serve,
        ]
    );
    assert_eq!(worker.phase(), Phase::Serving);
    assert_eq!(worker.directive(), Directive::Serve);
}

#[test]
fn startup_in_order_without_port_reuse() {
    let mut worker = worker_on(vec![a6()], false);
    let given = succeed(&mut worker, 6);
    assert_eq!(
        given,
        vec![
            Directive::Socket { listener: 0, addr: a6(), step: SocketStep::Create { family: Family::V6 } },
            Directive::Socket { listener: 0, addr: a6(), step: SocketStep::ReuseAddress },
            Directive::Socket { listener: 0, addr: a6(), step: SocketStep::Bind },
            Directive::Socket { listener: 0, addr: a6(), step: SocketStep::Listen { backlog: 128 } },
            Directive::Register { listener: 0, addr: a6() },
            Directive::Serve,
        ]
    );
    assert_eq!(worker.phase(), Phase::Serving);
}

#[test]
fn a_worker_serves_after_exactly_the_counted_steps() {
    for (count, reuse, steps) in [(1usize, true, 7usize), (1, false, 6), (3, true, 19), (4, false, 21)] {
        let mut addrs = Vec::new();
        let mut i: usize = 0;
        while i < count {
            addrs.push(SocketAddress::V4 { octets: 0x0a00_0000 + i as u32, port: 80 });
            i += 1;
        }
        let mut worker = worker_on(addrs, reuse);
        let mut listens: usize = 0;
        let mut done: usize = 0;
        while done < steps {
            assert_ne!(worker.phase(), Phase::Serving);
            if let Directive::Socket { step: SocketStep::Listen { .. }, .. } = worker.directive() {
                listens += 1;
            }
            worker.step(Event::Done);
            done += 1;
        }
        assert_eq!(worker.phase(), Phase::Serving);
        assert_eq!(listens, count);
    }
}

#[test]
fn phases_follow_the_steps() {
    let mut worker = worker_on(vec![a4(), a6()], false);
    worker.step(Event::Done);
    assert_eq!(worker.phase(), Phase::Binding { listener: 0, step: 0 });
    succeed(&mut worker, 3);
    assert_eq!(worker.phase(), Phase::Binding { listener: 0, step: 3 });
    worker.step(Event::Done);
    assert_eq!(worker.phase(), Phase::Registering { listener: 0 });
    worker.step(Event::Done);
    assert_eq!(worker.phase(), Phase::Binding { listener: 1, step: 0 });
    succeed(&mut worker, 4);
    assert_eq!(worker.phase(), Phase::Registering { listener: 1 });
    worker.step(Event::Done);
    assert_eq!(worker.phase(), Phase::Serving);
}

#[test]
fn a_scheduler_that_cannot_be_created_ends_the_worker() {
    let mut worker = worker_on(vec![a4()], true);
    let cause = OsError::code(24);
    let error = ListenError::SchedulerInit { cause };
    assert_eq!(worker.step(Event::Failed { cause }), Directive::Exit { result: Err(error) });
    assert_eq!(worker.phase(), Phase::Failed { error });
}

#[test]
fn each_failed_step_is_named_with_its_address() {
    let steps = [
        SocketStep::Create { family: Family::V6 },
        SocketStep::ReuseAddress,
        SocketStep::ReusePort,
        SocketStep::Bind,
        SocketStep::Listen { backlog: 128 },
    ];
    let mut at: usize = 0;
    while at < steps.len() {
        let mut worker = worker_on(vec![a4(), a6()], true);
        succeed(&mut worker, 1 + 6 + at);
        let cause = OsError::code(13);
        let error = ListenError::Bind { addr: a6(), step: steps[at], cause };
        assert_eq!(worker.step(Event::Failed { cause }), Directive::Exit { result: Err(error) });
        assert_eq!(worker.phase(), Phase::Failed { error });
        at += 1;
    }
}

#[test]
fn binding_a_taken_address_without_port_reuse_fails_with_a_bind_error() {
    let mut first = worker_on(vec![a4()], false);
    let mut second = worker_on(vec![a4()], false);
    succeed(&mut first, 6);
    assert_eq!(first.phase(), Phase::Serving);
    let asked = succeed(&mut second, 3);
    assert_eq!(asked[2], Directive::Socket { listener: 0, addr: a4(), step: SocketStep::Bind });
    let cause = OsError::code(ADDRESS_IN_USE);
    let error = ListenError::Bind { addr: a4(), step: SocketStep::Bind, cause };
    assert_eq!(second.step(Event::Failed { cause }), Directive::Exit { result: Err(error) });
    assert_eq!(second.directive(), Directive::Exit { result: Err(error) });
    assert_eq!(first.phase(), Phase::Serving);
    assert_eq!(first.directive(), Directive::Serve);
}

#[test]
fn a_listener_that_cannot_be_registered_ends_the_worker() {
    let mut worker = worker_on(vec![a4(), a6()], false);
    succeed(&mut worker, 5);
    assert_eq!(worker.directive(), Directive::Register { listener: 0, addr: a4() });
    let cause = OsError::unknown();
    let error = ListenError::Register { addr: a4(), cause };
    assert_eq!(worker.step(Event::Failed { cause }), Directive::Exit { result: Err(error) });
}

#[test]
fn accepted_connections_are_dispatched_and_serving_goes_on() {
    let mut worker = serving(vec![a4(), a6()], true);
    for listener in [0usize, 1, 1, 0, 1] {
        assert_eq!(worker.step(Event::Accepted { listener }), Directive::Dispatch { listener });
        assert_eq!(worker.phase(), Phase::Serving);
        assert_eq!(worker.directive(), Directive::Serve);
    }
}

#[test]
fn a_connection_of_no_listener_is_not_dispatched() {
    let mut worker = serving(vec![a4(), a6()], true);
    assert_eq!(worker.step(Event::Accepted { listener: 2 }), Directive::Serve);
    assert_eq!(worker.step(Event::Accepted { listener: usize::MAX }), Directive::Serve);
    assert_eq!(worker.phase(), Phase::Serving);
}

#[test]
fn a_failed_accept_loop_ends_the_worker_with_its_address() {
    let mut worker = serving(vec![a4(), a6()], true);
    let cause = OsError::code(23);
    let error = ListenError::Accept { addr: a6(), cause };
    assert_eq!(
        worker.step(Event::AcceptFailed { listener: 1, cause }),
        Directive::Exit { result: Err(error) }
    );
    assert_eq!(worker.phase(), Phase::Failed { error });
}

#[test]
fn a_failure_of_no_listener_changes_nothing() {
    let mut worker = serving(vec![a4()], true);
    assert_eq!(
        worker.step(Event::AcceptFailed { listener: 1, cause: OsError::unknown() }),
        Directive::Serve
    );
    assert_eq!(worker.phase(), Phase::Serving);
}

#[test]
fn accept_loops_that_all_ended_end_the_worker_without_error() {
    let mut worker = serving(vec![a4(), a6()], false);
    assert_eq!(worker.step(Event::Drained), Directive::Exit { result: Ok(()) });
    assert_eq!(worker.phase(), Phase::Finished);
    assert_eq!(worker.step(Event::Done), Directive::Exit { result: Ok(()) });
    assert_eq!(worker.step(Event::Accepted { listener: 0 }), Directive::Exit { result: Ok(()) });
}

#[test]
fn a_failed_worker_stays_failed() {
    let mut worker = worker_on(vec![a4()], true);
    succeed(&mut worker, 4);
    let cause = OsError::code(ADDRESS_IN_USE);
    let error = ListenError::Bind { addr: a4(), step: SocketStep::Bind, cause };
    worker.step(Event::Failed { cause });
    let events = [
        Event::Done,
        Event::Failed { cause: OsError::code(1) },
        Event::Accepted { listener: 0 },
        Event::AcceptFailed { listener: 0, cause: OsError::code(2) },
        Event::Drained,
    ];
    for event in events {
        assert_eq!(worker.step(event), Directive::Exit { result: Err(error) });
        assert_eq!(worker.phase(), Phase::Failed { error });
    }
}

#[test]
fn events_out_of_place_repeat_the_standing_directive() {
    let mut worker = worker_on(vec![a4()], true);
    for event in [
        Event::Accepted { listener: 0 },
        Event::AcceptFailed { listener: 0, cause: OsError::unknown() },
        Event::Drained,
    ] {
        assert_eq!(worker.step(event), Directive::CreateScheduler);
        assert_eq!(worker.phase(), Phase::Created);
    }
    worker.step(Event::Done);
    let standing = worker.directive();
    for event in [
        Event::Accepted { listener: 0 },
        Event::AcceptFailed { listener: 0, cause: OsError::unknown() },
        Event::Drained,
    ] {
        assert_eq!(worker.step(event), standing);
        assert_eq!(worker.phase(), Phase::Binding { listener: 0, step: 0 });
    }
    let mut worker = serving(vec![a4()], true);
    assert_eq!(worker.step(Event::Done), Directive::Serve);
    assert_eq!(worker.step(Event::Failed { cause: OsError::code(5) }), Directive::Serve);
    assert_eq!(worker.phase(), Phase::Serving);
}

#[test]
fn the_worker_hands_out_its_adapter() {
    let handler = Arc::new(41u8);
    let set = ResolvedAddresses::from_resolved(Ok(vec![a4()])).unwrap();
    let worker = Worker::new(Service::new(handler.clone()), set, true);
    let one = worker.service();
    let two = worker.service();
    assert_eq!(*one.handler(), 41);
    assert_eq!(*two.handler(), 41);
    assert_eq!(Arc::strong_count(&handler), 4);
}

#[test]
fn the_count_of_listening_sockets_follows_the_listen_steps() {
    let mut worker = worker_on(vec![a4(), a6()], true);
    assert_eq!(worker.listening(), 0);
    worker.step(Event::Done);
    let mut expected: usize = 0;
    while worker.phase() != Phase::Serving {
        let listens = matches!(
            worker.directive(),
            Directive::Socket { step: SocketStep::Listen { .. }, .. }
        );
        worker.step(Event::Done);
        if listens {
            expected += 1;
        }
        assert_eq!(worker.listening(), expected);
    }
    assert_eq!(worker.listening(), 2);
    worker.step(Event::AcceptFailed { listener: 0, cause: OsError::unknown() });
    assert_eq!(worker.listening(), 0);
}
