//! The socket binder: the steps that turn one address into a listening socket.

use crate::address::{Family, SocketAddress};
use vstd::prelude::*;

verus! {

/// Room for connections that have completed their handshake and were not yet
/// accepted. A matter of policy, not derived from load.
pub const BACKLOG: i32 = 128;

/// One step in the preparation of a listening socket.
#[derive(Clone, Copy, Debug, PartialEq, Eq, Structural)]
pub enum SocketStep {
    /// Create a socket of the given family.
    Create { family: Family },
    /// Allow the address to be bound again right after a restart.
    ReuseAddress,
    /// Allow several sockets to be bound to the same address and port.
    ReusePort,
    /// Bind the socket to its address.
    Bind,
    /// Start listening, with room for `backlog` connections not yet accepted.
    Listen { backlog: i32 },
}

/// The steps that prepare the socket for `addr`, in order. `port_reuse` says
/// whether the platform lets several sockets share an address and port.
pub open spec fn plan(addr: SocketAddress, port_reuse: bool) -> Seq<SocketStep> {
    if port_reuse {
        seq![
            SocketStep::Create { family: addr.family() },
            SocketStep::ReuseAddress,
            SocketStep::ReusePort,
            SocketStep::Bind,
            SocketStep::Listen { backlog: BACKLOG },
        ]
    } else {
        seq![
            SocketStep::Create { family: addr.family() },
            SocketStep::ReuseAddress,
            SocketStep::Bind,
            SocketStep::Listen { backlog: BACKLOG },
        ]
    }
}

/// The number of steps of a plan.
pub open spec fn spec_plan_len(port_reuse: bool) -> usize {
    if port_reuse {
        5
    } else {
        4
    }
}

/// The number of steps that prepare a socket.
#[verifier::when_used_as_spec(spec_plan_len)]
pub fn plan_len(port_reuse: bool) -> (n: usize)
    ensures
        n == spec_plan_len(port_reuse),
        forall|addr: SocketAddress| n == #[trigger] plan(addr, port_reuse).len(),
{
    if port_reuse {
        5
    } else {
        4
    }
}

/// The step at position `index` of the plan for `addr`, if the plan is that
/// long.
pub fn plan_step(addr: SocketAddress, port_reuse: bool, index: usize) -> (step: Option<SocketStep>)
    ensures
        step == if index < plan(addr, port_reuse).len() {
            Some(plan(addr, port_reuse)[index as int])
        } else {
            None
        },
{
    if index == 0 {
        Some(SocketStep::Create { family: addr.family() })
    } else if index == 1 {
        Some(SocketStep::ReuseAddress)
    } else if port_reuse {
        if index == 2 {
            Some(SocketStep::ReusePort)
        } else if index == 3 {
            Some(SocketStep::Bind)
        } else if index == 4 {
            Some(SocketStep::Listen { backlog: BACKLOG })
        } else {
            None
        }
    } else {
        if index == 2 {
            Some(SocketStep::Bind)
        } else if index == 3 {
            Some(SocketStep::Listen { backlog: BACKLOG })
        } else {
            None
        }
    }
}

/// The whole plan for `addr`.
pub fn bind_plan(addr: SocketAddress, port_reuse: bool) -> (steps: Vec<SocketStep>)
    ensures
        steps@ == plan(addr, port_reuse),
{
    let mut steps: Vec<SocketStep> = Vec::new();
    steps.push(SocketStep::Create { family: addr.family() });
    steps.push(SocketStep::ReuseAddress);
    if port_reuse {
        steps.push(SocketStep::ReusePort);
    }
    steps.push(SocketStep::Bind);
    steps.push(SocketStep::Listen { backlog: BACKLOG });
    assert(steps@ =~= plan(addr, port_reuse));
    steps
}

/// The shape of every plan: the socket's family is that of its address; both
/// reuse options are set before the socket is bound, port reuse exactly where
/// the platform has it; the socket is bound before it listens; and listening,
/// with the fixed backlog, comes last.
pub proof fn lemma_plan_shape(addr: SocketAddress, port_reuse: bool)
    ensures
        ({
            let p = plan(addr, port_reuse);
            let last = p.len() - 1;
            &&& p.len() == spec_plan_len(port_reuse)
            &&& p.no_duplicates()
            &&& p[0] == SocketStep::Create { family: addr.family() }
            &&& p[1] == SocketStep::ReuseAddress
            &&& p.contains(SocketStep::ReusePort) <==> port_reuse
            &&& port_reuse ==> p[2] == SocketStep::ReusePort
            &&& p[last - 1] == SocketStep::Bind
            &&& p[last] == SocketStep::Listen { backlog: BACKLOG }
            &&& forall|i: int| 0 <= i < last ==> !(#[trigger] p[i] is Listen)
        }),
{
    let p = plan(addr, port_reuse);
    if port_reuse {
        assert(p[2] == SocketStep::ReusePort);
    }
}

} // verus!
