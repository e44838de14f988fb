//! Socket addresses and the address set of a pool.

use crate::error::{ListenError, OsError};
use vstd::prelude::*;

verus! {

/// The address family of a socket.
#[derive(Clone, Copy, Debug, PartialEq, Eq, Structural)]
pub enum Family {
    V4,
    V6,
}

/// A concrete socket address, held as plain integers: the host in network
/// order as one number, and the port.
#[derive(Clone, Copy, Debug, PartialEq, Eq, Structural)]
pub enum SocketAddress {
    V4 { octets: u32, port: u16 },
    V6 { segments: u128, port: u16, flowinfo: u32, scope_id: u32 },
}

impl SocketAddress {
    /// The family of sockets that can be bound to this address.
    pub open spec fn spec_family(self) -> Family {
        match self {
            SocketAddress::V4 { .. } => Family::V4,
            SocketAddress::V6 { .. } => Family::V6,
        }
    }

    #[verifier::when_used_as_spec(spec_family)]
    pub fn family(self) -> (f: Family)
        ensures
            f == self.spec_family(),
    {
        match self {
            SocketAddress::V4 { .. } => Family::V4,
            SocketAddress::V6 { .. } => Family::V6,
        }
    }
}

/// The addresses of `s` in the order of their first occurrence, each once.
pub open spec fn distinct(s: Seq<SocketAddress>) -> Seq<SocketAddress>
    decreases s.len(),
{
    if s.len() == 0 {
        Seq::empty()
    } else {
        let kept = distinct(s.drop_last());
        if kept.contains(s.last()) {
            kept
        } else {
            kept.push(s.last())
        }
    }
}

/// `distinct` keeps exactly the addresses that occur in `s`.
pub proof fn lemma_distinct_members(s: Seq<SocketAddress>, a: SocketAddress)
    ensures
        distinct(s).contains(a) <==> s.contains(a),
    decreases s.len(),
{
    if s.len() > 0 {
        let front = s.drop_last();
        let kept = distinct(front);
        lemma_distinct_members(front, a);
        if s.contains(a) {
            let i = choose|i: int| 0 <= i < s.len() && s[i] == a;
            if i < s.len() - 1 {
                assert(front[i] == a);
                assert(front.contains(a));
            }
        }
        if front.contains(a) {
            let i = choose|i: int| 0 <= i < front.len() && front[i] == a;
            assert(s[i] == a);
        }
        if kept.contains(s.last()) {
        } else {
            let grown = kept.push(s.last());
            assert(grown[kept.len() as int] == s.last());
            if kept.contains(a) {
                let i = choose|i: int| 0 <= i < kept.len() && kept[i] == a;
                assert(grown[i] == a);
            }
            if grown.contains(a) {
                let i = choose|i: int| 0 <= i < grown.len() && grown[i] == a;
                if i < kept.len() {
                    assert(kept[i] == a);
                }
            }
        }
        assert(s[s.len() - 1] == s.last());
    }
}

/// No address occurs twice in `distinct(s)`.
pub proof fn lemma_distinct_no_duplicates(s: Seq<SocketAddress>)
    ensures
        distinct(s).no_duplicates(),
    decreases s.len(),
{
    if s.len() > 0 {
        lemma_distinct_no_duplicates(s.drop_last());
    }
}

/// `distinct(s)` is empty only where `s` is.
pub proof fn lemma_distinct_len(s: Seq<SocketAddress>)
    ensures
        distinct(s).len() <= s.len(),
        s.len() > 0 ==> distinct(s).len() > 0,
    decreases s.len(),
{
    if s.len() > 0 {
        lemma_distinct_len(s.drop_last());
        let kept = distinct(s.drop_last());
        if kept.contains(s.last()) {
            assert(kept.len() > 0);
        }
    }
}

/// What came first stays first: the distinct addresses of a front part of
/// `s` are a front part of the distinct addresses of `s`.
pub proof fn lemma_distinct_keeps_order(s: Seq<SocketAddress>, k: int)
    requires
        0 <= k <= s.len(),
    ensures
        distinct(s.take(k)).is_prefix_of(distinct(s)),
    decreases s.len() - k,
{
    if k == s.len() {
        assert(s.take(k) =~= s);
    } else {
        let longer = s.take(k + 1);
        assert(longer.drop_last() =~= s.take(k));
        lemma_distinct_keeps_order(s, k + 1);
    }
}

/// A sequence in which no address occurs twice is left as it is.
pub proof fn lemma_distinct_of_distinct(s: Seq<SocketAddress>)
    requires
        s.no_duplicates(),
    ensures
        distinct(s) == s,
    decreases s.len(),
{
    if s.len() > 0 {
        let front = s.drop_last();
        lemma_distinct_of_distinct(front);
        if front.contains(s.last()) {
            let i = choose|i: int| 0 <= i < front.len() && front[i] == s.last();
            assert(s[i] == s[s.len() - 1]);
        }
        assert(front.push(s.last()) =~= s);
    } else {
        assert(distinct(s) =~= s);
    }
}

/// What a resolver's answer comes to: the addresses that it found, each once,
/// in the order of their first occurrence, or the failure to find any. A
/// resolver that failed, and one that returned no address, both found none.
pub open spec fn resolution(resolved: Result<Vec<SocketAddress>, OsError>) -> Result<
    Seq<SocketAddress>,
    ListenError,
> {
    match resolved {
        Ok(found) => if found@.len() > 0 {
            Ok(distinct(found@))
        } else {
            Err(ListenError::Resolution { cause: OsError { errno: None } })
        },
        Err(cause) => Err(ListenError::Resolution { cause }),
    }
}

/// The address set of a pool: at least one address, none twice, in the order
/// in which the resolver gave them.
pub struct ResolvedAddresses {
    addrs: Vec<SocketAddress>,
}

impl View for ResolvedAddresses {
    type V = Seq<SocketAddress>;

    closed spec fn view(&self) -> Seq<SocketAddress> {
        self.addrs@
    }
}

/// Whether `a` is among the addresses of `v`.
fn holds(v: &Vec<SocketAddress>, a: SocketAddress) -> (found: bool)
    ensures
        found == v@.contains(a),
{
    let mut i: usize = 0;
    while i < v.len()
        invariant
            i <= v.len(),
            forall|j: int| 0 <= j < i ==> v@[j] != a,
        decreases v.len() - i,
    {
        if v[i] == a {
            return true;
        }
        i += 1;
    }
    false
}

impl ResolvedAddresses {
    /// What every address set satisfies.
    #[verifier::type_invariant]
    pub open spec fn inv(&self) -> bool {
        0 < self@.len() <= usize::MAX && self@.no_duplicates()
    }

    /// The address set for what a resolver returned, or the failure to find
    /// any address.
    pub fn from_resolved(resolved: Result<Vec<SocketAddress>, OsError>) -> (r: Result<
        ResolvedAddresses,
        ListenError,
    >)
        ensures
            match resolution(resolved) {
                Ok(addrs) => r is Ok && r.unwrap()@ == addrs,
                Err(error) => r == Err::<ResolvedAddresses, ListenError>(error),
            },
    {
        match resolved {
            Err(cause) => Err(ListenError::Resolution { cause }),
            Ok(found) => {
                if found.len() == 0 {
                    return Err(ListenError::Resolution { cause: OsError::unknown() });
                }
                let mut addrs: Vec<SocketAddress> = Vec::new();
                let mut i: usize = 0;
                while i < found.len()
                    invariant
                        i <= found.len(),
                        addrs@ == distinct(found@.take(i as int)),
                    decreases found.len() - i,
                {
                    proof {
                        let next = found@.take(i + 1);
                        assert(next.drop_last() =~= found@.take(i as int));
                        assert(next.last() == found@[i as int]);
                    }
                    let a = found[i];
                    if !holds(&addrs, a) {
                        addrs.push(a);
                    }
                    i += 1;
                }
                proof {
                    assert(found@.take(found.len() as int) =~= found@);
                    lemma_distinct_len(found@);
                    lemma_distinct_no_duplicates(found@);
                }
                Ok(ResolvedAddresses { addrs })
            },
        }
    }

    /// The number of addresses.
    pub fn len(&self) -> (n: usize)
        ensures
            n == self@.len(),
            n > 0,
    {
        proof {
            use_type_invariant(self);
        }
        self.addrs.len()
    }

    /// The address at position `i`.
    pub fn get(&self, i: usize) -> (a: Option<SocketAddress>)
        ensures
            a == if i < self@.len() { Some(self@[i as int]) } else { None },
    {
        if i < self.addrs.len() {
            Some(self.addrs[i])
        } else {
            None
        }
    }

    /// The addresses, in order.
    pub fn to_vec(&self) -> (v: Vec<SocketAddress>)
        ensures
            v@ == self@,
    {
        let mut v: Vec<SocketAddress> = Vec::new();
        let mut i: usize = 0;
        while i < self.addrs.len()
            invariant
                i <= self.addrs.len(),
                v@ == self.addrs@.take(i as int),
            decreases self.addrs.len() - i,
        {
            v.push(self.addrs[i]);
            proof {
                assert(self.addrs@.take(i + 1) =~= self.addrs@.take(i as int).push(
                    self.addrs@[i as int],
                ));
            }
            i += 1;
        }
        proof {
            assert(self.addrs@.take(self.addrs.len() as int) =~= self.addrs@);
        }
        v
    }

    /// A copy of this set, for a worker to own.
    pub fn duplicate(&self) -> (copy: ResolvedAddresses)
        ensures
            copy@ == self@,
    {
        proof {
            use_type_invariant(self);
        }
        ResolvedAddresses { addrs: self.to_vec() }
    }
}

} // verus!
