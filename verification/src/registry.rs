//! The connection registry: the peers that are connected right now, at most
//! one for each network address.

use crate::client_handler::{Addr, Client};
use vstd::prelude::*;

verus! {

/// The identifier that every peer gets until real ones are handed out.
pub const PLACEHOLDER_ID: u32 = 123;

/// Some peer of `peers` has the address `addr`.
pub open spec fn has_addr(peers: Seq<Client>, addr: Addr) -> bool {
    exists|i: int| 0 <= i < peers.len() && (#[trigger] peers[i]).addr == addr
}

/// No two peers of `peers` share an address.
pub open spec fn unique_addrs(peers: Seq<Client>) -> bool {
    forall|i: int, j: int|
        0 <= i < j < peers.len() ==> (#[trigger] peers[i]).addr != (#[trigger] peers[j]).addr
}

/// The addresses of `peers`, as a set.
pub open spec fn addresses(peers: Seq<Client>) -> Set<Addr> {
    Set::new(|a: Addr| has_addr(peers, a))
}

/// `i` is the first place in `peers` at which `addr` stands.
pub open spec fn is_first(peers: Seq<Client>, addr: Addr, i: int) -> bool {
    &&& 0 <= i < peers.len()
    &&& peers[i].addr == addr
    &&& forall|j: int| 0 <= j < i ==> (#[trigger] peers[j]).addr != addr
}

/// The first place in `peers` at which `addr` stands, where it stands at all.
pub open spec fn position(peers: Seq<Client>, addr: Addr) -> int {
    choose|i: int| is_first(peers, addr, i)
}

/// The peers after `addr` has asked to be registered: a registered address
/// changes nothing, a new one is added at the end.
pub open spec fn registered(peers: Seq<Client>, addr: Addr) -> Seq<Client> {
    if has_addr(peers, addr) {
        peers
    } else {
        peers.push(Client { addr, client_id: PLACEHOLDER_ID })
    }
}

/// The peers after `addr` has left: the last peer takes its place. An
/// address that is not registered changes nothing.
pub open spec fn deregistered(peers: Seq<Client>, addr: Addr) -> Seq<Client> {
    if has_addr(peers, addr) {
        peers.update(position(peers, addr), peers.last()).drop_last()
    } else {
        peers
    }
}

/// The first place of an address is determined by `is_first`.
pub proof fn lemma_position(peers: Seq<Client>, addr: Addr, i: int)
    requires
        is_first(peers, addr, i),
    ensures
        position(peers, addr) == i,
        has_addr(peers, addr),
{
    let k = position(peers, addr);
    assert(is_first(peers, addr, k));
    if k < i {
        assert(peers[k].addr != addr);
    }
    if i < k {
        assert(peers[i].addr != addr);
    }
}

/// A registered address has a first place.
pub proof fn lemma_position_exists(peers: Seq<Client>, addr: Addr)
    requires
        has_addr(peers, addr),
    ensures
        is_first(peers, addr, position(peers, addr)),
    decreases peers.len(),
{
    let w = choose|i: int| 0 <= i < peers.len() && (#[trigger] peers[i]).addr == addr;
    let front = peers.subrange(0, w);
    if has_addr(front, addr) {
        lemma_position_exists(front, addr);
        let k = position(front, addr);
        assert(peers[k] == front[k]);
        assert forall|j: int| 0 <= j < k implies (#[trigger] peers[j]).addr != addr by {
            assert(peers[j] == front[j]);
        }
        assert(is_first(peers, addr, k));
    } else {
        assert forall|j: int| 0 <= j < w implies (#[trigger] peers[j]).addr != addr by {
            assert(front[j] == peers[j]);
        }
        assert(is_first(peers, addr, w));
    }
}

/// The record that an absent address does not find.
#[derive(Debug, Clone, Copy, PartialEq, Eq, Structural)]
pub struct NotFound;

/// The peers that are connected. No address is held twice.
pub struct Registry {
    peers: Vec<Client>,
}

impl View for Registry {
    type V = Seq<Client>;

    closed spec fn view(&self) -> Seq<Client> {
        self.peers@
    }
}

impl Registry {
    /// What holds of every registry: no address is held twice.
    #[verifier::type_invariant]
    pub open spec fn inv(&self) -> bool {
        unique_addrs(self@)
    }

    /// A registry without peers.
    pub fn new() -> (r: Registry)
        ensures
            r@ == Seq::<Client>::empty(),
    {
        Registry { peers: Vec::new() }
    }

    /// The number of registered peers.
    pub fn len(&self) -> (n: usize)
        ensures
            n == self@.len(),
    {
        self.peers.len()
    }

    /// Whether nobody is registered.
    pub fn is_empty(&self) -> (b: bool)
        ensures
            b == (self@.len() == 0),
    {
        self.peers.len() == 0
    }

    /// The place at which `addr` is registered, if it is.
    pub fn index_of(&self, addr: Addr) -> (r: Option<usize>)
        ensures
            unique_addrs(self@),
            r.is_some() <==> has_addr(self@, addr),
            r.is_some() ==> r.unwrap() == position(self@, addr) && is_first(
                self@,
                addr,
                r.unwrap() as int,
            ),
    {
        proof {
            use_type_invariant(self);
        }
        let mut i: usize = 0;
        while i < self.peers.len()
            invariant
                unique_addrs(self.peers@),
                i <= self.peers@.len(),
                forall|j: int| 0 <= j < i ==> (#[trigger] self.peers@[j]).addr != addr,
            decreases self.peers@.len() - i,
        {
            if self.peers[i].addr == addr {
                proof {
                    lemma_position(self.peers@, addr, i as int);
                }
                return Some(i);
            }
            i += 1;
        }
        None
    }

    /// The peer registered under `addr`, if there is one.
    pub fn find(&self, addr: Addr) -> (r: Option<Client>)
        ensures
            unique_addrs(self@),
            r.is_some() <==> has_addr(self@, addr),
            r.is_some() ==> r.unwrap() == self@[position(self@, addr)] && r.unwrap().addr == addr,
    {
        match self.index_of(addr) {
            Some(i) => Some(self.peers[i]),
            None => None,
        }
    }

    /// Whether `addr` is registered.
    pub fn contains(&self, addr: Addr) -> (b: bool)
        ensures
            b == has_addr(self@, addr),
    {
        self.index_of(addr).is_some()
    }

    /// Registers `addr` and returns its peer. An address that is registered
    /// already keeps its entry: the registry stays as it is.
    pub fn register(&mut self, addr: Addr) -> (handle: Client)
        ensures
            final(self)@ == registered(old(self)@, addr),
            unique_addrs(final(self)@),
            has_addr(final(self)@, addr),
            handle.addr == addr,
            handle == final(self)@[position(final(self)@, addr)],
    {
        match self.index_of(addr) {
            Some(i) => self.peers[i],
            None => {
                let handle = Client { addr, client_id: PLACEHOLDER_ID };
                // The list is changed aside and stored whole: the field
                // never holds a list that breaks the invariant.
                let mut peers = self.peers.clone();
                peers.push(handle);
                proof {
                    lemma_registered(old(self)@, addr);
                    assert(peers@ =~= registered(old(self)@, addr));
                    lemma_position(peers@, addr, peers@.len() - 1);
                }
                self.peers = peers;
                handle
            },
        }
    }

    /// Removes the peer registered under `addr`. An address that is not
    /// registered is an error, and the registry stays as it is.
    pub fn deregister(&mut self, addr: Addr) -> (r: Result<(), NotFound>)
        ensures
            r.is_ok() <==> has_addr(old(self)@, addr),
            final(self)@ == deregistered(old(self)@, addr),
            unique_addrs(final(self)@),
            !has_addr(final(self)@, addr),
    {
        match self.index_of(addr) {
            Some(i) => {
                let mut peers = self.peers.clone();
                peers.swap_remove(i);
                proof {
                    lemma_deregistered(old(self)@, addr);
                    assert(peers@ =~= deregistered(old(self)@, addr));
                }
                self.peers = peers;
                Ok(())
            },
            None => {
                proof {
                    lemma_deregistered(old(self)@, addr);
                }
                Err(NotFound)
            },
        }
    }

    /// A snapshot of the registered peers.
    pub fn all(&self) -> (r: Vec<Client>)
        ensures
            r@ == self@,
            unique_addrs(self@),
    {
        proof {
            use_type_invariant(self);
        }
        self.peers.clone()
    }
}

/// Registering keeps addresses unique, and adds exactly the address asked for.
pub proof fn lemma_registered(peers: Seq<Client>, addr: Addr)
    requires
        unique_addrs(peers),
    ensures
        unique_addrs(registered(peers, addr)),
        addresses(registered(peers, addr)) == addresses(peers).insert(addr),
{
    let after = registered(peers, addr);
    assert forall|a: Addr| has_addr(after, a) <==> (a == addr || has_addr(peers, a)) by {
        if has_addr(after, a) {
            let i = choose|i: int| 0 <= i < after.len() && (#[trigger] after[i]).addr == a;
            if i < peers.len() {
                assert(peers[i].addr == a);
            }
        }
        if has_addr(peers, a) {
            let i = choose|i: int| 0 <= i < peers.len() && (#[trigger] peers[i]).addr == a;
            assert(after[i].addr == a);
        }
        if a == addr && !has_addr(peers, addr) {
            assert(after[peers.len() as int].addr == a);
        }
    }
    assert(addresses(after) =~= addresses(peers).insert(addr));
}

/// Deregistering keeps addresses unique, and removes exactly the address
/// asked for.
pub proof fn lemma_deregistered(peers: Seq<Client>, addr: Addr)
    requires
        unique_addrs(peers),
    ensures
        unique_addrs(deregistered(peers, addr)),
        !has_addr(deregistered(peers, addr), addr),
        addresses(deregistered(peers, addr)) == addresses(peers).remove(addr),
{
    let after = deregistered(peers, addr);
    if has_addr(peers, addr) {
        lemma_position_exists(peers, addr);
        let p = position(peers, addr);
        let last = peers.len() - 1;
        assert forall|k: int| 0 <= k < after.len() implies #[trigger] after[k] == (if k == p {
            peers[last]
        } else {
            peers[k]
        }) by {}
        assert forall|i: int, j: int| 0 <= i < j < after.len() implies (#[trigger] after[i]).addr
            != (#[trigger] after[j]).addr by {
            let si = if i == p { last } else { i };
            let sj = if j == p { last } else { j };
            assert(after[i] == peers[si]);
            assert(after[j] == peers[sj]);
            assert(si != sj);
            if si < sj {
                assert(peers[si].addr != peers[sj].addr);
            } else {
                assert(peers[sj].addr != peers[si].addr);
            }
        }
        assert forall|a: Addr| has_addr(after, a) <==> (a != addr && has_addr(peers, a)) by {
            if has_addr(after, a) {
                let i = choose|i: int| 0 <= i < after.len() && (#[trigger] after[i]).addr == a;
                let si = if i == p { last } else { i };
                assert(after[i] == peers[si]);
                assert(peers[si].addr == a);
                if a == addr {
                    if si < p {
                        assert(peers[si].addr != peers[p].addr);
                    } else if p < si {
                        assert(peers[p].addr != peers[si].addr);
                    }
                }
            }
            if a != addr && has_addr(peers, a) {
                let i = choose|i: int| 0 <= i < peers.len() && (#[trigger] peers[i]).addr == a;
                if i == last {
                    assert(after[p] == peers[last]);
                    assert(after[p].addr == a);
                } else {
                    assert(after[i] == peers[i]);
                    assert(after[i].addr == a);
                }
            }
        }
        assert(addresses(after) =~= addresses(peers).remove(addr));
    } else {
        assert(addresses(after) =~= addresses(peers).remove(addr));
    }
}

/// An address that registers and then leaves again leaves the registry as
/// it found it, where it was not registered before.
pub proof fn lemma_register_then_deregister(peers: Seq<Client>, addr: Addr)
    requires
        !has_addr(peers, addr),
    ensures
        deregistered(registered(peers, addr), addr) == peers,
{
    let mid = registered(peers, addr);
    assert(mid[peers.len() as int].addr == addr);
    assert forall|j: int| 0 <= j < peers.len() implies (#[trigger] mid[j]).addr != addr by {
        assert(peers[j] == mid[j]);
    }
    lemma_position(mid, addr, peers.len() as int);
    assert(deregistered(mid, addr) =~= peers);
}

} // verus!
