//! The connected clients, by address.

use vstd::prelude::*;

verus! {

/// The address of a client's socket, as numbers.
///
/// For an IPv4 address `ip` holds its four octets as a big-endian number, and
/// `flow_info` and `scope_id` are zero.
#[derive(Clone, Copy, Debug, PartialEq, Eq, Structural)]
pub struct ClientAddr {
    pub is_v6: bool,
    pub ip: u128,
    pub port: u16,
    pub flow_info: u32,
    pub scope_id: u32,
}

/// The registered clients: under each address at most one handle, through which
/// that client is reached.
pub struct Clients<T> {
    entries: Vec<(ClientAddr, T)>,
}

/// No address occurs twice.
spec fn distinct_addresses<T>(entries: Seq<(ClientAddr, T)>) -> bool {
    forall|i: int, j: int|
        0 <= i < j < entries.len() ==> (#[trigger] entries[i]).0 != (#[trigger] entries[j]).0
}

/// Some entry stands under `addr`.
spec fn has_address<T>(entries: Seq<(ClientAddr, T)>, addr: ClientAddr) -> bool {
    exists|i: int| 0 <= i < entries.len() && (#[trigger] entries[i]).0 == addr
}

/// The entries as a map from address to handle.
spec fn as_map<T>(entries: Seq<(ClientAddr, T)>) -> Map<ClientAddr, T> {
    Map::new(
        |addr: ClientAddr| has_address(entries, addr),
        |addr: ClientAddr|
            entries[choose|i: int| 0 <= i < entries.len() && (#[trigger] entries[i]).0 == addr].1,
    )
}

/// The addresses of the entries, in their order.
spec fn addresses_of<T>(entries: Seq<(ClientAddr, T)>) -> Seq<ClientAddr> {
    entries.map_values(|entry: (ClientAddr, T)| entry.0)
}

/// Everybody in `order` but `addr`.
pub open spec fn others(order: Seq<ClientAddr>, addr: ClientAddr) -> Seq<ClientAddr> {
    order.filter(|other: ClientAddr| other != addr)
}

proof fn lemma_entry_in_map<T>(entries: Seq<(ClientAddr, T)>, i: int)
    requires
        distinct_addresses(entries),
        0 <= i < entries.len(),
    ensures
        as_map(entries).contains_key(entries[i].0),
        as_map(entries)[entries[i].0] == entries[i].1,
{
    let addr = entries[i].0;
    assert(has_address(entries, addr));
    let k = choose|k: int| 0 <= k < entries.len() && (#[trigger] entries[k]).0 == addr;
    assert(entries[k].0 == entries[i].0);
}

proof fn lemma_push<T>(entries: Seq<(ClientAddr, T)>, addr: ClientAddr, handle: T)
    requires
        distinct_addresses(entries),
        !has_address(entries, addr),
    ensures
        distinct_addresses(entries.push((addr, handle))),
        as_map(entries.push((addr, handle))) == as_map(entries).insert(addr, handle),
{
    let after = entries.push((addr, handle));
    assert forall|i: int, j: int| 0 <= i < j < after.len() implies (#[trigger] after[i]).0 != (
    #[trigger] after[j]).0 by {
        assert(after[i] == entries[i]);
        if j < entries.len() {
            assert(after[j] == entries[j]);
        }
    }
    assert forall|a: ClientAddr| as_map(after).contains_key(a) <==> as_map(entries).insert(
        addr,
        handle,
    ).contains_key(a) by {
        if has_address(entries, a) {
            let k = choose|k: int| 0 <= k < entries.len() && (#[trigger] entries[k]).0 == a;
            assert(after[k].0 == a);
        }
        if a == addr {
            assert(after[entries.len() as int].0 == a);
        }
        if has_address(after, a) && a != addr {
            let k = choose|k: int| 0 <= k < after.len() && (#[trigger] after[k]).0 == a;
            assert(entries[k].0 == a);
        }
    }
    assert forall|a: ClientAddr| as_map(after).contains_key(a) implies as_map(after)[a]
        == as_map(entries).insert(addr, handle)[a] by {
        if a == addr {
            lemma_entry_in_map(after, entries.len() as int);
        } else {
            assert(has_address(after, a));
            let k = choose|k: int| 0 <= k < after.len() && (#[trigger] after[k]).0 == a;
            lemma_entry_in_map(after, k);
            lemma_entry_in_map(entries, k);
        }
    }
    assert(as_map(after) =~= as_map(entries).insert(addr, handle));
}

proof fn lemma_remove<T>(entries: Seq<(ClientAddr, T)>, i: int)
    requires
        distinct_addresses(entries),
        0 <= i < entries.len(),
    ensures
        distinct_addresses(entries.remove(i)),
        !has_address(entries.remove(i), entries[i].0),
        as_map(entries.remove(i)) == as_map(entries).remove(entries[i].0),
{
    let after = entries.remove(i);
    let addr = entries[i].0;
    assert forall|a: int, b: int| 0 <= a < b < after.len() implies (#[trigger] after[a]).0 != (
    #[trigger] after[b]).0 by {
        let x = if a < i { a } else { a + 1 };
        let y = if b < i { b } else { b + 1 };
        assert(after[a] == entries[x] && after[b] == entries[y]);
    }
    assert forall|k: int| 0 <= k < after.len() implies (#[trigger] after[k]).0 != addr by {
        let x = if k < i { k } else { k + 1 };
        assert(after[k] == entries[x]);
    }
    assert forall|a: ClientAddr| as_map(after).contains_key(a) <==> as_map(entries).remove(
        addr,
    ).contains_key(a) by {
        if has_address(after, a) {
            let k = choose|k: int| 0 <= k < after.len() && (#[trigger] after[k]).0 == a;
            let x = if k < i { k } else { k + 1 };
            assert(entries[x].0 == a);
        }
        if has_address(entries, a) && a != addr {
            let k = choose|k: int| 0 <= k < entries.len() && (#[trigger] entries[k]).0 == a;
            let x = if k < i { k } else { k - 1 };
            assert(after[x].0 == a);
        }
    }
    assert forall|a: ClientAddr| as_map(after).contains_key(a) implies as_map(after)[a] == as_map(
        entries,
    ).remove(addr)[a] by {
        assert(has_address(after, a));
        let k = choose|k: int| 0 <= k < after.len() && (#[trigger] after[k]).0 == a;
        let x = if k < i { k } else { k + 1 };
        lemma_entry_in_map(after, k);
        lemma_entry_in_map(entries, x);
    }
    assert(as_map(after) =~= as_map(entries).remove(addr));
}

impl<T> View for Clients<T> {
    type V = Map<ClientAddr, T>;

    closed spec fn view(&self) -> Map<ClientAddr, T> {
        as_map(self.entries@)
    }
}

impl<T> Clients<T> {
    #[verifier::type_invariant]
    pub(crate) closed spec fn valid(self) -> bool {
        distinct_addresses(self.entries@)
    }

    /// The registered addresses, in the order in which a relayed message goes out.
    pub closed spec fn order(&self) -> Seq<ClientAddr> {
        addresses_of(self.entries@)
    }

    /// No client is registered.
    pub fn new() -> (clients: Self)
        ensures
            clients@ == Map::<ClientAddr, T>::empty(),
            clients.order() == Seq::<ClientAddr>::empty(),
    {
        let clients = Clients { entries: Vec::new() };
        assert(clients@ =~= Map::<ClientAddr, T>::empty());
        clients
    }

    /// Where `addr` stands.
    fn find(&self, addr: ClientAddr) -> (place: Option<usize>)
        ensures
            match place {
                Some(i) => i < self.entries@.len() && self.entries@[i as int].0 == addr,
                None => !has_address(self.entries@, addr),
            },
    {
        let mut i: usize = 0;
        while i < self.entries.len()
            invariant
                i <= self.entries@.len(),
                forall|k: int| 0 <= k < i ==> (#[trigger] self.entries@[k]).0 != addr,
            decreases self.entries@.len() - i,
        {
            if self.entries[i].0 == addr {
                return Some(i);
            }
            i = i + 1;
        }
        None
    }

    /// Whether `addr` is registered.
    pub fn contains(&self, addr: ClientAddr) -> (found: bool)
        ensures
            found == self@.contains_key(addr),
            found == self.order().contains(addr),
    {
        match self.find(addr) {
            Some(i) => {
                assert(self.order()[i as int] == addr);
                true
            },
            None => {
                assert forall|k: int| 0 <= k < self.order().len() implies self.order()[k]
                    != addr by {
                    assert(self.entries@[k].0 == self.order()[k]);
                }
                false
            },
        }
    }

    /// The handle of `addr`.
    pub fn get(&self, addr: ClientAddr) -> (handle: Option<&T>)
        ensures
            match handle {
                Some(handle) => self@.contains_key(addr) && *handle == self@[addr],
                None => !self@.contains_key(addr),
            },
    {
        proof {
            use_type_invariant(self);
        }
        match self.find(addr) {
            Some(i) => {
                proof {
                    lemma_entry_in_map(self.entries@, i as int);
                }
                Some(&self.entries[i].1)
            },
            None => None,
        }
    }

    /// Takes `addr` out and returns the handle that it had. The others stay.
    pub fn remove(&mut self, addr: ClientAddr) -> (handle: Option<T>)
        ensures
            final(self)@ == old(self)@.remove(addr),
            final(self).order() == others(old(self).order(), addr),
            match handle {
                Some(handle) => old(self)@.contains_key(addr) && handle == old(self)@[addr],
                None => !old(self)@.contains_key(addr),
            },
    {
        proof {
            use_type_invariant(&*self);
        }
        match self.find(addr) {
            Some(i) => {
                let mut entries: Vec<(ClientAddr, T)> = Vec::new();
                std::mem::swap(&mut entries, &mut self.entries);
                proof {
                    lemma_entry_in_map(entries@, i as int);
                    lemma_remove(entries@, i as int);
                    lemma_order(entries@);
                    lemma_remove_is_others(addresses_of(entries@), i as int);
                    assert(addresses_of(entries@.remove(i as int)) =~= addresses_of(
                        entries@,
                    ).remove(i as int));
                }
                let entry = entries.remove(i);
                self.entries = entries;
                Some(entry.1)
            },
            None => {
                proof {
                    lemma_order(self.entries@);
                    lemma_others_of_absent(self.order(), addr);
                }
                assert(self@ =~= self@.remove(addr));
                None
            },
        }
    }

    /// Registers `addr` with `handle` and returns the handle that it had before.
    pub fn insert(&mut self, addr: ClientAddr, handle: T) -> (previous: Option<T>)
        ensures
            final(self)@ == old(self)@.insert(addr, handle),
            final(self).order() == others(old(self).order(), addr).push(addr),
            match previous {
                Some(previous) => old(self)@.contains_key(addr) && previous == old(self)@[addr],
                None => !old(self)@.contains_key(addr),
            },
    {
        let previous = self.remove(addr);
        proof {
            use_type_invariant(&*self);
            assert(!self@.contains_key(addr));
        }
        let mut entries: Vec<(ClientAddr, T)> = Vec::new();
        std::mem::swap(&mut entries, &mut self.entries);
        proof {
            lemma_push(entries@, addr, handle);
            assert(addresses_of(entries@.push((addr, handle))) =~= addresses_of(entries@).push(
                addr,
            ));
        }
        entries.push((addr, handle));
        self.entries = entries;
        assert(self@ =~= old(self)@.insert(addr, handle));
        previous
    }

    /// The addresses that a message from `addr` is relayed to: every registered
    /// one but `addr` itself, each once.
    pub fn recipients(&self, addr: ClientAddr) -> (to: Vec<ClientAddr>)
        ensures
            to@ == others(self.order(), addr),
            to@.no_duplicates(),
            forall|a: ClientAddr| #[trigger]
                to@.contains(a) <==> self@.contains_key(a) && a != addr,
    {
        let mut to: Vec<ClientAddr> = Vec::new();
        let ghost order = self.order();
        let mut i: usize = 0;
        proof {
            reveal(Seq::filter);
            assert(order.take(0) =~= Seq::<ClientAddr>::empty());
        }
        while i < self.entries.len()
            invariant
                i <= self.entries@.len(),
                order == addresses_of(self.entries@),
                to@ == others(order.take(i as int), addr),
            decreases self.entries@.len() - i,
        {
            let other = self.entries[i].0;
            proof {
                reveal(Seq::filter);
                assert(order.take(i + 1).drop_last() =~= order.take(i as int));
                assert(order.take(i + 1).last() == other);
            }
            if other != addr {
                to.push(other);
            }
            i = i + 1;
        }
        proof {
            assert(order.take(i as int) =~= order);
            use_type_invariant(self);
            lemma_recipients(*self, addr);
        }
        to
    }
}

/// What is relayed reaches every registered client but the one at `addr`, and
/// each of them once.
pub(crate) proof fn lemma_recipients<T>(clients: Clients<T>, addr: ClientAddr)
    requires
        clients.valid(),
    ensures
        others(clients.order(), addr).no_duplicates(),
        forall|a: ClientAddr| #[trigger]
            others(clients.order(), addr).contains(a) <==> clients@.contains_key(a) && a != addr,
{
    lemma_order(clients.entries@);
    lemma_others(clients.order(), addr);
}

proof fn lemma_order<T>(entries: Seq<(ClientAddr, T)>)
    requires
        distinct_addresses(entries),
    ensures
        addresses_of(entries).no_duplicates(),
        forall|a: ClientAddr| #[trigger]
            addresses_of(entries).contains(a) <==> as_map(entries).contains_key(a),
{
    let order = addresses_of(entries);
    assert forall|i: int, j: int| 0 <= i < order.len() && 0 <= j < order.len() && i
        != j implies order[i] != order[j] by {
        assert(order[i] == entries[i].0 && order[j] == entries[j].0);
        if i < j {
        } else {
            assert(entries[j].0 != entries[i].0);
        }
    }
    assert forall|a: ClientAddr| #[trigger] order.contains(a) <==> as_map(entries).contains_key(
        a,
    ) by {
        lemma_listed_if_registered(entries, a);
    }
}

proof fn lemma_listed_if_registered<T>(entries: Seq<(ClientAddr, T)>, addr: ClientAddr)
    ensures
        addresses_of(entries).contains(addr) <==> as_map(entries).contains_key(addr),
{
    let order = addresses_of(entries);
    if order.contains(addr) {
        let k = choose|k: int| 0 <= k < order.len() && order[k] == addr;
        assert(entries[k].0 == addr);
    }
    if has_address(entries, addr) {
        let k = choose|k: int| 0 <= k < entries.len() && (#[trigger] entries[k]).0 == addr;
        assert(order[k] == addr);
    }
}

proof fn lemma_others_of_absent(order: Seq<ClientAddr>, addr: ClientAddr)
    requires
        !order.contains(addr),
    ensures
        others(order, addr) == order,
    decreases order.len(),
{
    reveal(Seq::filter);
    if order.len() > 0 {
        let front = order.drop_last();
        assert forall|k: int| 0 <= k < front.len() implies front[k] != addr by {
            assert(front[k] == order[k]);
        }
        lemma_others_of_absent(front, addr);
        assert(order[order.len() - 1] == order.last());
        assert(front.push(order.last()) =~= order);
    } else {
        assert(others(order, addr) =~= order);
    }
}

proof fn lemma_remove_is_others(order: Seq<ClientAddr>, i: int)
    requires
        order.no_duplicates(),
        0 <= i < order.len(),
    ensures
        order.remove(i) == others(order, order[i]),
    decreases order.len(),
{
    reveal(Seq::filter);
    let front = order.drop_last();
    if i == order.len() - 1 {
        assert forall|k: int| 0 <= k < front.len() implies front[k] != order[i] by {
            assert(front[k] == order[k]);
        }
        lemma_others_of_absent(front, order[i]);
        assert(order.remove(i) =~= front);
    } else {
        lemma_remove_is_others(front, i);
        assert(order.remove(i) =~= front.remove(i).push(order.last()));
    }
}

/// Leaving `addr` out of an order without repetitions leaves each of the others
/// in it exactly once.
pub(crate) proof fn lemma_others(order: Seq<ClientAddr>, addr: ClientAddr)
    requires
        order.no_duplicates(),
    ensures
        others(order, addr).no_duplicates(),
        forall|a: ClientAddr| #[trigger]
            others(order, addr).contains(a) <==> order.contains(a) && a != addr,
    decreases order.len(),
{
    reveal(Seq::filter);
    if order.len() > 0 {
        let front = order.drop_last();
        lemma_others(front, addr);
        let kept = others(front, addr);
        assert(!front.contains(order.last()));
        assert forall|a: ClientAddr| order.contains(a) <==> front.contains(a) || a
            == order.last() by {
            if order.contains(a) && a != order.last() {
                let k = choose|k: int| 0 <= k < order.len() && order[k] == a;
                assert(front[k] == a);
            }
            if front.contains(a) {
                let k = choose|k: int| 0 <= k < front.len() && front[k] == a;
                assert(order[k] == a);
            }
            assert(order[order.len() - 1] == order.last());
        }
        if order.last() != addr {
            let all = kept.push(order.last());
            assert(others(order, addr) =~= all);
            assert forall|a: ClientAddr| all.contains(a) <==> kept.contains(a) || a
                == order.last() by {
                if kept.contains(a) {
                    let k = choose|k: int| 0 <= k < kept.len() && kept[k] == a;
                    assert(all[k] == a);
                }
                assert(all[kept.len() as int] == order.last());
            }
            assert(!kept.contains(order.last()));
        }
    }
}

/// The order lists exactly the registered addresses.
pub proof fn law_order_lists_registered<T>(clients: Clients<T>, addr: ClientAddr)
    ensures
        clients.order().contains(addr) <==> clients@.contains_key(addr),
{
    lemma_listed_if_registered(clients.entries@, addr);
}

/// To register a new client and to take it out again leaves everything as it was:
/// the order, and who is reached through which handle.
pub proof fn law_unregister_undoes_register<T>(
    registered: Map<ClientAddr, T>,
    order: Seq<ClientAddr>,
    addr: ClientAddr,
    handle: T,
)
    requires
        !registered.contains_key(addr),
        !order.contains(addr),
    ensures
        registered.insert(addr, handle).remove(addr) == registered,
        others(others(order, addr).push(addr), addr) == order,
{
    assert(registered.insert(addr, handle).remove(addr) =~= registered);
    lemma_others_of_absent(order, addr);
    reveal(Seq::filter);
    assert(order.push(addr).drop_last() =~= order);
}

/// To register a client again leaves it in the order once, now at the end, and
/// none of the others twice.
pub proof fn law_register_lists_once(order: Seq<ClientAddr>, addr: ClientAddr)
    requires
        order.no_duplicates(),
    ensures
        others(order, addr).no_duplicates(),
        others(order, addr).push(addr).no_duplicates(),
{
    lemma_others(order, addr);
    let kept = others(order, addr);
    assert(!kept.contains(addr));
    assert forall|i: int, j: int| 0 <= i < kept.push(addr).len() && 0 <= j < kept.push(addr).len()
        && i != j implies kept.push(addr)[i] != kept.push(addr)[j] by {
        if i < kept.len() {
            assert(kept.contains(kept[i]));
        }
        if j < kept.len() {
            assert(kept.contains(kept[j]));
        }
    }
}

} // verus!
