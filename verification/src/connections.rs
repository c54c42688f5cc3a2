//! The connections that a server currently has.
use vstd::prelude::*;

use crate::addr::Addr;

verus! {

/// The send queues of the connected clients, by the address of the client.
#[derive(Debug)]
pub struct Connections<Q> {
    entries: Vec<(Addr, Q)>,
}

/// No two entries have the same address.
pub open spec fn distinct<Q>(entries: Seq<(Addr, Q)>) -> bool {
    forall|i: int, j: int|
        0 <= i < j < entries.len() ==> (#[trigger] entries[i]).0 != (#[trigger] entries[j]).0
}

/// The entry with this address, if there is one, has this index.
spec fn index_of<Q>(entries: Seq<(Addr, Q)>, addr: Addr) -> int {
    choose|i: int| 0 <= i < entries.len() && (#[trigger] entries[i]).0 == addr
}

/// Some entry has this address.
pub open spec fn has_entry<Q>(entries: Seq<(Addr, Q)>, addr: Addr) -> bool {
    exists|i: int| 0 <= i < entries.len() && (#[trigger] entries[i]).0 == addr
}

/// `entries` lists `map`: every binding once, and nothing else.
pub open spec fn lists<Q>(entries: Seq<(Addr, Q)>, map: Map<Addr, Q>) -> bool {
    &&& distinct(entries)
    &&& forall|i: int|
        0 <= i < entries.len() ==> map.contains_pair(
            (#[trigger] entries[i]).0,
            entries[i].1,
        )
    &&& forall|addr: Addr| #[trigger] map.contains_key(addr) ==> has_entry(entries, addr)
}

/// `addrs` lists the addresses of `map`: every one once, and nothing else.
pub open spec fn lists_keys<Q>(addrs: Seq<Addr>, map: Map<Addr, Q>) -> bool {
    &&& addrs.no_duplicates()
    &&& forall|addr: Addr| addrs.contains(addr) <==> #[trigger] map.contains_key(addr)
}

impl<Q> View for Connections<Q> {
    type V = Map<Addr, Q>;

    closed spec fn view(&self) -> Map<Addr, Q> {
        Map::new(
            |addr: Addr| has_entry(self.entries@, addr),
            |addr: Addr| self.entries@[index_of(self.entries@, addr)].1,
        )
    }
}

impl<Q> Connections<Q> {
    /// Each address has at most one entry.
    pub closed spec fn wf(&self) -> bool {
        distinct(self.entries@)
    }

    proof fn lemma_lists(&self)
        requires
            self.wf(),
        ensures
            lists(self.entries@, self@),
    {
        assert forall|i: int| 0 <= i < self.entries@.len() implies self@.contains_pair(
            (#[trigger] self.entries@[i]).0,
            self.entries@[i].1,
        ) by {
            assert(has_entry(self.entries@, self.entries@[i].0));
            assert(index_of(self.entries@, self.entries@[i].0) == i);
        }
    }

    /// No connections.
    pub fn new() -> (connections: Self)
        ensures
            connections.wf(),
            connections@ == Map::<Addr, Q>::empty(),
    {
        let connections = Connections { entries: Vec::new() };
        assert(connections@ =~= Map::<Addr, Q>::empty());
        connections
    }

    /// Where the entry with this address is.
    fn find(&self, addr: Addr) -> (found: Option<usize>)
        ensures
            match found {
                Some(i) => i < self.entries@.len() && self.entries@[i as int].0 == addr,
                None => !has_entry(self.entries@, addr),
            },
    {
        for i in 0..self.entries.len()
            invariant
                forall|j: int| 0 <= j < i ==> (#[trigger] self.entries@[j]).0 != addr,
        {
            if self.entries[i].0 == addr {
                return Some(i);
            }
        }
        None
    }

    /// The queue of the client with this address.
    pub fn get(&self, addr: Addr) -> (queue: Option<&Q>)
        requires
            self.wf(),
        ensures
            match queue {
                Some(queue) => self@.contains_pair(addr, *queue),
                None => !self@.contains_key(addr),
            },
    {
        proof {
            self.lemma_lists();
        }
        match self.find(addr) {
            Some(i) => Some(&self.entries[i].1),
            None => None,
        }
    }

    /// Takes out the queue of the client with this address.
    pub fn remove(&mut self, addr: Addr) -> (queue: Option<Q>)
        requires
            old(self).wf(),
        ensures
            final(self).wf(),
            final(self)@ == old(self)@.remove(addr),
            match queue {
                Some(queue) => old(self)@.contains_pair(addr, queue),
                None => !old(self)@.contains_key(addr),
            },
    {
        proof {
            self.lemma_lists();
        }
        match self.find(addr) {
            Some(i) => {
                let (_, queue) = self.entries.remove(i);
                proof {
                    lemma_lists_remove(old(self).entries@, old(self)@, i as int);
                    self.lemma_lists();
                    lemma_lists_one(self.entries@, self@, old(self)@.remove(addr));
                }
                Some(queue)
            },
            None => {
                assert(self@ =~= old(self)@.remove(addr));
                None
            },
        }
    }

    /// Enters a client. If its address is there already, the new queue takes the place of the
    /// old one, which is given back.
    pub fn insert(&mut self, addr: Addr, queue: Q) -> (replaced: Option<Q>)
        requires
            old(self).wf(),
        ensures
            final(self).wf(),
            final(self)@ == old(self)@.insert(addr, queue),
            match replaced {
                Some(queue) => old(self)@.contains_pair(addr, queue),
                None => !old(self)@.contains_key(addr),
            },
    {
        let replaced = self.remove(addr);
        proof {
            self.lemma_lists();
        }
        let ghost before = self.entries@;
        self.entries.push((addr, queue));
        proof {
            lemma_lists_push(before, old(self)@.remove(addr), addr, queue);
            self.lemma_lists();
            let inserted = old(self)@.insert(addr, queue);
            assert(old(self)@.remove(addr).insert(addr, queue) =~= inserted);
            lemma_lists_one(self.entries@, self@, inserted);
        }
        replaced
    }

    /// The addresses of all clients, each once.
    pub fn addrs(&self) -> (addrs: Vec<Addr>)
        requires
            self.wf(),
        ensures
            lists_keys(addrs@, self@),
    {
        let mut addrs: Vec<Addr> = Vec::new();
        for i in 0..self.entries.len()
            invariant
                addrs@.len() == i,
                forall|j: int| 0 <= j < i ==> #[trigger] addrs@[j] == self.entries@[j].0,
        {
            addrs.push(self.entries[i].0);
        }
        proof {
            self.lemma_lists();
            assert forall|addr: Addr|
                addrs@.contains(addr) <==> #[trigger] self@.contains_key(addr) by {
                if self@.contains_key(addr) {
                    let i = index_of(self.entries@, addr);
                    assert(addrs@[i] == addr);
                }
                if addrs@.contains(addr) {
                    let i = addrs@.index_of(addr);
                    assert(self.entries@[i].0 == addr);
                }
            }
        }
        addrs
    }

    /// Takes out all clients.
    pub fn take_all(&mut self) -> (entries: Vec<(Addr, Q)>)
        requires
            old(self).wf(),
        ensures
            final(self).wf(),
            final(self)@ == Map::<Addr, Q>::empty(),
            lists(entries@, old(self)@),
    {
        proof {
            self.lemma_lists();
        }
        let mut entries: Vec<(Addr, Q)> = Vec::new();
        entries.append(&mut self.entries);
        assert(self@ =~= Map::<Addr, Q>::empty());
        assert(entries@ =~= old(self).entries@);
        entries
    }
}

/// What was entered is found under its address, what was there before is given back, and nothing
/// else changes.
pub proof fn lemma_insert_get<Q>(
    connections: &mut Connections<Q>,
    addr: Addr,
    queue: Q,
    before: Option<&Q>,
    replaced: Option<Q>,
    after: Connections<Q>,
    found: Option<&Q>,
    other: Addr,
    before_other: Option<&Q>,
    after_other: Option<&Q>,
)
    requires
        call_ensures(Connections::<Q>::get, (&*old(connections), addr), before),
        call_ensures(Connections::<Q>::insert, (connections, addr, queue), replaced),
        after == *final(connections),
        call_ensures(Connections::<Q>::get, (&after, addr), found),
        other != addr,
        call_ensures(Connections::<Q>::get, (&*old(connections), other), before_other),
        call_ensures(Connections::<Q>::get, (&after, other), after_other),
    ensures
        found == Some(&queue),
        before is None <==> replaced is None,
        replaced matches Some(queue) ==> before == Some(&queue),
        after_other == before_other,
{
}

/// What was taken out is not found any more, and nothing else changes. It is given back if it was
/// there.
pub proof fn lemma_remove_get<Q>(
    connections: &mut Connections<Q>,
    addr: Addr,
    before: Option<&Q>,
    removed: Option<Q>,
    after: Connections<Q>,
    found: Option<&Q>,
    other: Addr,
    before_other: Option<&Q>,
    after_other: Option<&Q>,
)
    requires
        call_ensures(Connections::<Q>::get, (&*old(connections), addr), before),
        call_ensures(Connections::<Q>::remove, (connections, addr), removed),
        after == *final(connections),
        call_ensures(Connections::<Q>::get, (&after, addr), found),
        other != addr,
        call_ensures(Connections::<Q>::get, (&*old(connections), other), before_other),
        call_ensures(Connections::<Q>::get, (&after, other), after_other),
    ensures
        found is None,
        after_other == before_other,
        before is None <==> removed is None,
        removed matches Some(queue) ==> before == Some(&queue),
{
}

/// The addresses are those under which something is found, each once, and taking out everything
/// gives the same and leaves nothing.
pub proof fn lemma_all_listed<Q>(
    connections: &mut Connections<Q>,
    addrs: Vec<Addr>,
    entries: Vec<(Addr, Q)>,
    after: Connections<Q>,
    addr: Addr,
    found: Option<&Q>,
    found_after: Option<&Q>,
    fresh: Connections<Q>,
    found_in_fresh: Option<&Q>,
)
    requires
        call_ensures(Connections::<Q>::addrs, (&*old(connections),), addrs),
        call_ensures(Connections::<Q>::get, (&*old(connections), addr), found),
        call_ensures(Connections::<Q>::take_all, (connections,), entries),
        after == *final(connections),
        call_ensures(Connections::<Q>::get, (&after, addr), found_after),
        call_ensures(Connections::<Q>::new, (), fresh),
        call_ensures(Connections::<Q>::get, (&fresh, addr), found_in_fresh),
    ensures
        found is Some <==> addrs@.contains(addr),
        forall|i: int, j: int|
            0 <= i < j < addrs@.len() ==> #[trigger] addrs@[i] != #[trigger] addrs@[j],
        found matches Some(queue) ==> entries@.contains((addr, *queue)),
        forall|i: int|
            0 <= i < entries@.len() && (#[trigger] entries@[i]).0 == addr ==> found == Some(
                &entries@[i].1,
            ),
        forall|i: int, j: int|
            0 <= i < j < entries@.len() ==> (#[trigger] entries@[i]).0 != (
            #[trigger] entries@[j]).0,
        found_after is None,
        found_in_fresh is None,
{
    let before = *old(connections);
    assert(before@.contains_key(addr) <==> addrs@.contains(addr));
    if found is Some {
        assert(has_entry(entries@, addr));
        let i = choose|i: int| 0 <= i < entries@.len() && (#[trigger] entries@[i]).0 == addr;
        assert(entries@[i] == (addr, *found.unwrap()));
    }
}

/// Taking out an entry takes out its binding.
proof fn lemma_lists_remove<Q>(entries: Seq<(Addr, Q)>, map: Map<Addr, Q>, i: int)
    requires
        lists(entries, map),
        0 <= i < entries.len(),
    ensures
        lists(entries.remove(i), map.remove(entries[i].0)),
{
    let left = entries.remove(i);
    let kept = map.remove(entries[i].0);
    assert forall|addr: Addr| #[trigger] kept.contains_key(addr) implies has_entry(left, addr) by {
        assert(map.contains_key(addr));
        let j = index_of(entries, addr);
        assert(left[if j < i { j } else { j - 1 }].0 == addr);
    }
}

/// A new entry adds its binding.
proof fn lemma_lists_push<Q>(entries: Seq<(Addr, Q)>, map: Map<Addr, Q>, addr: Addr, queue: Q)
    requires
        lists(entries, map),
        !map.contains_key(addr),
    ensures
        lists(entries.push((addr, queue)), map.insert(addr, queue)),
{
    let all = entries.push((addr, queue));
    let grown = map.insert(addr, queue);
    assert forall|other: Addr| #[trigger] grown.contains_key(other) implies has_entry(all, other) by {
        if other == addr {
            assert(all[entries.len() as int].0 == other);
        } else {
            assert(map.contains_key(other));
            assert(all[index_of(entries, other)].0 == other);
        }
    }
    assert(distinct(all)) by {
        assert forall|i: int, j: int| 0 <= i < j < all.len() implies (#[trigger] all[i]).0 != (
        #[trigger] all[j]).0 by {
            assert(map.contains_pair(entries[i].0, entries[i].1));
        }
    }
}

/// Entries list one map only.
proof fn lemma_lists_one<Q>(entries: Seq<(Addr, Q)>, left: Map<Addr, Q>, right: Map<Addr, Q>)
    requires
        lists(entries, left),
        lists(entries, right),
    ensures
        left == right,
{
    assert(left =~= right);
}

} // verus!
