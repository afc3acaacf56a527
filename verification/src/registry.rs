//! The connection registry: the endpoints that chat is sent to.

use vstd::prelude::*;
use crate::endpoint::Endpoint;

verus! {

/// `connections` with `endpoint` added at the end, unless it is there.
pub open spec fn with_endpoint(connections: Seq<Endpoint>, endpoint: Endpoint) -> Seq<Endpoint> {
    if connections.contains(endpoint) {
        connections
    } else {
        connections.push(endpoint)
    }
}

/// `connections` with `endpoint` taken out, the others in their order.
pub open spec fn without_endpoint(connections: Seq<Endpoint>, endpoint: Endpoint) -> Seq<
    Endpoint,
> {
    if connections.contains(endpoint) {
        connections.remove(connections.index_of(endpoint))
    } else {
        connections
    }
}

/// The set of endpoints with an open connection, in the order in which they
/// were added.
///
/// It is a plain value: whoever owns it is its only writer.
pub struct ConnectionSet {
    endpoints: Vec<Endpoint>,
}

impl View for ConnectionSet {
    type V = Seq<Endpoint>;

    closed spec fn view(&self) -> Seq<Endpoint> {
        self.endpoints@
    }
}

impl ConnectionSet {
    /// No endpoint is held twice.
    pub open spec fn wf(&self) -> bool {
        self@.no_duplicates()
    }

    /// The empty set.
    pub fn new() -> (set: ConnectionSet)
        ensures
            set.wf(),
            set@ == Seq::<Endpoint>::empty(),
    {
        ConnectionSet { endpoints: Vec::new() }
    }

    /// How many endpoints are held.
    pub fn len(&self) -> (n: usize)
        ensures
            n == self@.len(),
    {
        self.endpoints.len()
    }

    /// Whether no endpoint is held.
    pub fn is_empty(&self) -> (b: bool)
        ensures
            b == (self@.len() == 0),
    {
        self.endpoints.len() == 0
    }

    fn position(&self, endpoint: Endpoint) -> (found: Option<usize>)
        ensures
            match found {
                Some(i) => i < self@.len() && self@[i as int] == endpoint,
                None => !self@.contains(endpoint),
            },
    {
        let mut i: usize = 0;
        while i < self.endpoints.len()
            invariant
                i <= self.endpoints@.len(),
                forall|k: int| 0 <= k < i ==> self.endpoints@[k] != endpoint,
            decreases self.endpoints@.len() - i,
        {
            if self.endpoints[i] == endpoint {
                return Some(i);
            }
            i += 1;
        }
        None
    }

    /// Whether `endpoint` is held.
    pub fn contains(&self, endpoint: Endpoint) -> (b: bool)
        ensures
            b == self@.contains(endpoint),
    {
        self.position(endpoint).is_some()
    }

    /// Takes `endpoint` in and tells whether it was new. One that is held
    /// already stays where it is.
    pub fn add(&mut self, endpoint: Endpoint) -> (added: bool)
        requires
            old(self).wf(),
        ensures
            final(self).wf(),
            final(self)@ == with_endpoint(old(self)@, endpoint),
            added == !old(self)@.contains(endpoint),
    {
        match self.position(endpoint) {
            Some(_) => false,
            None => {
                self.endpoints.push(endpoint);
                true
            },
        }
    }

    /// Takes `endpoint` out and tells whether it was held. The others keep
    /// their order.
    pub fn remove(&mut self, endpoint: Endpoint) -> (removed: bool)
        requires
            old(self).wf(),
        ensures
            final(self).wf(),
            final(self)@ == without_endpoint(old(self)@, endpoint),
            removed == old(self)@.contains(endpoint),
    {
        match self.position(endpoint) {
            Some(i) => {
                proof {
                    lemma_without_keeps_the_rest(self@, endpoint);
                }
                self.endpoints.remove(i);
                true
            },
            None => false,
        }
    }

    /// The endpoints held now, as a list of their own.
    pub fn snapshot(&self) -> (endpoints: Vec<Endpoint>)
        ensures
            endpoints@ == self@,
    {
        self.endpoints.clone()
    }
}

/// Adding keeps the set free of duplicates and holds the endpoint
/// afterwards, beside exactly those held before.
pub proof fn lemma_with_adds_one(connections: Seq<Endpoint>, endpoint: Endpoint)
    requires
        connections.no_duplicates(),
    ensures
        with_endpoint(connections, endpoint).no_duplicates(),
        forall|e: Endpoint|
            with_endpoint(connections, endpoint).contains(e) <==> (e == endpoint
                || connections.contains(e)),
{
    let after = with_endpoint(connections, endpoint);
    if !connections.contains(endpoint) {
        assert forall|e: Endpoint| after.contains(e) <==> (e == endpoint || connections.contains(
            e,
        )) by {
            if after.contains(e) {
                let i = choose|i: int| 0 <= i < after.len() && after[i] == e;
                if i < connections.len() {
                    assert(connections[i] == e);
                }
            }
            if connections.contains(e) {
                let i = choose|i: int| 0 <= i < connections.len() && connections[i] == e;
                assert(after[i] == e);
            }
            if e == endpoint {
                assert(after[connections.len() as int] == e);
            }
        }
    }
}

proof fn lemma_index_of_is_the_place(connections: Seq<Endpoint>, at: int)
    requires
        connections.no_duplicates(),
        0 <= at < connections.len(),
    ensures
        connections.contains(connections[at]),
        connections.index_of(connections[at]) == at,
{
    let endpoint = connections[at];
    assert(connections.contains(endpoint));
    let found = connections.index_of(endpoint);
    assert(0 <= found < connections.len() && connections[found] == endpoint);
}

proof fn lemma_remove_at(connections: Seq<Endpoint>, at: int, e: Endpoint)
    requires
        connections.no_duplicates(),
        0 <= at < connections.len(),
    ensures
        connections.remove(at).contains(e) <==> (e != connections[at] && connections.contains(e)),
{
    let after = connections.remove(at);
    if after.contains(e) {
        let i = choose|i: int| 0 <= i < after.len() && after[i] == e;
        let i0 = if i < at {
            i
        } else {
            i + 1
        };
        assert(connections[i0] == e);
        assert(i0 != at);
        assert(connections.contains(e));
    }
    if e != connections[at] && connections.contains(e) {
        let i = choose|i: int| 0 <= i < connections.len() && connections[i] == e;
        let i1 = if i < at {
            i
        } else {
            i - 1
        };
        assert(after[i1] == e);
        assert(after.contains(e));
    }
}

proof fn lemma_remove_at_no_duplicates(connections: Seq<Endpoint>, at: int)
    requires
        connections.no_duplicates(),
        0 <= at < connections.len(),
    ensures
        connections.remove(at).no_duplicates(),
{
    let after = connections.remove(at);
    assert forall|i: int, j: int|
        0 <= i < after.len() && 0 <= j < after.len() && i != j implies after[i] != after[j] by {
        let i0 = if i < at {
            i
        } else {
            i + 1
        };
        let j0 = if j < at {
            j
        } else {
            j + 1
        };
        assert(after[i] == connections[i0]);
        assert(after[j] == connections[j0]);
        assert(i0 != j0);
    }
}

/// Removing keeps the set free of duplicates and holds exactly the other
/// endpoints afterwards.
pub proof fn lemma_without_keeps_the_rest(connections: Seq<Endpoint>, endpoint: Endpoint)
    requires
        connections.no_duplicates(),
    ensures
        without_endpoint(connections, endpoint).no_duplicates(),
        forall|e: Endpoint|
            without_endpoint(connections, endpoint).contains(e) <==> (e != endpoint
                && connections.contains(e)),
        forall|i: int|
            0 <= i < connections.len() && connections[i] == endpoint ==> without_endpoint(
                connections,
                endpoint,
            ) == connections.remove(i),
{
    if connections.contains(endpoint) {
        let at = connections.index_of(endpoint);
        assert(0 <= at < connections.len() && connections[at] == endpoint);
        lemma_remove_at_no_duplicates(connections, at);
        assert forall|e: Endpoint|
            without_endpoint(connections, endpoint).contains(e) <==> (e != endpoint
                && connections.contains(e)) by {
            lemma_remove_at(connections, at, e);
        }
        assert forall|i: int|
            0 <= i < connections.len() && connections[i] == endpoint implies without_endpoint(
            connections,
            endpoint,
        ) == connections.remove(i) by {
            lemma_index_of_is_the_place(connections, i);
        }
    }
}

/// A connection that was torn down is gone from the set, and comes back
/// when the same address shakes hands again.
pub proof fn lemma_gone_then_back(connections: Seq<Endpoint>, endpoint: Endpoint)
    requires
        connections.no_duplicates(),
    ensures
        !without_endpoint(connections, endpoint).contains(endpoint),
        with_endpoint(without_endpoint(connections, endpoint), endpoint).contains(endpoint),
{
    lemma_without_keeps_the_rest(connections, endpoint);
    lemma_with_adds_one(without_endpoint(connections, endpoint), endpoint);
}

} // verus!
