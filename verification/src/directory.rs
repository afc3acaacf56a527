//! The name directory: which name belongs to which endpoint.

use vstd::prelude::*;
use crate::endpoint::Endpoint;

verus! {

spec fn holds(entries: Seq<(Endpoint, String)>, endpoint: Endpoint) -> bool {
    exists|i: int| 0 <= i < entries.len() && (#[trigger] entries[i]).0 == endpoint
}

spec fn slot(entries: Seq<(Endpoint, String)>, endpoint: Endpoint) -> int {
    choose|i: int| 0 <= i < entries.len() && (#[trigger] entries[i]).0 == endpoint
}

spec fn distinct(entries: Seq<(Endpoint, String)>) -> bool {
    forall|i: int, j: int|
        0 <= i < j < entries.len() ==> (#[trigger] entries[i]).0 != (#[trigger] entries[j]).0
}

spec fn as_map(entries: Seq<(Endpoint, String)>) -> Map<Endpoint, Seq<char>> {
    Map::new(|e: Endpoint| holds(entries, e), |e: Endpoint| entries[slot(entries, e)].1@)
}

proof fn lemma_slot(entries: Seq<(Endpoint, String)>, i: int)
    requires
        distinct(entries),
        0 <= i < entries.len(),
    ensures
        holds(entries, entries[i].0),
        slot(entries, entries[i].0) == i,
        as_map(entries).dom().contains(entries[i].0),
        as_map(entries)[entries[i].0] == entries[i].1@,
{
    let j = slot(entries, entries[i].0);
    assert(0 <= j < entries.len() && entries[j].0 == entries[i].0);
    if j < i {
        assert(entries[j].0 != entries[i].0);
    } else if i < j {
        assert(entries[i].0 != entries[j].0);
    }
}

proof fn lemma_absent(entries: Seq<(Endpoint, String)>, endpoint: Endpoint)
    requires
        forall|i: int| 0 <= i < entries.len() ==> (#[trigger] entries[i]).0 != endpoint,
    ensures
        !as_map(entries).dom().contains(endpoint),
{
}

/// A map from endpoints to display names.
pub struct NameDirectory {
    entries: Vec<(Endpoint, String)>,
}

impl View for NameDirectory {
    type V = Map<Endpoint, Seq<char>>;

    closed spec fn view(&self) -> Map<Endpoint, Seq<char>> {
        as_map(self.entries@)
    }
}

impl NameDirectory {
    /// No endpoint is listed twice.
    pub closed spec fn wf(&self) -> bool {
        distinct(self.entries@)
    }

    /// The directory that knows nobody.
    pub fn new() -> (directory: NameDirectory)
        ensures
            directory.wf(),
            directory@ == Map::<Endpoint, Seq<char>>::empty(),
    {
        let directory = NameDirectory { entries: Vec::new() };
        assert(directory@ =~= Map::<Endpoint, Seq<char>>::empty());
        directory
    }

    fn position(&self, endpoint: Endpoint) -> (found: Option<usize>)
        requires
            self.wf(),
        ensures
            match found {
                Some(i) => i < self.entries@.len() && self.entries@[i as int].0 == endpoint
                    && self@.dom().contains(endpoint) && self@[endpoint]
                    == self.entries@[i as int].1@,
                None => !self@.dom().contains(endpoint) && forall|k: int|
                    0 <= k < self.entries@.len() ==> (#[trigger] self.entries@[k]).0 != endpoint,
            },
    {
        let mut i: usize = 0;
        while i < self.entries.len()
            invariant
                self.wf(),
                i <= self.entries@.len(),
                forall|k: int| 0 <= k < i ==> (#[trigger] self.entries@[k]).0 != endpoint,
            decreases self.entries@.len() - i,
        {
            if self.entries[i].0 == endpoint {
                proof {
                    lemma_slot(self.entries@, i as int);
                }
                return Some(i);
            }
            i += 1;
        }
        proof {
            lemma_absent(self.entries@, endpoint);
        }
        None
    }

    /// Whether a name is known for `endpoint`.
    pub fn contains(&self, endpoint: Endpoint) -> (b: bool)
        requires
            self.wf(),
        ensures
            b == self@.dom().contains(endpoint),
    {
        self.position(endpoint).is_some()
    }

    /// The name known for `endpoint`, if there is one.
    pub fn name_of(&self, endpoint: Endpoint) -> (name: Option<&String>)
        requires
            self.wf(),
        ensures
            match name {
                Some(n) => self@.dom().contains(endpoint) && n@ == self@[endpoint],
                None => !self@.dom().contains(endpoint),
            },
    {
        match self.position(endpoint) {
            Some(i) => Some(&self.entries[i].1),
            None => None,
        }
    }

    /// Lists `name` for `endpoint`, in place of the name listed before, if
    /// there was one.
    pub fn insert(&mut self, endpoint: Endpoint, name: String)
        requires
            old(self).wf(),
        ensures
            final(self).wf(),
            final(self)@ == old(self)@.insert(endpoint, name@),
    {
        let ghost before = self.entries@;
        let ghost text = name@;
        let ghost at: int;
        match self.position(endpoint) {
            Some(i) => {
                self.entries.set(i, (endpoint, name));
                proof {
                    at = i as int;
                }
            },
            None => {
                self.entries.push((endpoint, name));
                proof {
                    at = before.len() as int;
                }
            },
        }
        proof {
            let after = self.entries@;
            assert(after[at].0 == endpoint && after[at].1@ == text);
            assert(distinct(after));
            assert forall|e: Endpoint| #[trigger]
                as_map(after).dom().contains(e) == as_map(before).insert(
                    endpoint,
                    text,
                ).dom().contains(e) by {
                if holds(after, e) {
                    let j = slot(after, e);
                    if e != endpoint {
                        assert(before[j].0 == e);
                    }
                }
                if e != endpoint && holds(before, e) {
                    let j = slot(before, e);
                    assert(after[j].0 == e);
                }
            }
            assert forall|e: Endpoint| as_map(after).dom().contains(e) implies #[trigger] as_map(
                after,
            )[e] == as_map(before).insert(endpoint, text)[e] by {
                let j = slot(after, e);
                lemma_slot(after, j);
                if e != endpoint {
                    assert(before[j].0 == e);
                    lemma_slot(before, j);
                }
            }
            assert(as_map(after) =~= as_map(before).insert(endpoint, text));
        }
    }

    /// Strikes `endpoint` from the directory and returns the name that was
    /// listed for it.
    pub fn remove(&mut self, endpoint: Endpoint) -> (name: Option<String>)
        requires
            old(self).wf(),
        ensures
            final(self).wf(),
            final(self)@ == old(self)@.remove(endpoint),
            match name {
                Some(n) => old(self)@.dom().contains(endpoint) && n@ == old(self)@[endpoint],
                None => !old(self)@.dom().contains(endpoint),
            },
    {
        let ghost before = self.entries@;
        match self.position(endpoint) {
            Some(i) => {
                let entry = self.entries.remove(i);
                proof {
                    let after = self.entries@;
                    assert(distinct(after)) by {
                        assert forall|a: int, b: int| 0 <= a < b < after.len() implies (
                        #[trigger] after[a]).0 != (#[trigger] after[b]).0 by {
                            let a0 = if a < i { a } else { a + 1 };
                            let b0 = if b < i { b } else { b + 1 };
                            assert(after[a] == before[a0] && after[b] == before[b0]);
                        }
                    }
                    assert forall|e: Endpoint| #[trigger]
                        as_map(after).dom().contains(e) == as_map(before).remove(
                            endpoint,
                        ).dom().contains(e) by {
                        if holds(after, e) {
                            let j = slot(after, e);
                            let j0 = if j < i { j } else { j + 1 };
                            assert(before[j0].0 == e);
                        }
                        if e != endpoint && holds(before, e) {
                            let j = slot(before, e);
                            let j1 = if j < i { j } else { j - 1 };
                            assert(after[j1].0 == e);
                        }
                    }
                    assert forall|e: Endpoint|
                        as_map(after).dom().contains(e) implies #[trigger] as_map(after)[e]
                        == as_map(before).remove(endpoint)[e] by {
                        let j = slot(after, e);
                        lemma_slot(after, j);
                        let j0 = if j < i { j } else { j + 1 };
                        assert(before[j0] == after[j]);
                        lemma_slot(before, j0);
                    }
                    assert(as_map(after) =~= as_map(before).remove(endpoint));
                }
                Some(entry.1)
            },
            None => {
                assert(self@ =~= old(self)@.remove(endpoint));
                None
            },
        }
    }
}

} // verus!
