//! A table of values keyed by numeric ids (task ids, reactor tokens).
use std::collections::HashMap;
use vstd::prelude::*;

verus! {

broadcast use vstd::std_specs::hash::group_hash_axioms;

/// Values keyed by `usize` ids.
pub struct IdMap<V> {
    map: HashMap<usize, V>,
}

impl<V> View for IdMap<V> {
    type V = Map<usize, V>;

    closed spec fn view(&self) -> Map<usize, V> {
        self.map@
    }
}

impl<V> IdMap<V> {
    /// An empty table.
    pub fn new() -> (m: Self)
        ensures
            m@ == Map::<usize, V>::empty(),
    {
        IdMap { map: HashMap::new() }
    }

    /// Number of ids in the table.
    pub fn len(&self) -> (n: usize)
        ensures
            n == self@.len(),
    {
        self.map.len()
    }

    /// Whether the table holds no id.
    pub fn is_empty(&self) -> (b: bool)
        ensures
            b == (self@.len() == 0),
            b == (self@ == Map::<usize, V>::empty()),
    {
        proof {
            if self@.len() == 0 {
                assert(self@.dom() =~= Set::<usize>::empty());
                assert(self@ =~= Map::<usize, V>::empty());
            }
        }
        self.map.len() == 0
    }

    /// Whether `id` is in the table.
    pub fn contains(&self, id: usize) -> (b: bool)
        ensures
            b == self@.contains_key(id),
    {
        self.map.contains_key(&id)
    }

    /// The value at `id`, if any.
    pub fn get(&self, id: usize) -> (r: Option<&V>)
        ensures
            match r {
                Some(v) => self@.contains_key(id) && self@[id] == *v,
                None => !self@.contains_key(id),
            },
    {
        self.map.get(&id)
    }

    /// Puts `value` at `id`, handing back the value it replaces.
    pub fn insert(&mut self, id: usize, value: V) -> (r: Option<V>)
        ensures
            final(self)@ == old(self)@.insert(id, value),
            match r {
                Some(v) => old(self)@.contains_key(id) && old(self)@[id] == v,
                None => !old(self)@.contains_key(id),
            },
    {
        self.map.insert(id, value)
    }

    /// Takes the value at `id` out of the table.
    pub fn remove(&mut self, id: usize) -> (r: Option<V>)
        ensures
            final(self)@ == old(self)@.remove(id),
            match r {
                Some(v) => old(self)@.contains_key(id) && old(self)@[id] == v,
                None => !old(self)@.contains_key(id),
            },
    {
        self.map.remove(&id)
    }

    /// Every id of the table, each once.
    pub fn ids(&self) -> (out: Vec<usize>)
        ensures
            out@.to_set() == self@.dom(),
            out@.no_duplicates(),
            out@.len() == self@.len(),
    {
        let ghost keys = vstd::std_specs::iter::IteratorSpec::remaining(
            &vstd::std_specs::hash::spec_keys_iter(&self.map),
        ).unref();
        let mut out: Vec<usize> = Vec::new();
        for k in it: self.map.keys()
            invariant
                it.seq().unref() == keys,
                out@ == keys.take(it.index()),
        {
            proof {
                assert(keys.take(it.index() + 1) =~= keys.take(it.index()).push(*k));
            }
            out.push(*k);
        }
        assert(out@ =~= keys);
        out
    }

    /// Takes every entry out of the table, in no particular order.
    pub fn drain(&mut self) -> (out: Vec<(usize, V)>)
        ensures
            final(self)@ == Map::<usize, V>::empty(),
            out@.len() == old(self)@.len(),
            forall|i: int|
                0 <= i < out@.len() ==> old(self)@.contains_key(#[trigger] out@[i].0) && old(
                    self,
                )@[out@[i].0] == out@[i].1,
            forall|i: int, j: int|
                0 <= i < j < out@.len() ==> #[trigger] out@[i].0 != #[trigger] out@[j].0,
            forall|id: usize|
                #[trigger] old(self)@.contains_key(id) ==> exists|i: int|
                    0 <= i < out@.len() && #[trigger] out@[i].0 == id,
    {
        let ids = self.ids();
        let ghost start = self@;
        let mut out: Vec<(usize, V)> = Vec::new();
        let mut n: usize = 0;
        while n < ids.len()
            invariant
                n <= ids@.len(),
                ids@.to_set() == start.dom(),
                ids@.no_duplicates(),
                ids@.len() == start.len(),
                out@.len() == n,
                forall|i: int|
                    0 <= i < n ==> #[trigger] out@[i].0 == ids@[i] && start.contains_key(ids@[i])
                        && start[ids@[i]] == out@[i].1,
                forall|id: usize| #[trigger]
                    self@.contains_key(id) <==> (start.contains_key(id) && !ids@.take(
                        n as int,
                    ).contains(id)),
                forall|id: usize| #[trigger] self@.contains_key(id) ==> self@[id] == start[id],
            decreases ids@.len() - n,
        {
            let id = ids[n];
            proof {
                assert(ids@[n as int] == id);
                assert(ids@.contains(id));
                assert(ids@.to_set().contains(id));
                assert(start.contains_key(id));
                if ids@.take(n as int).contains(id) {
                    let j = choose|j: int| 0 <= j < n && #[trigger] ids@.take(n as int)[j] == id;
                    assert(ids@.take(n as int)[j] == ids@[j]);
                    assert(ids@[j] == ids@[n as int]);
                    assert(false);
                }
                assert(self@.contains_key(id));
            }
            let ghost pre = self@;
            assert(pre[id] == start[id]);
            let v = self.map.remove(&id);
            match v {
                Some(v) => {
                    assert(v == pre[id]);
                    let ghost before = out@;
                    out.push((id, v));
                    proof {
                        assert forall|i: int| 0 <= i < n + 1 implies #[trigger] out@[i].0 == ids@[i]
                            && start.contains_key(ids@[i]) && start[ids@[i]] == out@[i].1 by {
                            if i < n {
                                assert(out@[i] == before[i]);
                            } else {
                                assert(out@[i] == (id, v));
                                assert(ids@[i] == id);
                            }
                        }
                    }
                },
                None => {
                    assert(false);
                },
            }
            proof {
                assert forall|x: usize| #[trigger]
                    self@.contains_key(x) <==> (start.contains_key(x) && !ids@.take(
                        n + 1,
                    ).contains(x)) by {
                    assert(ids@.take(n + 1) =~= ids@.take(n as int).push(id));
                    if x != id {
                        assert(ids@.take(n + 1).contains(x) ==> ids@.take(n as int).contains(x)) by {
                            if ids@.take(n + 1).contains(x) {
                                let j = choose|j: int| 0 <= j < n + 1 && #[trigger] ids@.take(n + 1)[j] == x;
                                assert(ids@.take(n as int)[j] == x);
                            }
                        }
                        assert(ids@.take(n as int).contains(x) ==> ids@.take(n + 1).contains(x)) by {
                            if ids@.take(n as int).contains(x) {
                                let j = choose|j: int| 0 <= j < n && #[trigger] ids@.take(n as int)[j] == x;
                                assert(ids@.take(n + 1)[j] == x);
                            }
                        }
                    } else {
                        assert(ids@.take(n + 1)[n as int] == x);
                    }
                }
            }
            n = n + 1;
        }
        proof {
            assert(ids@.take(ids@.len() as int) =~= ids@);
            assert(self@.dom() =~= Set::<usize>::empty());
            assert(self@ =~= Map::<usize, V>::empty());
            assert forall|id: usize| #[trigger] start.contains_key(id) implies exists|i: int|
                0 <= i < out@.len() && #[trigger] out@[i].0 == id by {
                assert(ids@.to_set().contains(id));
                let i = choose|i: int| 0 <= i < ids@.len() && ids@[i] == id;
                assert(out@[i].0 == id);
            }
        }
        out
    }

    /// Empties the table.
    pub fn clear(&mut self)
        ensures
            final(self)@ == Map::<usize, V>::empty(),
    {
        self.map.clear()
    }
}

} // verus!
