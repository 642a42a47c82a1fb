//! A small verified association map from [`Id`] to an arbitrary value type.
//!
//! Both servers keep their shared bookkeeping (the room directory, the room
//! address table, the pending-creation table, each room's player roster) in
//! maps keyed by identifiers. The map is kept as a vector of key-value pairs
//! in insertion order whose keys are pairwise distinct; its mathematical view
//! is the `Map<Id, V>` built from those pairs. Keeping the underlying
//! sequence visible lets callers also speak about iteration order, which the
//! room's broadcast fan-out needs.

use vstd::prelude::*;
use vstd::set_lib::lemma_len_subset;

use crate::ids::random_id;
use crate::ids::Id;

verus! {

/// There are exactly `c` identifiers whose bits lie below `c`.
proof fn lemma_id_range_len(c: nat)
    requires
        c <= u128::MAX as nat + 1,
    ensures
        Set::new(|id: Id| (id.bits as nat) < c).finite(),
        Set::new(|id: Id| (id.bits as nat) < c).len() == c,
    decreases c,
{
    if c == 0 {
        assert(Set::new(|id: Id| (id.bits as nat) < 0) =~= Set::<Id>::empty());
    } else {
        lemma_id_range_len((c - 1) as nat);
        let smaller = Set::new(|id: Id| (id.bits as nat) < c - 1);
        let top = Id { bits: (c - 1) as u128 };
        assert(Set::new(|id: Id| (id.bits as nat) < c) =~= smaller.insert(top));
        vstd::set::axiom_set_insert_len(smaller, top);
    }
}

/// Pairwise distinctness of the keys of a pair sequence.
pub open spec fn distinct_keys<V>(s: Seq<(Id, V)>) -> bool {
    forall|i: int, j: int| 0 <= i < j < s.len() ==> s[i].0 != s[j].0
}

/// The finite map described by a pair sequence; later pairs win, though the
/// maps kept by this module never repeat a key.
pub open spec fn seq_to_map<V>(s: Seq<(Id, V)>) -> Map<Id, V>
    decreases s.len(),
{
    if s.len() == 0 {
        Map::empty()
    } else {
        seq_to_map(s.drop_last()).insert(s.last().0, s.last().1)
    }
}

/// A key is in the map exactly when some pair of the sequence carries it.
pub proof fn lemma_map_domain<V>(s: Seq<(Id, V)>, k: Id)
    ensures
        seq_to_map(s).contains_key(k) <==> exists|i: int| 0 <= i < s.len() && s[i].0 == k,
    decreases s.len(),
{
    if s.len() > 0 {
        lemma_map_domain(s.drop_last(), k);
        if s.last().0 == k {
            assert(s[s.len() - 1].0 == k);
        } else {
            if exists|i: int| 0 <= i < s.len() && s[i].0 == k {
                let i = choose|i: int| 0 <= i < s.len() && s[i].0 == k;
                assert(s.drop_last()[i].0 == k);
            }
        }
    }
}

/// With distinct keys, the map sends each pair's key to that pair's value.
pub proof fn lemma_map_index<V>(s: Seq<(Id, V)>, i: int)
    requires
        distinct_keys(s),
        0 <= i < s.len(),
    ensures
        seq_to_map(s).contains_key(s[i].0),
        seq_to_map(s)[s[i].0] == s[i].1,
    decreases s.len(),
{
    lemma_map_domain(s, s[i].0);
    if i < s.len() - 1 {
        assert(s.drop_last()[i] == s[i]);
        lemma_map_index(s.drop_last(), i);
    }
}

/// With distinct keys, the map has exactly one entry per pair.
pub proof fn lemma_map_len<V>(s: Seq<(Id, V)>)
    requires
        distinct_keys(s),
    ensures
        seq_to_map(s).dom().finite(),
        seq_to_map(s).dom().len() == s.len(),
    decreases s.len(),
{
    if s.len() == 0 {
        assert(seq_to_map(s).dom() =~= Set::<Id>::empty());
    } else {
        lemma_map_len(s.drop_last());
        lemma_map_domain(s.drop_last(), s.last().0);
        assert(forall|i: int| 0 <= i < s.len() - 1 ==> s.drop_last()[i] == s[i]);
        assert(!seq_to_map(s.drop_last()).contains_key(s.last().0));
        assert(seq_to_map(s).dom() =~= seq_to_map(s.drop_last()).dom().insert(s.last().0));
        vstd::set::axiom_set_insert_len(seq_to_map(s.drop_last()).dom(), s.last().0);
    }
}

/// Overwriting the value at a pair's position overwrites that key in the map.
pub proof fn lemma_map_update<V>(s: Seq<(Id, V)>, i: int, v: V)
    requires
        distinct_keys(s),
        0 <= i < s.len(),
    ensures
        seq_to_map(s.update(i, (s[i].0, v))) == seq_to_map(s).insert(s[i].0, v),
    decreases s.len(),
{
    let k = s[i].0;
    let t = s.update(i, (k, v));
    if i == s.len() - 1 {
        assert(t.drop_last() =~= s.drop_last());
        assert(seq_to_map(t) =~= seq_to_map(s).insert(k, v));
    } else {
        assert(t.drop_last() =~= s.drop_last().update(i, (k, v)));
        assert(s.drop_last()[i] == s[i]);
        lemma_map_update(s.drop_last(), i, v);
        assert(s.last().0 != k);
        assert(seq_to_map(t) =~= seq_to_map(s).insert(k, v));
    }
}

/// Removing a pair from the sequence removes that key from the map.
pub proof fn lemma_map_remove<V>(s: Seq<(Id, V)>, i: int)
    requires
        distinct_keys(s),
        0 <= i < s.len(),
    ensures
        seq_to_map(s.remove(i)) == seq_to_map(s).remove(s[i].0),
    decreases s.len(),
{
    let k = s[i].0;
    let t = s.remove(i);
    if i == s.len() - 1 {
        assert(t =~= s.drop_last());
        lemma_map_domain(s.drop_last(), k);
        assert(forall|j: int| 0 <= j < s.len() - 1 ==> s.drop_last()[j] == s[j]);
        assert(!seq_to_map(s.drop_last()).contains_key(k));
        assert(seq_to_map(t) =~= seq_to_map(s).remove(k));
    } else {
        assert(t.drop_last() =~= s.drop_last().remove(i));
        assert(s.drop_last()[i] == s[i]);
        lemma_map_remove(s.drop_last(), i);
        assert(t.last() == s.last());
        assert(s.last().0 != k);
        assert(seq_to_map(t) =~= seq_to_map(s).remove(k));
    }
}

/// An association map from [`Id`] to `V` with pairwise-distinct keys, kept in
/// insertion order.
pub struct IdMap<V> {
    entries: Vec<(Id, V)>,
}

impl<V> View for IdMap<V> {
    type V = Map<Id, V>;

    open spec fn view(&self) -> Map<Id, V> {
        seq_to_map(self.pairs())
    }
}

impl<V> IdMap<V> {
    /// The key-value pairs in insertion order.
    pub closed spec fn pairs(self) -> Seq<(Id, V)> {
        self.entries@
    }

    /// The keys are pairwise distinct, so the map view loses no pair.
    pub open spec fn wf(self) -> bool {
        distinct_keys(self.pairs())
    }

    /// Relates the map view to the pair sequence at each position.
    pub proof fn lemma_view_pairs(self, i: int)
        requires
            self.wf(),
            0 <= i < self.pairs().len(),
        ensures
            self@.contains_key(self.pairs()[i].0),
            self@[self.pairs()[i].0] == self.pairs()[i].1,
    {
        lemma_map_index(self.pairs(), i);
    }

    /// Relates membership in the map view to the pair sequence.
    pub proof fn lemma_view_domain(self, k: Id)
        ensures
            self@.contains_key(k) <==> exists|i: int|
                0 <= i < self.pairs().len() && self.pairs()[i].0 == k,
    {
        lemma_map_domain(self.pairs(), k);
    }

    /// The map view has exactly one entry per pair.
    pub proof fn lemma_view_len(self)
        requires
            self.wf(),
        ensures
            self@.dom().finite(),
            self@.dom().len() == self.pairs().len(),
    {
        lemma_map_len(self.pairs());
    }

    /// The empty map.
    pub fn new() -> (m: Self)
        ensures
            m.wf(),
            m@ == Map::<Id, V>::empty(),
            m.pairs() == Seq::<(Id, V)>::empty(),
    {
        IdMap { entries: Vec::new() }
    }

    /// The number of entries.
    pub fn len(&self) -> (n: usize)
        ensures
            n == self.pairs().len(),
    {
        self.entries.len()
    }

    /// The pair at a position, in insertion order.
    pub fn entry_at(&self, i: usize) -> (r: &(Id, V))
        requires
            i < self.pairs().len(),
        ensures
            *r == self.pairs()[i as int],
    {
        &self.entries[i]
    }

    /// The position of the pair carrying a key, if any.
    fn index_of(&self, k: Id) -> (r: Option<usize>)
        ensures
            match r {
                Some(i) => i < self.pairs().len() && self.pairs()[i as int].0 == k,
                None => forall|i: int| 0 <= i < self.pairs().len() ==> self.pairs()[i].0 != k,
            },
    {
        let n = self.entries.len();
        let mut i: usize = 0;
        while i < n
            invariant
                i <= n,
                n == self.pairs().len(),
                forall|j: int| 0 <= j < i ==> self.pairs()[j].0 != k,
            decreases n - i,
        {
            if self.entries[i].0 == k {
                return Some(i);
            }
            i = i + 1;
        }
        None
    }

    /// Whether a key is present.
    pub fn contains_key(&self, k: Id) -> (r: bool)
        ensures
            r == self@.contains_key(k),
    {
        proof {
            lemma_map_domain(self.pairs(), k);
        }
        self.index_of(k).is_some()
    }

    /// The value stored under a key, if any.
    pub fn get(&self, k: Id) -> (r: Option<&V>)
        requires
            self.wf(),
        ensures
            match r {
                Some(v) => self@.contains_key(k) && *v == self@[k],
                None => !self@.contains_key(k),
            },
    {
        proof {
            lemma_map_domain(self.pairs(), k);
        }
        match self.index_of(k) {
            Some(i) => {
                proof {
                    lemma_map_index(self.pairs(), i as int);
                }
                Some(&self.entries[i].1)
            },
            None => None,
        }
    }

    /// Stores a value under a key: a fresh key is appended, a present key has
    /// its value overwritten in place.
    pub fn insert(&mut self, k: Id, v: V)
        requires
            old(self).wf(),
        ensures
            final(self).wf(),
            final(self)@ == old(self)@.insert(k, v),
            !old(self)@.contains_key(k) ==> final(self).pairs() == old(self).pairs().push((k, v)),
            old(self)@.contains_key(k) ==> {
                &&& final(self).pairs().len() == old(self).pairs().len()
                &&& forall|j: int|
                    0 <= j < final(self).pairs().len()
                        ==> final(self).pairs()[j].0 == old(self).pairs()[j].0
                &&& forall|j: int|
                    0 <= j < final(self).pairs().len() ==> final(self).pairs()[j].1 == (
                    if old(self).pairs()[j].0 == k {
                        v
                    } else {
                        old(self).pairs()[j].1
                    })
            },
    {
        proof {
            lemma_map_domain(self.pairs(), k);
        }
        match self.index_of(k) {
            Some(i) => {
                proof {
                    lemma_map_update(self.pairs(), i as int, v);
                }
                let ghost s0 = self.pairs();
                self.entries[i] = (k, v);
                proof {
                    assert forall|j: int|
                        0 <= j < self.pairs().len() implies self.pairs()[j].1 == (
                    if s0[j].0 == k {
                        v
                    } else {
                        s0[j].1
                    }) by {
                        if j != i as int && s0[j].0 == k {
                            assert(s0[i as int].0 == k);
                            assert(false);
                        }
                    }
                }
            },
            None => {
                let ghost s0 = self.pairs();
                self.entries.push((k, v));
                proof {
                    assert(self.pairs().drop_last() =~= s0);
                }
            },
        }
    }

    /// A key this map does not hold yet. A randomly drawn identifier is
    /// virtually always free; if it collides, the candidates `0 ..= n` for a
    /// map of `n` entries cannot all be taken, so a bounded scan finds one.
    pub fn fresh_key(&self) -> (r: Id)
        requires
            self.wf(),
        ensures
            !self@.contains_key(r),
    {
        let drawn = random_id();
        if !self.contains_key(drawn) {
            return drawn;
        }
        let n = self.len();
        let mut c: u128 = 0;
        while c <= n as u128
            invariant
                self.wf(),
                c <= n as u128 + 1,
                n == self.pairs().len(),
                forall|b: u128| b < c ==> self@.contains_key(Id { bits: b }),
            decreases n as u128 + 1 - c,
        {
            let candidate = Id { bits: c };
            if !self.contains_key(candidate) {
                return candidate;
            }
            c = c + 1;
        }
        proof {
            let taken = Set::new(|id: Id| (id.bits as nat) < n as nat + 1);
            lemma_id_range_len(n as nat + 1);
            assert forall|id: Id| taken.contains(id) implies self@.dom().contains(id) by {
                assert(self@.contains_key(Id { bits: id.bits }));
                assert(Id { bits: id.bits } == id);
            }
            self.lemma_view_len();
            lemma_len_subset(taken, self@.dom());
            assert(false);
        }
        Id { bits: 0 }
    }

    /// Removes a key, handing back its value; absent keys leave the map
    /// untouched, so removal is idempotent.
    pub fn remove(&mut self, k: Id) -> (r: Option<V>)
        requires
            old(self).wf(),
        ensures
            final(self).wf(),
            final(self)@ == old(self)@.remove(k),
            match r {
                Some(v) => old(self)@.contains_key(k) && v == old(self)@[k] && exists|i: int|
                    0 <= i < old(self).pairs().len() && old(self).pairs()[i].0 == k
                        && final(self).pairs() == old(self).pairs().remove(i),
                None => !old(self)@.contains_key(k) && final(self).pairs() == old(self).pairs(),
            },
    {
        proof {
            lemma_map_domain(self.pairs(), k);
        }
        match self.index_of(k) {
            Some(i) => {
                proof {
                    lemma_map_index(self.pairs(), i as int);
                    lemma_map_remove(self.pairs(), i as int);
                }
                let (_, v) = self.entries.remove(i);
                Some(v)
            },
            None => {
                proof {
                    assert(self@.remove(k) =~= self@);
                }
                None
            },
        }
    }
}

} // verus!
