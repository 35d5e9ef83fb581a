//! Name-keyed collections used by the generator: a set of names and a map
//! from names to values, each viewed as the mathematical set or map of
//! character sequences that it holds.
use vstd::prelude::*;
use crate::text::str_eq;

verus! {

/// A set of names.
pub struct NameSet {
    names: Vec<String>,
}

impl View for NameSet {
    type V = Set<Seq<char>>;

    closed spec fn view(&self) -> Set<Seq<char>> {
        Set::new(|n: Seq<char>| exists|i: int| 0 <= i < self.names@.len() && self.names@[i]@ == n)
    }
}

impl NameSet {
    /// The empty set.
    pub fn new() -> (r: NameSet)
        ensures
            r@ == Set::<Seq<char>>::empty(),
    {
        let r = NameSet { names: Vec::new() };
        assert(r@ =~= Set::<Seq<char>>::empty());
        r
    }

    /// Whether `n` is in the set.
    pub fn contains(&self, n: &str) -> (r: bool)
        ensures
            r == self@.contains(n@),
    {
        let mut i: usize = 0;
        while i < self.names.len()
            invariant
                i <= self.names@.len(),
                forall|j: int| 0 <= j < i ==> self.names@[j]@ != n@,
            decreases self.names@.len() - i,
        {
            if str_eq(self.names[i].as_str(), n) {
                return true;
            }
            i = i + 1;
        }
        false
    }

    /// Add `n`; returns whether it was not there before.
    pub fn insert(&mut self, n: String) -> (r: bool)
        ensures
            final(self)@ == old(self)@.insert(n@),
            r == !old(self)@.contains(n@),
    {
        if self.contains(n.as_str()) {
            assert(self@.insert(n@) =~= self@);
            false
        } else {
            let ghost old_names = self.names@;
            self.names.push(n);
            assert forall|x: Seq<char>| self@.contains(x) == old(self)@.insert(n@).contains(x) by {
                if x == n@ {
                    assert(self.names@[old_names.len() as int]@ == x);
                }
                if old(self)@.contains(x) {
                    let i = choose|i: int| 0 <= i < old_names.len() && old_names[i]@ == x;
                    assert(self.names@[i] == old_names[i]);
                }
                if self@.contains(x) {
                    let i = choose|i: int| 0 <= i < self.names@.len() && self.names@[i]@ == x;
                    if i < old_names.len() {
                        assert(self.names@[i] == old_names[i]);
                    }
                }
            }
            assert(self@ =~= old(self)@.insert(n@));
            true
        }
    }
}

/// Union of a sequence of sets.
pub open spec fn union_seq<A>(xs: Seq<Set<A>>) -> Set<A>
    decreases xs.len(),
{
    if xs.len() == 0 {
        Set::empty()
    } else {
        union_seq(xs.drop_last()).union(xs.last())
    }
}

/// The union over the first `i + 1` sets adds the `i`-th set to the union
/// over the first `i`.
pub proof fn lemma_union_seq_take<A>(xs: Seq<Set<A>>, i: int)
    requires
        0 <= i < xs.len(),
    ensures
        union_seq(xs.take(i + 1)) == union_seq(xs.take(i)).union(xs[i]),
{
    assert(xs.take(i + 1).drop_last() =~= xs.take(i));
}

/// The union over all sets of a sequence taken in full.
pub proof fn lemma_union_seq_all<A>(xs: Seq<Set<A>>)
    ensures
        union_seq(xs.take(xs.len() as int)) == union_seq(xs),
{
    assert(xs.take(xs.len() as int) =~= xs);
}

/// Map of a list of entries in which a later entry for a key overrides an
/// earlier one.
pub open spec fn entries_map<V>(s: Seq<(Seq<char>, V)>) -> Map<Seq<char>, V>
    decreases s.len(),
{
    if s.len() == 0 {
        Map::empty()
    } else {
        entries_map(s.drop_last()).insert(s.last().0, s.last().1)
    }
}

/// A map from names to values.
pub struct NameMap<V> {
    entries: Vec<(String, V)>,
}

impl<V> NameMap<V> {
    closed spec fn key_seq(&self) -> Seq<(Seq<char>, V)> {
        self.entries@.map_values(|e: (String, V)| (e.0@, e.1))
    }
}

impl<V> View for NameMap<V> {
    type V = Map<Seq<char>, V>;

    closed spec fn view(&self) -> Map<Seq<char>, V> {
        entries_map(self.key_seq())
    }
}

/// With no entry for `k` at or after position `j`, the map of all entries
/// and the map of the first `j` entries agree on `k`.
proof fn lemma_entries_map_tail_free<V>(s: Seq<(Seq<char>, V)>, j: int, k: Seq<char>)
    requires
        0 <= j <= s.len(),
        forall|t: int| j <= t < s.len() ==> s[t].0 != k,
    ensures
        entries_map(s).contains_key(k) == entries_map(s.take(j)).contains_key(k),
        entries_map(s).contains_key(k) ==> entries_map(s)[k] == entries_map(s.take(j))[k],
    decreases s.len(),
{
    if s.len() == j {
        assert(s.take(j) =~= s);
    } else {
        let d = s.drop_last();
        assert(d.take(j) =~= s.take(j));
        lemma_entries_map_tail_free(d, j, k);
    }
}

impl<V> NameMap<V> {
    /// The empty map.
    pub fn new() -> (r: NameMap<V>)
        ensures
            r@ == Map::<Seq<char>, V>::empty(),
    {
        let r = NameMap { entries: Vec::new() };
        assert(r.key_seq() =~= Seq::<(Seq<char>, V)>::empty());
        r
    }

    /// Bind `k` to `v`, replacing any earlier binding.
    pub fn insert(&mut self, k: String, v: V)
        ensures
            final(self)@ == old(self)@.insert(k@, v),
    {
        let ghost ks = k@;
        let ghost old_seq = self.key_seq();
        self.entries.push((k, v));
        assert(self.key_seq().drop_last() =~= old_seq);
        assert(self.key_seq().last() == (ks, v));
    }

    /// The value bound to `k`, if any.
    pub fn get(&self, k: &str) -> (r: Option<&V>)
        ensures
            r is Some == self@.contains_key(k@),
            r matches Some(v) ==> *v == self@[k@],
    {
        let ghost s = self.key_seq();
        let mut j: usize = self.entries.len();
        while j > 0
            invariant
                j <= self.entries@.len(),
                s == self.key_seq(),
                forall|t: int| j <= t < s.len() ==> s[t].0 != k@,
            decreases j,
        {
            if str_eq(self.entries[j - 1].0.as_str(), k) {
                let ghost p = s.take(j as int);
                proof {
                    lemma_entries_map_tail_free(s, j as int, k@);
                    assert(p.drop_last() =~= s.take(j - 1));
                    assert(p.last() == s[j - 1]);
                }
                return Some(&self.entries[j - 1].1);
            }
            j = j - 1;
        }
        proof {
            lemma_entries_map_tail_free(s, 0, k@);
            assert(s.take(0) =~= Seq::<(Seq<char>, V)>::empty());
        }
        None
    }

    /// Whether `k` is bound.
    pub fn contains_key(&self, k: &str) -> (r: bool)
        ensures
            r == self@.contains_key(k@),
    {
        self.get(k).is_some()
    }
}

} // verus!
