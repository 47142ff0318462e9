use vstd::prelude::*;
use crate::keyorder::{key_less, key_lt, lemma_key_lt_irreflexive, lemma_key_lt_total, lemma_key_lt_transitive};

verus! {

/// How a constant's raw text is written out.
#[derive(Clone, Copy, Debug, PartialEq, Eq, Structural)]
pub enum ConstType {
    /// A string constant.
    Str,
    /// A boolean constant; its raw text must be `true` or `false`.
    Bool,
    /// A byte-slice constant holding the UTF-8 bytes of its raw text.
    Slice,
}

/// One collected build fact: its description, its raw text and its kind.
#[derive(Clone, Debug)]
pub struct ConstVal {
    pub desc: String,
    pub v: String,
    pub t: ConstType,
}

impl ConstVal {
    pub fn new(desc: String, v: String, t: ConstType) -> (r: ConstVal)
        ensures
            r.desc == desc,
            r.v == v,
            r.t == t,
    {
        ConstVal { desc, v, t }
    }

    /// A copy of this value.
    pub fn duplicate(&self) -> (r: ConstVal)
        ensures
            r == *self,
    {
        ConstVal { desc: self.desc.clone(), v: self.v.clone(), t: self.t }
    }
}

/// The registry's contents as a map from identifier to value.
pub type RegistryMap = Map<Seq<char>, ConstVal>;

/// The registry obtained by inserting `pairs` in order into `m`, later pairs overwriting earlier ones.
pub open spec fn insert_all(m: RegistryMap, pairs: Seq<(String, ConstVal)>) -> RegistryMap
    decreases pairs.len(),
{
    if pairs.len() == 0 {
        m
    } else {
        insert_all(m, pairs.drop_last()).insert(pairs.last().0@, pairs.last().1)
    }
}

/// The registry built from `pairs` alone.
pub open spec fn merged(pairs: Seq<(String, ConstVal)>) -> RegistryMap {
    insert_all(Map::empty(), pairs)
}

/// The set of identifiers held in a list of strings.
pub open spec fn id_set(ids: Seq<String>) -> Set<Seq<char>> {
    Set::new(|k: Seq<char>| exists|i: int| 0 <= i < ids.len() && ids[i]@ == k)
}

/// An ordered map from identifier to constant, kept sorted by `key_lt` with unique keys.
pub struct Registry {
    entries: Vec<(String, ConstVal)>,
    contents: Ghost<RegistryMap>,
}

impl Registry {
    pub closed spec fn view(&self) -> RegistryMap {
        self.contents@
    }

    /// The identifiers, in the registry's order.
    pub closed spec fn key_seq(&self) -> Seq<Seq<char>> {
        self.entries@.map_values(|e: (String, ConstVal)| e.0@)
    }

    pub closed spec fn wf(&self) -> bool {
        &&& forall|i: int, j: int|
            0 <= i < j < self.entries@.len() ==> key_lt(
                #[trigger] self.entries@[i].0@,
                #[trigger] self.entries@[j].0@,
            )
        &&& forall|i: int|
            0 <= i < self.entries@.len() ==> self.contents@.contains_key(
                #[trigger] self.entries@[i].0@,
            ) && self.contents@[self.entries@[i].0@] == self.entries@[i].1
        &&& forall|k: Seq<char>|
            #[trigger] self.contents@.contains_key(k) ==> exists|i: int|
                0 <= i < self.entries@.len() && self.entries@[i].0@ == k
    }

    pub proof fn lemma_key_seq(&self)
        requires
            self.wf(),
        ensures
            self.key_seq().len() == self@.dom().len(),
            self.key_seq().to_set() == self@.dom(),
            self.key_seq().no_duplicates(),
            forall|i: int, j: int|
                0 <= i < j < self.key_seq().len() ==> key_lt(
                    #[trigger] self.key_seq()[i],
                    #[trigger] self.key_seq()[j],
                ),
    {
        let ks = self.key_seq();
        assert forall|i: int, j: int| 0 <= i < ks.len() && 0 <= j < ks.len() && i != j implies ks[i]
            != ks[j] by {
            if i < j {
                assert(key_lt(self.entries@[i].0@, self.entries@[j].0@));
                lemma_key_lt_irreflexive(ks[i]);
            } else {
                assert(key_lt(self.entries@[j].0@, self.entries@[i].0@));
                lemma_key_lt_irreflexive(ks[j]);
            }
        }
        assert(ks.to_set() =~= self@.dom()) by {
            assert forall|k: Seq<char>| self@.dom().contains(k) implies ks.to_set().contains(k) by {
                let i = choose|i: int| 0 <= i < self.entries@.len() && self.entries@[i].0@ == k;
                assert(ks[i] == k);
            }
            assert forall|k: Seq<char>| ks.to_set().contains(k) implies self@.dom().contains(k) by {
                let i = choose|i: int| 0 <= i < ks.len() && ks[i] == k;
                assert(self.entries@[i].0@ == k);
            }
        }
        ks.unique_seq_to_set();
    }

    /// An empty registry.
    pub fn new() -> (r: Registry)
        ensures
            r.wf(),
            r@ == RegistryMap::empty(),
    {
        Registry { entries: Vec::new(), contents: Ghost(Map::empty()) }
    }

    /// Number of constants held.
    pub fn len(&self) -> (r: usize)
        requires
            self.wf(),
        ensures
            r == self@.dom().len(),
            r == self.key_seq().len(),
    {
        proof {
            self.lemma_key_seq();
        }
        self.entries.len()
    }

    /// The identifier at position `i` in key order.
    pub fn key_at(&self, i: usize) -> (r: &String)
        requires
            self.wf(),
            i < self.key_seq().len(),
        ensures
            r@ == self.key_seq()[i as int],
    {
        proof {
            self.lemma_key_seq();
        }
        &self.entries[i].0
    }

    /// The value at position `i` in key order.
    pub fn value_at(&self, i: usize) -> (r: &ConstVal)
        requires
            self.wf(),
            i < self.key_seq().len(),
        ensures
            self@.contains_key(self.key_seq()[i as int]),
            *r == self@[self.key_seq()[i as int]],
    {
        proof {
            self.lemma_key_seq();
        }
        &self.entries[i].1
    }

    /// Position of `k`, if present.
    fn find(&self, k: &String) -> (r: Option<usize>)
        requires
            self.wf(),
        ensures
            match r {
                Some(i) => i < self.entries@.len() && self.entries@[i as int].0@ == k@,
                None => !self@.contains_key(k@),
            },
    {
        let mut i: usize = 0;
        while i < self.entries.len()
            invariant
                self.wf(),
                i <= self.entries@.len(),
                forall|j: int| 0 <= j < i ==> self.entries@[j].0@ != k@,
            decreases self.entries@.len() - i,
        {
            if self.entries[i].0 == *k {
                return Some(i);
            }
            i = i + 1;
        }
        None
    }

    /// Whether `k` is held.
    pub fn contains(&self, k: &String) -> (r: bool)
        requires
            self.wf(),
        ensures
            r == self@.contains_key(k@),
    {
        self.find(k).is_some()
    }

    /// The value held for `k`.
    pub fn get(&self, k: &String) -> (r: Option<&ConstVal>)
        requires
            self.wf(),
        ensures
            match r {
                Some(v) => self@.contains_key(k@) && *v == self@[k@],
                None => !self@.contains_key(k@),
            },
    {
        match self.find(k) {
            Some(i) => Some(&self.entries[i].1),
            None => None,
        }
    }

    /// Sets `k` to `v`, replacing any earlier value of `k`.
    pub fn insert(&mut self, k: String, v: ConstVal)
        requires
            old(self).wf(),
        ensures
            final(self).wf(),
            final(self)@ == old(self)@.insert(k@, v),
    {
        let mut i: usize = 0;
        while i < self.entries.len() && key_less(&self.entries[i].0, &k)
            invariant
                self.wf(),
                i <= self.entries@.len(),
                forall|j: int| 0 <= j < i ==> key_lt(#[trigger] self.entries@[j].0@, k@),
            decreases self.entries@.len() - i,
        {
            i = i + 1;
        }
        let ghost old_entries = self.entries@;
        let ghost new_map = self.contents@.insert(k@, v);
        let ghost kk = k@;
        proof {
            assert forall|j: int| 0 <= j < i implies old_entries[j].0@ != kk by {
                assert(key_lt(old_entries[j].0@, kk));
                lemma_key_lt_irreflexive(kk);
            }
        }
        if i < self.entries.len() && self.entries[i].0 == k {
            proof {
                assert forall|j: int| 0 <= j < old_entries.len() && j != i implies old_entries[j].0@
                    != kk by {
                    if j > i {
                        assert(key_lt(old_entries[i as int].0@, old_entries[j].0@));
                        lemma_key_lt_irreflexive(kk);
                    }
                }
            }
            self.entries.set(i, (k, v));
            self.contents = Ghost(new_map);
            proof {
                assert forall|k2: Seq<char>| #[trigger] self.contents@.contains_key(k2) implies exists|
                    j: int,
                | 0 <= j < self.entries@.len() && self.entries@[j].0@ == k2 by {
                    if k2 != kk {
                        let j = choose|j: int|
                            0 <= j < old_entries.len() && old_entries[j].0@ == k2;
                        assert(self.entries@[j].0@ == k2);
                    } else {
                        assert(self.entries@[i as int].0@ == k2);
                    }
                }
            }
        } else {
            proof {
                if i < old_entries.len() {
                    lemma_key_lt_total(old_entries[i as int].0@, kk);
                }
                assert forall|j: int| i <= j < old_entries.len() implies key_lt(
                    kk,
                    #[trigger] old_entries[j].0@,
                ) by {
                    if j > i {
                        assert(key_lt(old_entries[i as int].0@, old_entries[j].0@));
                        lemma_key_lt_transitive(kk, old_entries[i as int].0@, old_entries[j].0@);
                    }
                }
                assert forall|j: int| i <= j < old_entries.len() implies old_entries[j].0@ != kk by {
                    assert(key_lt(kk, old_entries[j].0@));
                    lemma_key_lt_irreflexive(kk);
                }
            }
            self.entries.insert(i, (k, v));
            self.contents = Ghost(new_map);
            proof {
                let e = self.entries@;
                assert(forall|j: int| 0 <= j < i ==> e[j] == old_entries[j]);
                assert(forall|j: int| i < j < e.len() ==> e[j] == old_entries[j - 1]);
                assert forall|a: int, b: int| 0 <= a < b < e.len() implies key_lt(
                    #[trigger] e[a].0@,
                    #[trigger] e[b].0@,
                ) by {
                    if b < i {
                    } else if b == i {
                        assert(key_lt(old_entries[a].0@, kk));
                    } else if a == i {
                        assert(key_lt(kk, old_entries[b - 1].0@));
                    } else if a < i {
                        assert(key_lt(old_entries[a].0@, old_entries[b - 1].0@));
                    } else {
                        assert(key_lt(old_entries[a - 1].0@, old_entries[b - 1].0@));
                    }
                }
                assert forall|j: int| 0 <= j < e.len() implies self.contents@.contains_key(
                    #[trigger] e[j].0@,
                ) && self.contents@[e[j].0@] == e[j].1 by {
                    if j < i {
                        assert(old_entries[j].0@ != kk);
                    } else if j > i {
                        assert(old_entries[j - 1].0@ != kk);
                    }
                }
                assert forall|k2: Seq<char>| #[trigger] self.contents@.contains_key(k2) implies exists|
                    j: int,
                | 0 <= j < e.len() && e[j].0@ == k2 by {
                    if k2 != kk {
                        let j = choose|j: int|
                            0 <= j < old_entries.len() && old_entries[j].0@ == k2;
                        if j < i {
                            assert(e[j].0@ == k2);
                        } else {
                            assert(e[j + 1].0@ == k2);
                        }
                    } else {
                        assert(e[i as int].0@ == k2);
                    }
                }
            }
        }
    }

    /// Removes `k` if it is held.
    pub fn remove(&mut self, k: &String)
        requires
            old(self).wf(),
        ensures
            final(self).wf(),
            final(self)@ == old(self)@.remove(k@),
    {
        match self.find(k) {
            None => {
                proof {
                    assert(self.contents@.remove(k@) =~= self.contents@);
                }
            },
            Some(i) => {
                let ghost old_entries = self.entries@;
                let ghost new_map = self.contents@.remove(k@);
                let ghost kk = k@;
                proof {
                    assert forall|j: int| 0 <= j < old_entries.len() && j != i implies old_entries[j].0@
                        != kk by {
                        if j > i {
                            assert(key_lt(old_entries[i as int].0@, old_entries[j].0@));
                        } else {
                            assert(key_lt(old_entries[j].0@, old_entries[i as int].0@));
                        }
                        lemma_key_lt_irreflexive(kk);
                    }
                }
                self.entries.remove(i);
                self.contents = Ghost(new_map);
                proof {
                    let e = self.entries@;
                    assert(forall|j: int| 0 <= j < i ==> e[j] == old_entries[j]);
                    assert(forall|j: int| i <= j < e.len() ==> e[j] == old_entries[j + 1]);
                    assert forall|a: int, b: int| 0 <= a < b < e.len() implies key_lt(
                        #[trigger] e[a].0@,
                        #[trigger] e[b].0@,
                    ) by {
                        if b < i {
                        } else if a < i {
                            assert(key_lt(old_entries[a].0@, old_entries[b + 1].0@));
                        } else {
                            assert(key_lt(old_entries[a + 1].0@, old_entries[b + 1].0@));
                        }
                    }
                    assert forall|j: int| 0 <= j < e.len() implies self.contents@.contains_key(
                        #[trigger] e[j].0@,
                    ) && self.contents@[e[j].0@] == e[j].1 by {
                        if j < i {
                            assert(old_entries[j].0@ != kk);
                        } else {
                            assert(old_entries[j + 1].0@ != kk);
                        }
                    }
                    assert forall|k2: Seq<char>| #[trigger] self.contents@.contains_key(k2) implies exists|
                        j: int,
                    | 0 <= j < e.len() && e[j].0@ == k2 by {
                        let j = choose|j: int|
                            0 <= j < old_entries.len() && old_entries[j].0@ == k2;
                        if j < i {
                            assert(e[j].0@ == k2);
                        } else {
                            assert(e[j - 1].0@ == k2);
                        }
                    }
                }
            },
        }
    }

    /// Inserts each pair in order; a later pair overwrites an earlier value of the same identifier.
    pub fn merge(&mut self, pairs: Vec<(String, ConstVal)>)
        requires
            old(self).wf(),
        ensures
            final(self).wf(),
            final(self)@ == insert_all(old(self)@, pairs@),
    {
        let ghost start = self@;
        let mut i: usize = 0;
        while i < pairs.len()
            invariant
                self.wf(),
                i <= pairs@.len(),
                self@ == insert_all(start, pairs@.subrange(0, i as int)),
            decreases pairs@.len() - i,
        {
            let (k, v) = (pairs[i].0.clone(), pairs[i].1.duplicate());
            self.insert(k, v);
            proof {
                let s1 = pairs@.subrange(0, i + 1);
                assert(s1.drop_last() =~= pairs@.subrange(0, i as int));
            }
            i = i + 1;
        }
        proof {
            assert(pairs@.subrange(0, pairs@.len() as int) =~= pairs@);
        }
    }

    /// A registry built from the pairs in order, later pairs winning.
    pub fn from_pairs(pairs: Vec<(String, ConstVal)>) -> (r: Registry)
        ensures
            r.wf(),
            r@ == merged(pairs@),
    {
        let mut r = Registry::new();
        r.merge(pairs);
        r
    }

    /// Removes every identifier listed in `deny`.
    pub fn filter_deny(&mut self, deny: &Vec<String>)
        requires
            old(self).wf(),
        ensures
            final(self).wf(),
            final(self)@ == old(self)@.remove_keys(id_set(deny@)),
    {
        let ghost start = self@;
        let mut i: usize = 0;
        proof {
            assert(start.remove_keys(id_set(deny@.subrange(0, 0))) =~= start);
        }
        while i < deny.len()
            invariant
                self.wf(),
                i <= deny@.len(),
                self@ == start.remove_keys(id_set(deny@.subrange(0, i as int))),
            decreases deny@.len() - i,
        {
            self.remove(&deny[i]);
            proof {
                let sb = deny@.subrange(0, i as int);
                let sa = deny@.subrange(0, i + 1);
                let before = id_set(sb);
                let after = id_set(sa);
                assert(after =~= before.insert(deny@[i as int]@)) by {
                    assert forall|k: Seq<char>| after.contains(k) implies before.insert(
                        deny@[i as int]@,
                    ).contains(k) by {
                        let j = choose|j: int| 0 <= j < sa.len() && (#[trigger] sa[j])@ == k;
                        if j < i {
                            assert(sb[j]@ == k);
                        }
                    }
                    assert forall|k: Seq<char>| before.insert(deny@[i as int]@).contains(k) implies after.contains(k) by {
                        if k == deny@[i as int]@ {
                            assert(sa[i as int]@ == k);
                        } else {
                            let j = choose|j: int| 0 <= j < sb.len() && (#[trigger] sb[j])@ == k;
                            assert(sa[j]@ == k);
                        }
                    }
                }
                assert(self@ =~= start.remove_keys(after));
            }
            i = i + 1;
        }
        proof {
            assert(deny@.subrange(0, deny@.len() as int) =~= deny@);
        }
    }
}

/// Whether identifiers are strictly increasing in the registry's order.
pub open spec fn sorted_keys(s: Seq<Seq<char>>) -> bool {
    forall|i: int, j: int| 0 <= i < j < s.len() ==> key_lt(#[trigger] s[i], #[trigger] s[j])
}

/// Two strictly increasing identifier lists holding the same identifiers are equal.
pub proof fn lemma_sorted_same_set(a: Seq<Seq<char>>, b: Seq<Seq<char>>)
    requires
        sorted_keys(a),
        sorted_keys(b),
        a.to_set() == b.to_set(),
    ensures
        a == b,
    decreases a.len(),
{
    if a.len() == 0 {
        if b.len() > 0 {
            assert(b.to_set().contains(b[0]));
        }
        assert(a =~= b);
    } else {
        assert(a.to_set().contains(a[0]));
        assert(b.len() > 0);
        assert(b.to_set().contains(b[0]));
        let j = choose|j: int| 0 <= j < b.len() && b[j] == a[0];
        let i = choose|i: int| 0 <= i < a.len() && a[i] == b[0];
        if j > 0 {
            assert(key_lt(b[0], b[j]));
            if i > 0 {
                assert(key_lt(a[0], a[i]));
                lemma_key_lt_transitive(a[0], b[0], a[0]);
            }
            lemma_key_lt_irreflexive(a[0]);
        }
        assert(a[0] == b[0]);
        let a1 = a.drop_first();
        let b1 = b.drop_first();
        assert(a1.to_set() =~= b1.to_set()) by {
            assert forall|k: Seq<char>| a1.to_set().contains(k) implies b1.to_set().contains(k) by {
                let p = choose|p: int| 0 <= p < a1.len() && a1[p] == k;
                assert(a.to_set().contains(k));
                let q = choose|q: int| 0 <= q < b.len() && b[q] == k;
                assert(key_lt(a[0], a[p + 1]));
                if q == 0 {
                    lemma_key_lt_irreflexive(k);
                }
                assert(b1[q - 1] == k);
            }
            assert forall|k: Seq<char>| b1.to_set().contains(k) implies a1.to_set().contains(k) by {
                let p = choose|p: int| 0 <= p < b1.len() && b1[p] == k;
                assert(b.to_set().contains(k));
                let q = choose|q: int| 0 <= q < a.len() && a[q] == k;
                assert(key_lt(b[0], b[p + 1]));
                if q == 0 {
                    lemma_key_lt_irreflexive(k);
                }
                assert(a1[q - 1] == k);
            }
        }
        lemma_sorted_same_set(a1, b1);
        assert forall|p: int| 0 <= p < a.len() implies a[p] == b[p] by {
            if p > 0 {
                assert(a[p] == a1[p - 1]);
                assert(b[p] == b1[p - 1]);
            }
        }
        assert(a =~= b);
    }
}

/// The order in which a registry lists its identifiers is fixed by its contents.
pub proof fn lemma_contents_fix_order(r1: &Registry, r2: &Registry)
    requires
        r1.wf(),
        r2.wf(),
        r1@ == r2@,
    ensures
        r1.key_seq() == r2.key_seq(),
{
    r1.lemma_key_seq();
    r2.lemma_key_seq();
    lemma_sorted_same_set(r1.key_seq(), r2.key_seq());
}

/// Filtering by a deny set keeps exactly the identifiers outside it, with their values, and
/// holds none of the denied ones.
pub proof fn lemma_filter_exact(m: RegistryMap, deny: Set<Seq<char>>)
    ensures
        forall|k: Seq<char>| deny.contains(k) ==> !(#[trigger] m.remove_keys(deny).contains_key(k)),
        forall|k: Seq<char>|
            m.contains_key(k) && !deny.contains(k) ==> (#[trigger] m.remove_keys(deny).contains_key(k))
                && m.remove_keys(deny)[k] == m[k],
        forall|k: Seq<char>| #[trigger] m.remove_keys(deny).contains_key(k) ==> m.contains_key(k),
{
}

/// Filtering a second time by the same deny set changes nothing.
pub proof fn lemma_filter_idempotent(m: RegistryMap, deny: Set<Seq<char>>)
    ensures
        m.remove_keys(deny).remove_keys(deny) == m.remove_keys(deny),
{
    assert(m.remove_keys(deny).remove_keys(deny) =~= m.remove_keys(deny));
}

} // verus!
