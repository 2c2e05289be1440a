//! Weighted keyword sets and the algebra that combines them.
//!
//! A weight is a non-negative fixed-point number: `WEIGHT_UNIT` stands for a
//! relevance of one. Weights of the same keyword add up, saturating at
//! `u64::MAX`, so that combining sets is exactly commutative and associative.
use vstd::prelude::*;

verus! {

/// The fixed-point value of a relevance weight of one.
pub const WEIGHT_UNIT: u64 = 1_000_000;

/// Addition of two weights, saturating at the largest weight.
pub open spec fn sat_add(a: u64, b: u64) -> u64 {
    if a + b > u64::MAX {
        u64::MAX
    } else {
        (a + b) as u64
    }
}

/// The combination of two keyword maps: the keys of both, with the weights
/// of a key present on both sides summed.
pub open spec fn merged(a: Map<Seq<char>, u64>, b: Map<Seq<char>, u64>) -> Map<Seq<char>, u64> {
    Map::new(
        |k: Seq<char>| a.contains_key(k) || b.contains_key(k),
        |k: Seq<char>|
            if a.contains_key(k) && b.contains_key(k) {
                sat_add(a[k], b[k])
            } else if a.contains_key(k) {
                a[k]
            } else {
                b[k]
            },
    )
}

/// `m` with `w` added to the weight of `k` (or `k` inserted with weight `w`).
pub open spec fn add_weight(m: Map<Seq<char>, u64>, k: Seq<char>, w: u64) -> Map<Seq<char>, u64> {
    m.insert(
        k,
        if m.contains_key(k) {
            sat_add(m[k], w)
        } else {
            w
        },
    )
}

/// `m` with each pair of `s` added in turn.
pub open spec fn add_all(m: Map<Seq<char>, u64>, s: Seq<(Seq<char>, u64)>) -> Map<Seq<char>, u64>
    decreases s.len(),
{
    if s.len() == 0 {
        m
    } else {
        add_weight(add_all(m, s.drop_last()), s.last().0, s.last().1)
    }
}

/// The map that a sequence of entries with distinct keys stands for.
pub open spec fn map_of(s: Seq<(String, u64)>) -> Map<Seq<char>, u64>
    decreases s.len(),
{
    if s.len() == 0 {
        Map::empty()
    } else {
        map_of(s.drop_last()).insert(s.last().0@, s.last().1)
    }
}

pub open spec fn keys_unique(s: Seq<(String, u64)>) -> bool {
    forall|i: int, j: int| 0 <= i < j < s.len() ==> s[i].0@ != s[j].0@
}

/// The pairs of a sequence of entries, as plain values.
pub open spec fn pairs_of(s: Seq<(String, u64)>) -> Seq<(Seq<char>, u64)> {
    s.map_values(|e: (String, u64)| (e.0@, e.1))
}

pub proof fn lemma_map_of_index(s: Seq<(String, u64)>)
    requires
        keys_unique(s),
    ensures
        forall|i: int|
            0 <= i < s.len() ==> #[trigger] map_of(s).contains_key(s[i].0@) && map_of(s)[s[i].0@]
                == s[i].1,
        forall|k: Seq<char>|
            #[trigger] map_of(s).contains_key(k) ==> exists|i: int| 0 <= i < s.len() && s[i].0@ == k,
        map_of(s).dom().finite(),
        map_of(s).dom().len() == s.len(),
    decreases s.len(),
{
    if s.len() > 0 {
        let p = s.drop_last();
        assert(keys_unique(p));
        lemma_map_of_index(p);
        assert forall|i: int| 0 <= i < s.len() implies #[trigger] map_of(s).contains_key(s[i].0@)
            && map_of(s)[s[i].0@] == s[i].1 by {
            if i < s.len() - 1 {
                assert(p[i] == s[i]);
            }
        }
        assert forall|k: Seq<char>| #[trigger] map_of(s).contains_key(k) implies exists|i: int|
            0 <= i < s.len() && s[i].0@ == k by {
            if k != s.last().0@ {
                assert(map_of(p).contains_key(k));
                let i = choose|i: int| 0 <= i < p.len() && p[i].0@ == k;
                assert(s[i].0@ == k);
            } else {
                assert(s[s.len() - 1].0@ == k);
            }
        }
        assert(!map_of(p).contains_key(s.last().0@)) by {
            if map_of(p).contains_key(s.last().0@) {
                let i = choose|i: int| 0 <= i < p.len() && p[i].0@ == s.last().0@;
                assert(s[i].0@ == s[s.len() - 1].0@);
            }
        }
    }
}

proof fn lemma_map_of_update(s: Seq<(String, u64)>, i: int, e: (String, u64))
    requires
        keys_unique(s),
        0 <= i < s.len(),
        e.0@ == s[i].0@,
    ensures
        map_of(s.update(i, e)) == map_of(s).insert(e.0@, e.1),
        keys_unique(s.update(i, e)),
    decreases s.len(),
{
    let t = s.update(i, e);
    assert(t.drop_last() =~= if i == s.len() - 1 {
        s.drop_last()
    } else {
        s.drop_last().update(i, e)
    });
    if i < s.len() - 1 {
        assert(keys_unique(s.drop_last()));
        lemma_map_of_update(s.drop_last(), i, e);
        assert(s.last().0@ != e.0@);
        assert(map_of(t) =~= map_of(s).insert(e.0@, e.1));
    } else {
        assert(map_of(t) =~= map_of(s).insert(e.0@, e.1));
    }
}

proof fn lemma_merged_insert_fresh(a: Map<Seq<char>, u64>, m: Map<Seq<char>, u64>, k: Seq<char>, w: u64)
    requires
        !m.contains_key(k),
    ensures
        merged(a, m.insert(k, w)) == add_weight(merged(a, m), k, w),
{
    assert(merged(a, m.insert(k, w)) =~= add_weight(merged(a, m), k, w));
}

/// Combining keyword sets does not depend on the order of the operands.
pub proof fn lemma_merge_commutative(a: Map<Seq<char>, u64>, b: Map<Seq<char>, u64>)
    ensures
        merged(a, b) == merged(b, a),
{
    assert(merged(a, b) =~= merged(b, a));
}

/// Combining keyword sets does not depend on how the operands are grouped.
pub proof fn lemma_merge_associative(
    a: Map<Seq<char>, u64>,
    b: Map<Seq<char>, u64>,
    c: Map<Seq<char>, u64>,
)
    ensures
        merged(merged(a, b), c) == merged(a, merged(b, c)),
{
    assert(merged(merged(a, b), c) =~= merged(a, merged(b, c)));
}

/// The empty set is an identity of the combination, on either side.
pub proof fn lemma_merge_empty_identity(a: Map<Seq<char>, u64>)
    ensures
        merged(a, Map::empty()) == a,
        merged(Map::empty(), a) == a,
{
    assert(merged(a, Map::empty()) =~= a);
    assert(merged(Map::empty(), a) =~= a);
}

/// A keyword on both sides gets the sum of its two weights; one on a single
/// side keeps its weight.
pub proof fn lemma_merge_sums_shared(a: Map<Seq<char>, u64>, b: Map<Seq<char>, u64>, k: Seq<char>)
    ensures
        a.contains_key(k) && b.contains_key(k) ==> merged(a, b)[k] == sat_add(a[k], b[k]),
        a.contains_key(k) && !b.contains_key(k) ==> merged(a, b)[k] == a[k],
        merged(a, b).contains_key(k) <==> (a.contains_key(k) || b.contains_key(k)),
{
}

/// A set of keywords, each with a weight; no two entries share a text.
pub struct KeywordSet {
    entries: Vec<(String, u64)>,
}

impl View for KeywordSet {
    type V = Map<Seq<char>, u64>;

    closed spec fn view(&self) -> Map<Seq<char>, u64> {
        map_of(self.entries@)
    }
}

impl KeywordSet {
    pub closed spec fn wf(&self) -> bool {
        keys_unique(self.entries@)
    }

    /// The entries in the order in which the set holds them.
    pub closed spec fn entry_seq(&self) -> Seq<(Seq<char>, u64)> {
        pairs_of(self.entries@)
    }

    pub proof fn lemma_entries(&self)
        requires
            self.wf(),
        ensures
            self@ == map_of_pairs(self.entry_seq()),
            pairs_unique(self.entry_seq()),
    {
        lemma_pairs_of(self.entries@);
    }

    pub fn new() -> (r: KeywordSet)
        ensures
            r.wf(),
            r@ == Map::<Seq<char>, u64>::empty(),
            r.entry_seq().len() == 0,
    {
        KeywordSet { entries: Vec::new() }
    }

    fn find(&self, key: &String) -> (r: Option<usize>)
        requires
            self.wf(),
        ensures
            match r {
                Some(i) => i < self.entries@.len() && self.entries@[i as int].0@ == key@,
                None => !self@.contains_key(key@),
            },
    {
        proof {
            lemma_map_of_index(self.entries@);
        }
        let mut i: usize = 0;
        while i < self.entries.len()
            invariant
                i <= self.entries@.len(),
                forall|j: int| 0 <= j < i ==> self.entries@[j].0@ != key@,
            decreases self.entries@.len() - i,
        {
            if self.entries[i].0 == *key {
                return Some(i);
            }
            i = i + 1;
        }
        None
    }

    /// Adds `weight` to the weight of `key`, inserting it if it is absent.
    pub fn add(&mut self, key: String, weight: u64)
        requires
            old(self).wf(),
        ensures
            final(self).wf(),
            final(self)@ == add_weight(old(self)@, key@, weight),
    {
        match self.find(&key) {
            Some(i) => {
                proof {
                    lemma_map_of_index(self.entries@);
                }
                let old_w = self.entries[i].1;
                let w = old_w.saturating_add(weight);
                let ghost k = key@;
                proof {
                    lemma_map_of_update(self.entries@, i as int, (key, w));
                }
                self.entries.set(i, (key, w));
                assert(self@ == add_weight(old(self)@, k, weight));
            },
            None => {
                let ghost s = self.entries@;
                proof {
                    lemma_map_of_index(s);
                }
                self.entries.push((key, weight));
                assert(self.entries@.drop_last() == s);
                assert forall|i: int, j: int| 0 <= i < j < self.entries@.len() implies self.entries@[i].0@
                    != self.entries@[j].0@ by {
                    if j == s.len() {
                        assert(map_of(s).contains_key(s[i].0@));
                    }
                }
            },
        }
    }

    /// The weight of `key`, if the set holds it.
    pub fn weight(&self, key: &String) -> (r: Option<u64>)
        requires
            self.wf(),
        ensures
            r == (if self@.contains_key(key@) {
                Some(self@[key@])
            } else {
                None::<u64>
            }),
    {
        proof {
            lemma_map_of_index(self.entries@);
        }
        match self.find(key) {
            Some(i) => Some(self.entries[i].1),
            None => None,
        }
    }

    /// The number of keywords in the set.
    pub fn len(&self) -> (r: usize)
        requires
            self.wf(),
        ensures
            r == self@.dom().len(),
    {
        proof {
            lemma_map_of_index(self.entries@);
        }
        self.entries.len()
    }

    /// Combines two sets: every keyword of either, with the weights of a
    /// keyword held by both summed.
    pub fn merge(self, other: KeywordSet) -> (r: KeywordSet)
        requires
            self.wf(),
            other.wf(),
        ensures
            r.wf(),
            r@ == merged(self@, other@),
    {
        let ghost a = self@;
        let ghost s = other.entries@;
        let mut acc = self;
        let mut i: usize = 0;
        proof {
            lemma_merge_empty_identity(a);
            assert(s.subrange(0, 0) =~= Seq::<(String, u64)>::empty());
        }
        while i < other.entries.len()
            invariant
                acc.wf(),
                other.entries@ == s,
                keys_unique(s),
                i <= s.len(),
                acc@ == merged(a, map_of(s.subrange(0, i as int))),
            decreases s.len() - i,
        {
            let key = other.entries[i].0.clone();
            let w = other.entries[i].1;
            proof {
                let p = s.subrange(0, i as int);
                let q = s.subrange(0, i + 1);
                assert(q.drop_last() =~= p);
                assert(keys_unique(p));
                lemma_map_of_index(p);
                assert(!map_of(p).contains_key(s[i as int].0@)) by {
                    if map_of(p).contains_key(s[i as int].0@) {
                        let j = choose|j: int| 0 <= j < p.len() && p[j].0@ == s[i as int].0@;
                        assert(s[j].0@ == s[i as int].0@);
                    }
                }
                lemma_merged_insert_fresh(a, map_of(p), s[i as int].0@, w);
            }
            acc.add(key, w);
            i = i + 1;
        }
        assert(s.subrange(0, s.len() as int) =~= s);
        acc
    }

    /// Builds a set from entries, or `None` where two entries share a text.
    pub fn from_entries(entries: Vec<(String, u64)>) -> (r: Option<KeywordSet>)
        ensures
            r is Some <==> pairs_unique(pairs_of(entries@)),
            r matches Some(k) ==> k.wf() && k.entry_seq() == pairs_of(entries@),
    {
        let n = entries.len();
        let mut i: usize = 0;
        while i < n
            invariant
                n == entries@.len(),
                i <= n,
                forall|a: int, b: int| 0 <= a < b < n && a < i ==> entries@[a].0@ != entries@[b].0@,
            decreases n - i,
        {
            let mut j: usize = i + 1;
            while j < n
                invariant
                    n == entries@.len(),
                    i < n,
                    i < j <= n,
                    forall|a: int, b: int| 0 <= a < b < n && a < i ==> entries@[a].0@ != entries@[b].0@,
                    forall|b: int| i < b < j ==> entries@[i as int].0@ != entries@[b].0@,
                decreases n - j,
            {
                if entries[i].0 == entries[j].0 {
                    assert(pairs_of(entries@)[i as int].0 == pairs_of(entries@)[j as int].0);
                    return None;
                }
                j = j + 1;
            }
            i = i + 1;
        }
        proof {
            lemma_pairs_of(entries@);
        }
        Some(KeywordSet { entries })
    }

    /// The entries, as owned pairs, in the order in which the set holds them.
    pub fn to_entries(&self) -> (r: Vec<(String, u64)>)
        ensures
            pairs_of(r@) == self.entry_seq(),
    {
        let mut r: Vec<(String, u64)> = Vec::new();
        let mut i: usize = 0;
        while i < self.entries.len()
            invariant
                i <= self.entries@.len(),
                pairs_of(r@) =~= pairs_of(self.entries@.subrange(0, i as int)),
            decreases self.entries@.len() - i,
        {
            let k = self.entries[i].0.clone();
            let ghost before = r@;
            r.push((k, self.entries[i].1));
            proof {
                assert(r@ =~= before.push((k, self.entries@[i as int].1)));
                assert(self.entries@.subrange(0, i + 1) =~= self.entries@.subrange(0, i as int).push(
                    self.entries@[i as int],
                ));
                assert(pairs_of(r@) =~= pairs_of(before).push((k@, self.entries@[i as int].1)));
                assert(pairs_of(self.entries@.subrange(0, i + 1)) =~= pairs_of(
                    self.entries@.subrange(0, i as int),
                ).push((self.entries@[i as int].0@, self.entries@[i as int].1)));
            }
            i = i + 1;
        }
        assert(self.entries@.subrange(0, self.entries@.len() as int) =~= self.entries@);
        r
    }
}

/// The map that a sequence of plain pairs with distinct keys stands for.
pub open spec fn map_of_pairs(s: Seq<(Seq<char>, u64)>) -> Map<Seq<char>, u64>
    decreases s.len(),
{
    if s.len() == 0 {
        Map::empty()
    } else {
        map_of_pairs(s.drop_last()).insert(s.last().0, s.last().1)
    }
}

pub open spec fn pairs_unique(s: Seq<(Seq<char>, u64)>) -> bool {
    forall|i: int, j: int| 0 <= i < j < s.len() ==> s[i].0 != s[j].0
}

proof fn lemma_pairs_of(s: Seq<(String, u64)>)
    ensures
        map_of(s) == map_of_pairs(pairs_of(s)),
        keys_unique(s) <==> pairs_unique(pairs_of(s)),
    decreases s.len(),
{
    if s.len() > 0 {
        assert(pairs_of(s.drop_last()) =~= pairs_of(s).drop_last());
        lemma_pairs_of(s.drop_last());
    }
    assert(forall|i: int| 0 <= i < s.len() ==> #[trigger] pairs_of(s)[i].0 == s[i].0@);
    if keys_unique(s) {
        assert forall|i: int, j: int| 0 <= i < j < s.len() implies pairs_of(s)[i].0 != pairs_of(
            s,
        )[j].0 by {
            assert(s[i].0@ != s[j].0@);
        }
    }
    if pairs_unique(pairs_of(s)) {
        assert forall|i: int, j: int| 0 <= i < j < s.len() implies s[i].0@ != s[j].0@ by {
            assert(pairs_of(s)[i].0 != pairs_of(s)[j].0);
        }
    }
}

} // verus!
