//! Small verified association containers backing the unit registry, the
//! stats aggregator and the active-target display: maps keyed by unit id,
//! a set of ids, a name-to-id index and a refcounted target list. Linear
//! scans are deliberate: unit counts are small and short-lived.

use vstd::prelude::*;

verus! {

// --- spec helpers over sequences of id-keyed pairs ---

/// Some pair in `s` carries the key `k`.
pub open spec fn has_key<T>(s: Seq<(u64, T)>, k: u64) -> bool {
    exists|i: int| 0 <= i < s.len() && s[i].0 == k
}

/// An index of a pair in `s` carrying the key `k` (unique when keys are
/// distinct).
pub open spec fn key_at<T>(s: Seq<(u64, T)>, k: u64) -> int {
    choose|i: int| 0 <= i < s.len() && s[i].0 == k
}

/// No two pairs of `s` share a key.
pub open spec fn distinct_keys<T>(s: Seq<(u64, T)>) -> bool {
    forall|i: int, j: int| 0 <= i < j < s.len() ==> s[i].0 != s[j].0
}

/// The map described by a sequence of pairs with distinct keys.
pub open spec fn pairs_to_map<T>(s: Seq<(u64, T)>) -> Map<u64, T> {
    Map::new(|k: u64| has_key(s, k), |k: u64| s[key_at(s, k)].1)
}

/// A map from unit ids to values, stored as a vector of pairs with
/// distinct keys.
pub struct IdMap<T> {
    entries: Vec<(u64, T)>,
}

impl<T> View for IdMap<T> {
    type V = Map<u64, T>;

    open spec fn view(&self) -> Map<u64, T> {
        pairs_to_map(self.entry_seq())
    }
}

impl<T> IdMap<T> {
    /// The underlying pairs, in insertion order.
    pub closed spec fn entry_seq(self) -> Seq<(u64, T)> {
        self.entries@
    }

    /// The keys, in insertion order.
    pub open spec fn key_seq(self) -> Seq<u64> {
        Seq::new(self.entry_seq().len(), |i: int| self.entry_seq()[i].0)
    }

    pub open spec fn wf(self) -> bool {
        distinct_keys(self.entry_seq())
    }

    pub fn new() -> (r: Self)
        ensures
            r.wf(),
            r@ == Map::<u64, T>::empty(),
            r.entry_seq().len() == 0,
    {
        let r = IdMap { entries: Vec::new() };
        proof {
            assert(r@ =~= Map::<u64, T>::empty());
        }
        r
    }

    fn index_of(&self, k: u64) -> (r: Option<usize>)
        ensures
            match r {
                Some(i) => 0 <= i < self.entry_seq().len() && self.entry_seq()[i as int].0 == k,
                None => !has_key(self.entry_seq(), k),
            },
    {
        let n = self.entries.len();
        let mut i: usize = 0;
        while i < n
            invariant
                n == self.entry_seq().len(),
                i <= n,
                forall|j: int| 0 <= j < i ==> self.entry_seq()[j].0 != k,
            decreases n - i,
        {
            if self.entries[i].0 == k {
                return Some(i);
            }
            i += 1;
        }
        None
    }

    pub fn contains_key(&self, k: u64) -> (r: bool)
        ensures
            r == self@.contains_key(k),
    {
        self.index_of(k).is_some()
    }

    pub fn get(&self, k: u64) -> (r: Option<&T>)
        requires
            self.wf(),
        ensures
            match r {
                Some(v) => self@.contains_key(k) && *v == self@[k],
                None => !self@.contains_key(k),
            },
    {
        match self.index_of(k) {
            Some(i) => {
                proof {
                    let s = self.entry_seq();
                    let j = key_at(s, k);
                    assert(0 <= j < s.len() && s[j].0 == k);
                    assert(j == i);
                }
                Some(&self.entries[i].1)
            },
            None => None,
        }
    }

    pub fn insert(&mut self, k: u64, v: T)
        requires
            old(self).wf(),
        ensures
            final(self).wf(),
            final(self)@ == old(self)@.insert(k, v),
            final(self).key_seq() == if old(self)@.contains_key(k) {
                old(self).key_seq()
            } else {
                old(self).key_seq().push(k)
            },
    {
        let idx = self.index_of(k);
        match idx {
            Some(i) => {
                self.entries[i] = (k, v);
                proof {
                    let s1 = old(self).entry_seq();
                    let s2 = self.entry_seq();
                    assert(s2 == s1.update(i as int, (k, v)));
                    assert forall|j: int| 0 <= j < s2.len() implies s2[j].0 == s1[j].0 by {}
                    assert(distinct_keys(s2));
                    assert forall|k2: u64| has_key(s2, k2) == has_key(s1, k2) by {
                        if has_key(s2, k2) {
                            let j = choose|j: int| 0 <= j < s2.len() && s2[j].0 == k2;
                            assert(s1[j].0 == k2);
                        }
                        if has_key(s1, k2) {
                            let j = choose|j: int| 0 <= j < s1.len() && s1[j].0 == k2;
                            assert(s2[j].0 == k2);
                        }
                    }
                    assert forall|k2: u64| has_key(s2, k2) implies pairs_to_map(s2)[k2]
                        == pairs_to_map(s1).insert(k, v)[k2] by {
                        let j = key_at(s2, k2);
                        assert(0 <= j < s2.len() && s2[j].0 == k2);
                        if k2 == k {
                            assert(j == i as int);
                        } else {
                            assert(j != i as int);
                            let j1 = key_at(s1, k2);
                            assert(0 <= j1 < s1.len() && s1[j1].0 == k2);
                            assert(j1 == j);
                        }
                    }
                    assert(self@ =~= old(self)@.insert(k, v));
                    assert(self.key_seq() =~= old(self).key_seq());
                }
            },
            None => {
                self.entries.push((k, v));
                proof {
                    let s1 = old(self).entry_seq();
                    let s2 = self.entry_seq();
                    assert(s2 == s1.push((k, v)));
                    assert forall|j: int| 0 <= j < s1.len() implies s2[j] == s1[j] by {}
                    assert(s2[s1.len() as int] == (k, v));
                    assert(distinct_keys(s2));
                    assert forall|k2: u64| has_key(s2, k2) == (has_key(s1, k2) || k2 == k) by {
                        if has_key(s2, k2) {
                            let j = choose|j: int| 0 <= j < s2.len() && s2[j].0 == k2;
                            if j < s1.len() {
                                assert(s1[j].0 == k2);
                            }
                        }
                        if has_key(s1, k2) {
                            let j = choose|j: int| 0 <= j < s1.len() && s1[j].0 == k2;
                            assert(s2[j].0 == k2);
                        }
                        if k2 == k {
                            assert(s2[s1.len() as int].0 == k2);
                        }
                    }
                    assert forall|k2: u64| has_key(s2, k2) implies pairs_to_map(s2)[k2]
                        == pairs_to_map(s1).insert(k, v)[k2] by {
                        let j = key_at(s2, k2);
                        assert(0 <= j < s2.len() && s2[j].0 == k2);
                        if k2 == k {
                            assert(j == s1.len());
                        } else {
                            assert(j < s1.len());
                            let j1 = key_at(s1, k2);
                            assert(0 <= j1 < s1.len() && s1[j1].0 == k2);
                            assert(j1 == j);
                        }
                    }
                    assert(self@ =~= old(self)@.insert(k, v));
                    assert(self.key_seq() =~= old(self).key_seq().push(k));
                }
            },
        }
    }

    pub fn remove(&mut self, k: u64) -> (r: Option<T>)
        requires
            old(self).wf(),
        ensures
            final(self).wf(),
            final(self)@ == old(self)@.remove(k),
            match r {
                Some(v) => old(self)@.contains_key(k) && v == old(self)@[k],
                None => !old(self)@.contains_key(k) && final(self)@ == old(self)@,
            },
    {
        let idx = self.index_of(k);
        match idx {
            Some(i) => {
                let pair = self.entries.remove(i);
                proof {
                    let s1 = old(self).entry_seq();
                    let s2 = self.entry_seq();
                    assert(s2 == s1.remove(i as int));
                    assert forall|j: int| 0 <= j < s2.len() implies s2[j] == (if j < i {
                        s1[j]
                    } else {
                        s1[j + 1]
                    }) by {}
                    assert(distinct_keys(s2));
                    assert forall|k2: u64| has_key(s2, k2) == (has_key(s1, k2) && k2 != k) by {
                        if has_key(s2, k2) {
                            let j = choose|j: int| 0 <= j < s2.len() && s2[j].0 == k2;
                            if j < i {
                                assert(s1[j].0 == k2);
                            } else {
                                assert(s1[j + 1].0 == k2);
                            }
                        }
                        if has_key(s1, k2) && k2 != k {
                            let j = choose|j: int| 0 <= j < s1.len() && s1[j].0 == k2;
                            assert(j != i);
                            if j < i {
                                assert(s2[j].0 == k2);
                            } else {
                                assert(s2[j - 1].0 == k2);
                            }
                        }
                    }
                    assert forall|k2: u64| has_key(s2, k2) implies pairs_to_map(s2)[k2]
                        == pairs_to_map(s1).remove(k)[k2] by {
                        let j = key_at(s2, k2);
                        assert(0 <= j < s2.len() && s2[j].0 == k2);
                        let j1 = key_at(s1, k2);
                        assert(0 <= j1 < s1.len() && s1[j1].0 == k2);
                        if j < i {
                            assert(j1 == j);
                        } else {
                            assert(s2[j] == s1[j + 1]);
                            assert(j1 == j + 1);
                        }
                    }
                    assert(self@ =~= old(self)@.remove(k));
                    let j1 = key_at(s1, k);
                    assert(0 <= j1 < s1.len() && s1[j1].0 == k);
                    assert(j1 == i);
                }
                Some(pair.1)
            },
            None => {
                proof {
                    assert(self@ =~= old(self)@.remove(k));
                }
                None
            },
        }
    }


    /// Under well-formedness the keys are unique and are exactly the
    /// domain of the view.
    pub proof fn lemma_key_seq(self)
        requires
            self.wf(),
        ensures
            self.key_seq().no_duplicates(),
            self.key_seq().to_set() == self@.dom(),
    {
        let ks = self.key_seq();
        let s = self.entry_seq();
        assert(ks.no_duplicates());
        assert forall|k: u64| ks.to_set().contains(k) == self@.dom().contains(k) by {
            if ks.to_set().contains(k) {
                let i = choose|i: int| 0 <= i < ks.len() && ks[i] == k;
                assert(s[i].0 == k);
                assert(has_key(s, k));
            }
            if self@.dom().contains(k) {
                assert(has_key(s, k));
                let i = choose|i: int| 0 <= i < s.len() && s[i].0 == k;
                assert(ks[i] == k);
                assert(ks.contains(k));
            }
        }
        assert(ks.to_set() =~= self@.dom());
    }

    /// All keys, in insertion order.
    pub fn keys(&self) -> (r: Vec<u64>)
        ensures
            r@ == self.key_seq(),
    {
        let n = self.entries.len();
        let mut r: Vec<u64> = Vec::new();
        let mut i: usize = 0;
        while i < n
            invariant
                n == self.entry_seq().len(),
                i <= n,
                r@.len() == i,
                forall|j: int| 0 <= j < i ==> r@[j] == self.entry_seq()[j].0,
            decreases n - i,
        {
            r.push(self.entries[i].0);
            i += 1;
        }
        proof {
            assert(r@ =~= self.key_seq());
        }
        r
    }
}

/// A set of unit ids, stored as a vector without duplicates.
pub struct IdSet {
    items: Vec<u64>,
}

impl View for IdSet {
    type V = Set<u64>;

    open spec fn view(&self) -> Set<u64> {
        self.item_seq().to_set()
    }
}

impl IdSet {
    pub closed spec fn item_seq(self) -> Seq<u64> {
        self.items@
    }

    pub open spec fn wf(self) -> bool {
        self.item_seq().no_duplicates()
    }

    pub fn new() -> (r: Self)
        ensures
            r.wf(),
            r@ == Set::<u64>::empty(),
    {
        let r = IdSet { items: Vec::new() };
        proof {
            assert(r@ =~= Set::<u64>::empty());
        }
        r
    }

    fn index_of(&self, id: u64) -> (r: Option<usize>)
        ensures
            match r {
                Some(i) => 0 <= i < self.item_seq().len() && self.item_seq()[i as int] == id,
                None => !self.item_seq().contains(id),
            },
    {
        let n = self.items.len();
        let mut i: usize = 0;
        while i < n
            invariant
                n == self.item_seq().len(),
                i <= n,
                forall|j: int| 0 <= j < i ==> self.item_seq()[j] != id,
            decreases n - i,
        {
            if self.items[i] == id {
                return Some(i);
            }
            i += 1;
        }
        None
    }

    pub fn contains(&self, id: u64) -> (r: bool)
        ensures
            r == self@.contains(id),
    {
        self.index_of(id).is_some()
    }

    pub fn insert(&mut self, id: u64)
        requires
            old(self).wf(),
        ensures
            final(self).wf(),
            final(self)@ == old(self)@.insert(id),
    {
        let idx = self.index_of(id);
        match idx {
            Some(_) => {
                proof {
                    assert(self@ =~= old(self)@.insert(id));
                }
            },
            None => {
                self.items.push(id);
                proof {
                    let s1 = old(self).item_seq();
                    let s2 = self.item_seq();
                    assert(s2 == s1.push(id));
                    assert forall|x: u64| s2.contains(x) == (s1.contains(x) || x == id) by {
                        if s2.contains(x) {
                            let j = choose|j: int| 0 <= j < s2.len() && s2[j] == x;
                            if j < s1.len() {
                                assert(s1[j] == x);
                            }
                        }
                        if s1.contains(x) {
                            let j = choose|j: int| 0 <= j < s1.len() && s1[j] == x;
                            assert(s2[j] == x);
                        }
                        if x == id {
                            assert(s2[s1.len() as int] == x);
                        }
                    }
                    assert(self@ =~= old(self)@.insert(id));
                }
            },
        }
    }

    pub fn remove(&mut self, id: u64)
        requires
            old(self).wf(),
        ensures
            final(self).wf(),
            final(self)@ == old(self)@.remove(id),
    {
        let idx = self.index_of(id);
        match idx {
            Some(i) => {
                self.items.remove(i);
                proof {
                    let s1 = old(self).item_seq();
                    let s2 = self.item_seq();
                    assert(s2 == s1.remove(i as int));
                    assert forall|j: int| 0 <= j < s2.len() implies s2[j] == (if j < i {
                        s1[j]
                    } else {
                        s1[j + 1]
                    }) by {}
                    assert(s2.no_duplicates());
                    assert forall|x: u64| s2.contains(x) == (s1.contains(x) && x != id) by {
                        if s2.contains(x) {
                            let j = choose|j: int| 0 <= j < s2.len() && s2[j] == x;
                            if j < i {
                                assert(s1[j] == x);
                                assert(x != id);
                            } else {
                                assert(s1[j + 1] == x);
                                assert(x != id);
                            }
                        }
                        if s1.contains(x) && x != id {
                            let j = choose|j: int| 0 <= j < s1.len() && s1[j] == x;
                            assert(j != i);
                            if j < i {
                                assert(s2[j] == x);
                            } else {
                                assert(s2[j - 1] == x);
                            }
                        }
                    }
                    assert(self@ =~= old(self)@.remove(id));
                }
            },
            None => {
                proof {
                    assert(self@ =~= old(self)@.remove(id));
                }
            },
        }
    }
}

// --- spec helpers over sequences of name-keyed pairs ---

/// Some pair in `s` carries the name `n`.
pub open spec fn has_name<T>(s: Seq<(Seq<char>, T)>, n: Seq<char>) -> bool {
    exists|i: int| 0 <= i < s.len() && s[i].0 == n
}

/// An index of a pair in `s` carrying the name `n` (unique when names are
/// distinct).
pub open spec fn name_at<T>(s: Seq<(Seq<char>, T)>, n: Seq<char>) -> int {
    choose|i: int| 0 <= i < s.len() && s[i].0 == n
}

/// No two pairs of `s` share a name.
pub open spec fn distinct_names<T>(s: Seq<(Seq<char>, T)>) -> bool {
    forall|i: int, j: int| 0 <= i < j < s.len() ==> s[i].0 != s[j].0
}

/// The map described by a sequence of name-keyed pairs with distinct
/// names.
pub open spec fn names_to_map<T>(s: Seq<(Seq<char>, T)>) -> Map<Seq<char>, T> {
    Map::new(|n: Seq<char>| has_name(s, n), |n: Seq<char>| s[name_at(s, n)].1)
}

/// The name-and-count views of a vector of (name, count) pairs.
pub open spec fn snap_pairs(v: Seq<(String, u64)>) -> Seq<(Seq<char>, u64)> {
    Seq::new(v.len(), |i: int| (v[i].0@, v[i].1))
}

/// The first name in `s` that maps to `id`, scanning in insertion order.
pub open spec fn first_name_spec(s: Seq<(Seq<char>, u64)>, id: u64) -> Option<Seq<char>>
    decreases s.len(),
{
    if s.len() == 0 {
        None
    } else if s[0].1 == id {
        Some(s[0].0)
    } else {
        first_name_spec(s.drop_first(), id)
    }
}

/// The first match of `id` in a name list is at the first index whose
/// pair maps to it.
pub proof fn lemma_first_name_at(s: Seq<(Seq<char>, u64)>, id: u64, i: int)
    requires
        0 <= i < s.len(),
        s[i].1 == id,
        forall|j: int| 0 <= j < i ==> s[j].1 != id,
    ensures
        first_name_spec(s, id) == Some(s[i].0),
    decreases i,
{
    if i == 0 {
    } else {
        assert(s[0].1 != id);
        let t = s.drop_first();
        assert(t[i - 1] == s[i]);
        assert(forall|j: int| 0 <= j < i - 1 ==> t[j] == s[j + 1]);
        lemma_first_name_at(t, id, i - 1);
    }
}

/// A name list with no pair mapping to `id` yields no first match.
pub proof fn lemma_first_name_none(s: Seq<(Seq<char>, u64)>, id: u64)
    requires
        forall|j: int| 0 <= j < s.len() ==> s[j].1 != id,
    ensures
        first_name_spec(s, id) is None,
    decreases s.len(),
{
    if s.len() == 0 {
    } else {
        let t = s.drop_first();
        assert(forall|j: int| 0 <= j < t.len() ==> t[j] == s[j + 1]);
        lemma_first_name_none(t, id);
    }
}


// --- lexicographic order on names ---

/// Strict lexicographic order on character sequences, by code point.
pub open spec fn lex_lt(a: Seq<char>, b: Seq<char>) -> bool
    decreases a.len(),
{
    if b.len() == 0 {
        false
    } else if a.len() == 0 {
        true
    } else if a[0] != b[0] {
        (a[0] as u32) < (b[0] as u32)
    } else {
        lex_lt(a.drop_first(), b.drop_first())
    }
}

/// Nothing is lexicographically below itself.
pub proof fn lemma_lex_irrefl(a: Seq<char>)
    ensures
        !lex_lt(a, a),
    decreases a.len(),
{
    if a.len() > 0 {
        lemma_lex_irrefl(a.drop_first());
    }
}

/// Two names are equal or one is below the other.
pub proof fn lemma_lex_total(a: Seq<char>, b: Seq<char>)
    ensures
        a == b || lex_lt(a, b) || lex_lt(b, a),
    decreases a.len(),
{
    if b.len() == 0 {
        if a.len() == 0 {
            assert(a =~= b);
        }
    } else if a.len() == 0 {
    } else if a[0] != b[0] {
        vstd::utf8::char_u32_cast(a[0], a[0] as u32);
        vstd::utf8::char_u32_cast(b[0], b[0] as u32);
        assert((a[0] as u32) != (b[0] as u32));
    } else {
        lemma_lex_total(a.drop_first(), b.drop_first());
        if a.drop_first() == b.drop_first() {
            assert(a.drop_first().len() == a.len() - 1);
            assert(b.drop_first().len() == b.len() - 1);
            assert(a.len() == b.len());
            assert forall|i: int| 0 <= i < a.len() implies a[i] == b[i] by {
                if i > 0 {
                    assert(a.drop_first()[i - 1] == a[i]);
                    assert(b.drop_first()[i - 1] == b[i]);
                }
            }
            assert(a =~= b);
        }
    }
}

/// The order is transitive.
pub proof fn lemma_lex_trans(a: Seq<char>, b: Seq<char>, c: Seq<char>)
    requires
        lex_lt(a, b),
        lex_lt(b, c),
    ensures
        lex_lt(a, c),
    decreases b.len(),
{
    if c.len() == 0 || b.len() == 0 || a.len() == 0 {
    } else {
        if a[0] == b[0] && b[0] == c[0] {
            lemma_lex_trans(a.drop_first(), b.drop_first(), c.drop_first());
        }
    }
}

/// The order is decided at the first differing position: equal
/// prefixes can be skipped.
pub proof fn lemma_lex_lt_skip(a: Seq<char>, b: Seq<char>, i: int)
    requires
        0 <= i <= a.len(),
        i <= b.len(),
        forall|j: int| 0 <= j < i ==> a[j] == b[j],
    ensures
        lex_lt(a, b) == lex_lt(a.skip(i), b.skip(i)),
    decreases i,
{
    if i == 0 {
        assert(a.skip(0) =~= a);
        assert(b.skip(0) =~= b);
    } else {
        assert(a[0] == b[0]);
        let a1 = a.drop_first();
        let b1 = b.drop_first();
        assert(forall|j: int| 0 <= j < i - 1 ==> a1[j] == b1[j]);
        lemma_lex_lt_skip(a1, b1, i - 1);
        assert(a1.skip(i - 1) =~= a.skip(i));
        assert(b1.skip(i - 1) =~= b.skip(i));
    }
}

/// Strict lexicographic comparison of two string slices, by code
/// point.
pub fn str_lt(a: &str, b: &str) -> (r: bool)
    ensures
        r == lex_lt(a@, b@),
{
    let a_len = a.unicode_len();
    let b_len = b.unicode_len();
    let mut i: usize = 0;
    while i < a_len && i < b_len
        invariant
            a_len == a@.len(),
            b_len == b@.len(),
            i <= a_len,
            i <= b_len,
            forall|j: int| 0 <= j < i ==> a@[j] == b@[j],
        decreases a_len - i,
    {
        let ca = a.get_char(i);
        let cb = b.get_char(i);
        if ca != cb {
            proof {
                lemma_lex_lt_skip(a@, b@, i as int);
                assert(a@.skip(i as int)[0] == a@[i as int]);
                assert(b@.skip(i as int)[0] == b@[i as int]);
                assert(lex_lt(a@.skip(i as int), b@.skip(i as int)) == ((ca as u32) < (
                cb as u32)));
            }
            return (ca as u32) < (cb as u32);
        }
        i += 1;
    }
    proof {
        lemma_lex_lt_skip(a@, b@, i as int);
        if a_len < b_len {
            assert(a@.skip(i as int).len() == 0);
            assert(b@.skip(i as int).len() > 0);
        } else {
            assert(b@.skip(i as int).len() == 0);
        }
    }
    a_len < b_len
}

/// The names of a pair list stand in strictly ascending order.
pub open spec fn sorted_names<T>(s: Seq<(Seq<char>, T)>) -> bool {
    forall|i: int, j: int| 0 <= i < j < s.len() ==> lex_lt(s[i].0, s[j].0)
}

/// Where a new name belongs in an ascending pair list: the first
/// position whose name is not below it.
pub open spec fn insert_pos<T>(s: Seq<(Seq<char>, T)>, n: Seq<char>) -> int
    decreases s.len(),
{
    if s.len() == 0 {
        0
    } else if lex_lt(s[0].0, n) {
        1 + insert_pos(s.drop_first(), n)
    } else {
        0
    }
}

/// The insertion position is exactly the first index whose name is
/// not below `n`.
pub proof fn lemma_insert_pos_at<T>(s: Seq<(Seq<char>, T)>, n: Seq<char>, i: int)
    requires
        0 <= i <= s.len(),
        forall|j: int| 0 <= j < i ==> lex_lt(s[j].0, n),
        i == s.len() || !lex_lt(s[i].0, n),
    ensures
        insert_pos(s, n) == i,
    decreases i,
{
    if i == 0 {
    } else {
        assert(lex_lt(s[0].0, n));
        let t = s.drop_first();
        assert(forall|j: int| 0 <= j < i - 1 ==> t[j] == s[j + 1]);
        lemma_insert_pos_at(t, n, i - 1);
    }
}

/// A map from unit names to ids, stored as a vector of pairs with
/// distinct names. Entries are never dropped: a name index outlives the
/// buffers it points at, so late failure messages can still resolve.
pub struct NameMap {
    entries: Vec<(String, u64)>,
}

impl View for NameMap {
    type V = Map<Seq<char>, u64>;

    open spec fn view(&self) -> Map<Seq<char>, u64> {
        names_to_map(self.pairs())
    }
}

impl NameMap {
    pub closed spec fn entry_seq(self) -> Seq<(String, u64)> {
        self.entries@
    }

    /// The pairs of name view and id, in insertion order.
    pub open spec fn pairs(self) -> Seq<(Seq<char>, u64)> {
        Seq::new(self.entry_seq().len(), |i: int| (self.entry_seq()[i].0@, self.entry_seq()[i].1))
    }

    pub open spec fn wf(self) -> bool {
        distinct_names(self.pairs())
    }

    pub fn new() -> (r: Self)
        ensures
            r.wf(),
            r@ == Map::<Seq<char>, u64>::empty(),
            r.pairs().len() == 0,
    {
        let r = NameMap { entries: Vec::new() };
        proof {
            assert(r@ =~= Map::<Seq<char>, u64>::empty());
        }
        r
    }

    fn index_of(&self, name: &str) -> (r: Option<usize>)
        ensures
            match r {
                Some(i) => 0 <= i < self.pairs().len() && self.pairs()[i as int].0 == name@,
                None => !has_name(self.pairs(), name@),
            },
    {
        let n = self.entries.len();
        let mut i: usize = 0;
        while i < n
            invariant
                n == self.pairs().len(),
                n == self.entry_seq().len(),
                i <= n,
                forall|j: int| 0 <= j < i ==> self.pairs()[j].0 != name@,
            decreases n - i,
        {
            if crate::text::str_eq(self.entries[i].0.as_str(), name) {
                return Some(i);
            }
            i += 1;
        }
        None
    }

    pub fn get(&self, name: &str) -> (r: Option<u64>)
        requires
            self.wf(),
        ensures
            match r {
                Some(id) => self@.contains_key(name@) && id == self@[name@],
                None => !self@.contains_key(name@),
            },
    {
        match self.index_of(name) {
            Some(i) => {
                proof {
                    let s = self.pairs();
                    let j = name_at(s, name@);
                    assert(0 <= j < s.len() && s[j].0 == name@);
                    assert(j == i);
                }
                Some(self.entries[i].1)
            },
            None => None,
        }
    }

    pub fn insert(&mut self, name: String, id: u64)
        requires
            old(self).wf(),
        ensures
            final(self).wf(),
            final(self)@ == old(self)@.insert(name@, id),
            final(self).pairs() == if has_name(old(self).pairs(), name@) {
                old(self).pairs().update(name_at(old(self).pairs(), name@), (name@, id))
            } else {
                old(self).pairs().push((name@, id))
            },
    {
        let idx = self.index_of(name.as_str());
        match idx {
            Some(i) => {
                self.entries[i] = (name, id);
                proof {
                    let s1 = old(self).pairs();
                    let s2 = self.pairs();
                    let nv = self.entry_seq()[i as int].0@;
                    assert(s2 =~= s1.update(i as int, (nv, id)));
                    assert(name_at(s1, nv) == i);
                    assert forall|j: int| 0 <= j < s2.len() implies s2[j].0 == s1[j].0 by {}
                    assert(distinct_names(s2));
                    assert forall|n2: Seq<char>| has_name(s2, n2) == has_name(s1, n2) by {
                        if has_name(s2, n2) {
                            let j = choose|j: int| 0 <= j < s2.len() && s2[j].0 == n2;
                            assert(s1[j].0 == n2);
                        }
                        if has_name(s1, n2) {
                            let j = choose|j: int| 0 <= j < s1.len() && s1[j].0 == n2;
                            assert(s2[j].0 == n2);
                        }
                    }
                    assert forall|n2: Seq<char>| has_name(s2, n2) implies names_to_map(s2)[n2]
                        == names_to_map(s1).insert(nv, id)[n2] by {
                        let j = name_at(s2, n2);
                        assert(0 <= j < s2.len() && s2[j].0 == n2);
                        if n2 == nv {
                            assert(j == i as int);
                        } else {
                            assert(j != i as int);
                            let j1 = name_at(s1, n2);
                            assert(0 <= j1 < s1.len() && s1[j1].0 == n2);
                            assert(j1 == j);
                        }
                    }
                    assert(self@ =~= old(self)@.insert(nv, id));
                }
            },
            None => {
                self.entries.push((name, id));
                proof {
                    let s1 = old(self).pairs();
                    let s2 = self.pairs();
                    let nv = self.entry_seq()[s1.len() as int].0@;
                    assert(s2 =~= s1.push((nv, id)));
                    assert(distinct_names(s2));
                    assert forall|n2: Seq<char>| has_name(s2, n2) == (has_name(s1, n2) || n2
                        == nv) by {
                        if has_name(s2, n2) {
                            let j = choose|j: int| 0 <= j < s2.len() && s2[j].0 == n2;
                            if j < s1.len() {
                                assert(s1[j].0 == n2);
                            }
                        }
                        if has_name(s1, n2) {
                            let j = choose|j: int| 0 <= j < s1.len() && s1[j].0 == n2;
                            assert(s2[j].0 == n2);
                        }
                        if n2 == nv {
                            assert(s2[s1.len() as int].0 == n2);
                        }
                    }
                    assert forall|n2: Seq<char>| has_name(s2, n2) implies names_to_map(s2)[n2]
                        == names_to_map(s1).insert(nv, id)[n2] by {
                        let j = name_at(s2, n2);
                        assert(0 <= j < s2.len() && s2[j].0 == n2);
                        if n2 == nv {
                            assert(j == s1.len());
                        } else {
                            assert(j < s1.len());
                            let j1 = name_at(s1, n2);
                            assert(0 <= j1 < s1.len() && s1[j1].0 == n2);
                            assert(j1 == j);
                        }
                    }
                    assert(self@ =~= old(self)@.insert(nv, id));
                }
            },
        }
    }

    /// The first name mapped to `id`, in insertion order.
    pub fn first_name_for(&self, id: u64) -> (r: Option<String>)
        ensures
            match r {
                Some(name) => first_name_spec(self.pairs(), id) == Some(name@),
                None => first_name_spec(self.pairs(), id) is None,
            },
    {
        let n = self.entries.len();
        let mut i: usize = 0;
        while i < n
            invariant
                n == self.pairs().len(),
                n == self.entry_seq().len(),
                i <= n,
                forall|j: int| 0 <= j < i ==> self.pairs()[j].1 != id,
            decreases n - i,
        {
            if self.entries[i].1 == id {
                let name = self.entries[i].0.clone();
                proof {
                    lemma_first_name_at(self.pairs(), id, i as int);
                }
                return Some(name);
            }
            i += 1;
        }
        proof {
            lemma_first_name_none(self.pairs(), id);
        }
        None
    }
}

/// Saturating increment of a reference count.
pub open spec fn sat_inc(c: u64) -> u64 {
    if c == u64::MAX {
        c
    } else {
        (c + 1) as u64
    }
}

/// Adding one reference to `n` in an ascending (name, count) list: an
/// existing entry is bumped in place, a new name enters at its sorted
/// position.
pub open spec fn spec_target_add(s: Seq<(Seq<char>, u64)>, n: Seq<char>) -> Seq<
    (Seq<char>, u64),
> {
    if has_name(s, n) {
        let i = name_at(s, n);
        s.update(i, (n, sat_inc(s[i].1)))
    } else {
        s.insert(insert_pos(s, n), (n, 1))
    }
}

/// Dropping one reference to `n` in a (name, count) list; the entry
/// leaves the list when its count reaches zero, and an unknown name is
/// ignored.
pub open spec fn spec_target_remove(s: Seq<(Seq<char>, u64)>, n: Seq<char>) -> Seq<
    (Seq<char>, u64),
> {
    if has_name(s, n) {
        let i = name_at(s, n);
        if s[i].1 > 1 {
            s.update(i, (n, (s[i].1 - 1) as u64))
        } else {
            s.remove(i)
        }
    } else {
        s
    }
}

/// The insertion position always lands inside the list.
pub proof fn lemma_insert_pos_bounds<T>(s: Seq<(Seq<char>, T)>, n: Seq<char>)
    ensures
        0 <= insert_pos(s, n) <= s.len(),
    decreases s.len(),
{
    if s.len() == 0 {
    } else if lex_lt(s[0].0, n) {
        lemma_insert_pos_bounds(s.drop_first(), n);
    }
}

/// Dropping a reference right after adding one restores the list
/// exactly, as long as the bumped counter did not saturate.
pub proof fn lemma_target_remove_undoes_add(s: Seq<(Seq<char>, u64)>, n: Seq<char>)
    requires
        distinct_names(s),
        sorted_names(s),
        forall|i: int| 0 <= i < s.len() ==> s[i].1 >= 1,
        has_name(s, n) ==> s[name_at(s, n)].1 < u64::MAX,
    ensures
        spec_target_remove(spec_target_add(s, n), n) == s,
{
    if has_name(s, n) {
        let i = name_at(s, n);
        assert(0 <= i < s.len() && s[i].0 == n);
        let t = spec_target_add(s, n);
        assert(t == s.update(i, (n, sat_inc(s[i].1))));
        assert(t[i].0 == n);
        assert(has_name(t, n));
        let j = name_at(t, n);
        assert(0 <= j < t.len() && t[j].0 == n);
        assert forall|k: int| 0 <= k < t.len() implies t[k].0 == s[k].0 by {}
        assert(j == i);
        assert(t[i].1 == s[i].1 + 1);
        assert(spec_target_remove(t, n) == t.update(i, (n, s[i].1)));
        assert(t.update(i, (n, s[i].1)) =~= s);
    } else {
        lemma_insert_pos_bounds(s, n);
        let p = insert_pos(s, n);
        let t = s.insert(p, (n, 1u64));
        assert(spec_target_add(s, n) == t);
        assert forall|k: int| 0 <= k < t.len() implies t[k] == (if k < p {
            s[k]
        } else if k == p {
            (n, 1u64)
        } else {
            s[k - 1]
        }) by {}
        assert(t[p].0 == n);
        assert(has_name(t, n));
        let j = name_at(t, n);
        assert(0 <= j < t.len() && t[j].0 == n);
        if j < p {
            assert(s[j].0 == n);
            assert(has_name(s, n));
        }
        if j > p {
            assert(s[j - 1].0 == n);
            assert(has_name(s, n));
        }
        assert(j == p);
        assert(t[j].1 == 1);
        assert(spec_target_remove(t, n) == t.remove(p));
        assert(t.remove(p) =~= s);
    }
}

/// The multiset of in-flight named units, as (name, reference count)
/// pairs held in ascending name order: the sorted, deduplicated
/// active-target list.
pub struct TargetList {
    entries: Vec<(String, u64)>,
}

impl TargetList {
    pub closed spec fn entry_seq(self) -> Seq<(String, u64)> {
        self.entries@
    }

    /// The pairs of name view and count, in ascending name order.
    pub open spec fn pairs(self) -> Seq<(Seq<char>, u64)> {
        Seq::new(self.entry_seq().len(), |i: int| (self.entry_seq()[i].0@, self.entry_seq()[i].1))
    }

    pub open spec fn wf(self) -> bool {
        &&& distinct_names(self.pairs())
        &&& sorted_names(self.pairs())
        &&& forall|i: int| 0 <= i < self.pairs().len() ==> self.pairs()[i].1 >= 1
    }

    pub fn new() -> (r: Self)
        ensures
            r.wf(),
            r.pairs().len() == 0,
    {
        TargetList { entries: Vec::new() }
    }

    fn index_of(&self, name: &str) -> (r: Option<usize>)
        ensures
            match r {
                Some(i) => 0 <= i < self.pairs().len() && self.pairs()[i as int].0 == name@,
                None => !has_name(self.pairs(), name@),
            },
    {
        let n = self.entries.len();
        let mut i: usize = 0;
        while i < n
            invariant
                n == self.pairs().len(),
                n == self.entry_seq().len(),
                i <= n,
                forall|j: int| 0 <= j < i ==> self.pairs()[j].0 != name@,
            decreases n - i,
        {
            if crate::text::str_eq(self.entries[i].0.as_str(), name) {
                return Some(i);
            }
            i += 1;
        }
        None
    }

    /// The sorted position for a name that is not yet in the list.
    fn sorted_pos(&self, name: &str) -> (p: usize)
        ensures
            p <= self.pairs().len(),
            forall|j: int| 0 <= j < p ==> lex_lt(self.pairs()[j].0, name@),
            p == self.pairs().len() || !lex_lt(self.pairs()[p as int].0, name@),
    {
        let n = self.entries.len();
        let mut p: usize = 0;
        while p < n
            invariant
                n == self.pairs().len(),
                n == self.entry_seq().len(),
                p <= n,
                forall|j: int| 0 <= j < p ==> lex_lt(self.pairs()[j].0, name@),
            decreases n - p,
        {
            if !str_lt(self.entries[p].0.as_str(), name) {
                return p;
            }
            p += 1;
        }
        p
    }

    /// One more reference to `name` (saturating at the counter limit);
    /// a new name enters at its place in the ascending order.
    pub fn add(&mut self, name: String)
        requires
            old(self).wf(),
        ensures
            final(self).wf(),
            final(self).pairs() == spec_target_add(old(self).pairs(), name@),
    {
        let idx = self.index_of(name.as_str());
        match idx {
            Some(i) => {
                let c = self.entries[i].1;
                let c2 = if c == u64::MAX {
                    c
                } else {
                    c + 1
                };
                self.entries[i] = (name, c2);
                proof {
                    let s1 = old(self).pairs();
                    let s2 = self.pairs();
                    let nv = self.entry_seq()[i as int].0@;
                    assert(name_at(s1, nv) == i);
                    assert(s2 =~= spec_target_add(s1, nv));
                    assert forall|j: int| 0 <= j < s2.len() implies s2[j].0 == s1[j].0 by {}
                    assert(distinct_names(s2));
                    assert(sorted_names(s2));
                }
            },
            None => {
                let pos = self.sorted_pos(name.as_str());
                let ghost nv = name@;
                self.entries.insert(pos, (name, 1));
                proof {
                    let s1 = old(self).pairs();
                    let s2 = self.pairs();
                    lemma_insert_pos_at(s1, nv, pos as int);
                    assert forall|j: int| 0 <= j < s2.len() implies s2[j] == (if j < pos {
                        s1[j]
                    } else if j == pos {
                        (nv, 1u64)
                    } else {
                        s1[j - 1]
                    }) by {}
                    assert(s2 =~= s1.insert(pos as int, (nv, 1u64)));
                    assert(s2 =~= spec_target_add(s1, nv));
                    // The new name is strictly between its neighbours:
                    // below everything at and after `pos`, above
                    // everything before it.
                    if (pos as int) < s1.len() {
                        assert(!lex_lt(s1[pos as int].0, nv));
                        assert(s1[pos as int].0 != nv);
                        lemma_lex_total(nv, s1[pos as int].0);
                        assert(lex_lt(nv, s1[pos as int].0));
                    }
                    assert forall|j: int, k: int| 0 <= j < k < s2.len() implies lex_lt(
                        s2[j].0,
                        s2[k].0,
                    ) by {
                        if k < pos {
                        } else if j < pos && k == pos {
                        } else if j < pos && k > pos {
                        } else if j == pos && k > pos {
                            if k - 1 > pos {
                                lemma_lex_trans(nv, s1[pos as int].0, s1[k - 1].0);
                            }
                        } else {
                        }
                    }
                    assert(sorted_names(s2));
                    assert forall|j: int| 0 <= j < s2.len() && j != pos implies s2[j].0 != nv by {}
                    assert forall|j: int, k: int| 0 <= j < k < s2.len() implies s2[j].0 != s2[
                        k
                    ].0 by {
                        lemma_lex_irrefl(s2[j].0);
                        if s2[j].0 == s2[k].0 {
                            assert(lex_lt(s2[j].0, s2[k].0));
                        }
                    }
                    assert(distinct_names(s2));
                }
            },
        }
    }

    /// One reference fewer to `name`; a name with no references leaves
    /// the list, and an unknown name is ignored.
    pub fn remove(&mut self, name: &str)
        requires
            old(self).wf(),
        ensures
            final(self).wf(),
            final(self).pairs() == spec_target_remove(old(self).pairs(), name@),
    {
        let idx = self.index_of(name);
        match idx {
            Some(i) => {
                let c = self.entries[i].1;
                if c > 1 {
                    let nm = self.entries[i].0.clone();
                    self.entries[i] = (nm, c - 1);
                    proof {
                        let s1 = old(self).pairs();
                        let s2 = self.pairs();
                        let nv = self.entry_seq()[i as int].0@;
                        assert(name_at(s1, nv) == i);
                        assert(s2 =~= spec_target_remove(s1, nv));
                        assert forall|j: int| 0 <= j < s2.len() implies s2[j].0 == s1[j].0 by {}
                        assert(distinct_names(s2));
                        assert(sorted_names(s2));
                    }
                } else {
                    self.entries.remove(i);
                    proof {
                        let s1 = old(self).pairs();
                        let s2 = self.pairs();
                        let nv = s1[i as int].0;
                        assert(name_at(s1, nv) == i);
                        assert(s2 =~= s1.remove(i as int));
                        assert(s2 =~= spec_target_remove(s1, nv));
                        assert forall|j: int| 0 <= j < s2.len() implies s2[j] == (if j < i {
                            s1[j]
                        } else {
                            s1[j + 1]
                        }) by {}
                        assert(distinct_names(s2));
                        assert(sorted_names(s2));
                    }
                }
            },
            None => {},
        }
    }

    /// A copy of the current (name, count) pairs, in first-seen order.
    pub fn snapshot(&self) -> (r: Vec<(String, u64)>)
        ensures
            snap_pairs(r@) == self.pairs(),
    {
        let n = self.entries.len();
        let mut r: Vec<(String, u64)> = Vec::new();
        let mut i: usize = 0;
        while i < n
            invariant
                n == self.pairs().len(),
                n == self.entry_seq().len(),
                i <= n,
                r@.len() == i,
                forall|j: int| 0 <= j < i ==> snap_pairs(r@)[j] == self.pairs()[j],
            decreases n - i,
        {
            let name = self.entries[i].0.clone();
            let c = self.entries[i].1;
            r.push((name, c));
            i += 1;
        }
        proof {
            assert(snap_pairs(r@) =~= self.pairs());
        }
        r
    }
}

/// Structural equality of two (name, count) snapshots.
pub fn snapshots_equal(a: &Vec<(String, u64)>, b: &Vec<(String, u64)>) -> (r: bool)
    ensures
        r == (snap_pairs(a@) == snap_pairs(b@)),
{
    if a.len() != b.len() {
        assert(snap_pairs(a@).len() != snap_pairs(b@).len());
        return false;
    }
    let n = a.len();
    let mut i: usize = 0;
    while i < n
        invariant
            n == a@.len(),
            n == b@.len(),
            i <= n,
            forall|j: int| 0 <= j < i ==> snap_pairs(a@)[j] == snap_pairs(b@)[j],
        decreases n - i,
    {
        if !crate::text::str_eq(a[i].0.as_str(), b[i].0.as_str()) || a[i].1 != b[i].1 {
            assert(snap_pairs(a@)[i as int] != snap_pairs(b@)[i as int]);
            return false;
        }
        i += 1;
    }
    proof {
        assert(snap_pairs(a@) =~= snap_pairs(b@));
    }
    true
}

} // verus!
