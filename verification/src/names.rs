//! Maps keyed by name and kept in name order: the order in which the configuration
//! lists servers, clients and pre-shared keys.

use vstd::prelude::*;
use crate::text::{chars_lt, compare_str, lemma_chars_lt_irreflexive, lemma_chars_lt_transitive, str_eq, Order};

verus! {

/// Keys strictly increase along `s` (so no key occurs twice).
pub open spec fn keys_sorted<T>(s: Seq<(String, T)>) -> bool {
    forall|i: int, j: int| 0 <= i < j < s.len() ==> chars_lt(#[trigger] s[i].0@, #[trigger] s[j].0@)
}

/// Some entry of `s` has key `k`.
pub open spec fn has_key<T>(s: Seq<(String, T)>, k: Seq<char>) -> bool {
    exists|i: int| 0 <= i < s.len() && #[trigger] s[i].0@ == k
}

/// The position of key `k` in `s` (meaningful when [`has_key`]).
pub open spec fn key_index<T>(s: Seq<(String, T)>, k: Seq<char>) -> int {
    choose|i: int| 0 <= i < s.len() && #[trigger] s[i].0@ == k
}

/// The value stored under key `k` (meaningful when [`has_key`]).
pub open spec fn value_of<T>(s: Seq<(String, T)>, k: Seq<char>) -> T {
    s[key_index(s, k)].1
}

/// The map that a sequence of entries stands for: each key with its value.
pub open spec fn map_of<T>(s: Seq<(String, T)>) -> Map<Seq<char>, T> {
    Map::new(|k: Seq<char>| has_key(s, k), |k: Seq<char>| value_of(s, k))
}

/// In a sorted sequence a key sits at exactly one position.
pub proof fn lemma_key_index<T>(s: Seq<(String, T)>, i: int)
    requires
        keys_sorted(s),
        0 <= i < s.len(),
    ensures
        has_key(s, s[i].0@),
        key_index(s, s[i].0@) == i,
        value_of(s, s[i].0@) == s[i].1,
{
    let k = s[i].0@;
    assert(has_key(s, k));
    let j = key_index(s, k);
    if j < i {
        assert(chars_lt(s[j].0@, s[i].0@));
        lemma_chars_lt_irreflexive(k);
    } else if j > i {
        assert(chars_lt(s[i].0@, s[j].0@));
        lemma_chars_lt_irreflexive(k);
    }
}

/// Replacing the value of one entry keeps the order and stores the value under its key.
pub proof fn lemma_map_update<T>(s: Seq<(String, T)>, i: int, v: T)
    requires
        keys_sorted(s),
        0 <= i < s.len(),
    ensures
        keys_sorted(s.update(i, (s[i].0, v))),
        map_of(s.update(i, (s[i].0, v))) == map_of(s).insert(s[i].0@, v),
{
    let t = s.update(i, (s[i].0, v));
    assert forall|a: int, b: int| 0 <= a < b < t.len() implies chars_lt(#[trigger] t[a].0@, #[trigger] t[b].0@) by {
        assert(t[a].0 == s[a].0 && t[b].0 == s[b].0);
    }
    assert forall|k: Seq<char>| #[trigger] has_key(t, k) == has_key(s, k) by {
        if has_key(s, k) {
            let j = key_index(s, k);
            assert(t[j].0@ == k);
        }
        if has_key(t, k) {
            let j = key_index(t, k);
            assert(s[j].0@ == k);
        }
    }
    assert forall|k: Seq<char>| has_key(t, k) implies #[trigger] value_of(t, k) == map_of(s).insert(s[i].0@, v)[k] by {
        if k == s[i].0@ {
            lemma_key_index(t, i);
        } else {
            let j = key_index(s, k);
            lemma_key_index(s, j);
            lemma_key_index(t, j);
        }
    }
    assert(map_of(t) =~= map_of(s).insert(s[i].0@, v));
}

/// Removing an entry keeps the order and drops its key.
pub proof fn lemma_map_remove<T>(s: Seq<(String, T)>, i: int)
    requires
        keys_sorted(s),
        0 <= i < s.len(),
    ensures
        keys_sorted(s.remove(i)),
        map_of(s.remove(i)) == map_of(s).remove(s[i].0@),
{
    let t = s.remove(i);
    assert forall|a: int, b: int| 0 <= a < b < t.len() implies chars_lt(#[trigger] t[a].0@, #[trigger] t[b].0@) by {
        let a2 = if a < i { a } else { a + 1 };
        let b2 = if b < i { b } else { b + 1 };
        assert(t[a] == s[a2]);
        assert(t[b] == s[b2]);
    }
    assert forall|k: Seq<char>| #[trigger] has_key(t, k) == (has_key(s, k) && k != s[i].0@) by {
        if has_key(s, k) && k != s[i].0@ {
            let j = key_index(s, k);
            if j < i {
                assert(t[j].0@ == k);
            } else {
                assert(t[j - 1].0@ == k);
            }
        }
        if has_key(t, k) {
            let j = key_index(t, k);
            let j2 = if j < i { j } else { j + 1 };
            assert(s[j2].0@ == k);
            lemma_chars_lt_irreflexive(k);
            if j2 < i {
                assert(chars_lt(s[j2].0@, s[i].0@));
            } else {
                assert(chars_lt(s[i].0@, s[j2].0@));
            }
        }
    }
    assert forall|k: Seq<char>| has_key(t, k) implies #[trigger] value_of(t, k) == map_of(s)[k] by {
        let j = key_index(t, k);
        let j2 = if j < i { j } else { j + 1 };
        assert(t[j] == s[j2]);
        lemma_key_index(t, j);
        lemma_key_index(s, j2);
    }
    assert(map_of(t) =~= map_of(s).remove(s[i].0@));
}

/// Inserting an entry whose key keeps the order adds a new key with its value.
pub proof fn lemma_map_insert<T>(s: Seq<(String, T)>, p: int, k: String, v: T)
    requires
        0 <= p <= s.len(),
        keys_sorted(s.insert(p, (k, v))),
    ensures
        keys_sorted(s),
        !has_key(s, k@),
        map_of(s.insert(p, (k, v))) == map_of(s).insert(k@, v),
{
    let t = s.insert(p, (k, v));
    assert forall|a: int, b: int| 0 <= a < b < s.len() implies chars_lt(#[trigger] s[a].0@, #[trigger] s[b].0@) by {
        let a2 = if a < p { a } else { a + 1 };
        let b2 = if b < p { b } else { b + 1 };
        assert(t[a2] == s[a] && t[b2] == s[b]);
    }
    if has_key(s, k@) {
        let j = key_index(s, k@);
        let j2 = if j < p { j } else { j + 1 };
        assert(t[j2] == s[j]);
        assert(t[p].0@ == k@);
        lemma_chars_lt_irreflexive(k@);
        if j2 < p {
            assert(chars_lt(t[j2].0@, t[p].0@));
        } else {
            assert(chars_lt(t[p].0@, t[j2].0@));
        }
    }
    assert forall|q: Seq<char>| #[trigger] has_key(t, q) == (has_key(s, q) || q == k@) by {
        if has_key(s, q) {
            let j = key_index(s, q);
            let j2 = if j < p { j } else { j + 1 };
            assert(t[j2] == s[j]);
        }
        if q == k@ {
            assert(t[p].0@ == q);
        }
        if has_key(t, q) && q != k@ {
            let j = key_index(t, q);
            let j2 = if j < p { j } else { j - 1 };
            assert(t[j] == s[j2]);
        }
    }
    assert forall|q: Seq<char>| has_key(t, q) implies #[trigger] value_of(t, q) == map_of(s).insert(k@, v)[q] by {
        if q == k@ {
            lemma_key_index(t, p);
        } else {
            let j = key_index(s, q);
            let j2 = if j < p { j } else { j + 1 };
            assert(t[j2] == s[j]);
            lemma_key_index(s, j);
            lemma_key_index(t, j2);
        }
    }
    assert(map_of(t) =~= map_of(s).insert(k@, v));
}

/// Distinct positions of a sorted sequence hold distinct keys.
pub proof fn lemma_sorted_distinct<T>(s: Seq<(String, T)>, a: int, b: int)
    requires
        keys_sorted(s),
        0 <= a < s.len(),
        0 <= b < s.len(),
        a != b,
    ensures
        s[a].0@ != s[b].0@,
{
    lemma_chars_lt_irreflexive(s[a].0@);
    if a < b {
        assert(chars_lt(s[a].0@, s[b].0@));
    } else {
        assert(chars_lt(s[b].0@, s[a].0@));
    }
}

/// Two sequences with the same keys at the same positions: the second is sorted when the
/// first is, their maps have the same keys, and the value of each key sits at the same
/// position in both.
pub proof fn lemma_same_keys<T>(s: Seq<(String, T)>, t: Seq<(String, T)>)
    requires
        keys_sorted(s),
        s.len() == t.len(),
        forall|j: int| 0 <= j < s.len() ==> (#[trigger] t[j]).0 == s[j].0,
    ensures
        keys_sorted(t),
        map_of(t).dom() == map_of(s).dom(),
        forall|k: Seq<char>| #[trigger] map_of(s).dom().contains(k) ==> {
            let j = key_index(s, k);
            &&& 0 <= j < s.len()
            &&& s[j].0@ == k
            &&& map_of(s)[k] == s[j].1
            &&& map_of(t)[k] == t[j].1
        },
{
    assert forall|a: int, b: int| 0 <= a < b < t.len() implies chars_lt(#[trigger] t[a].0@, #[trigger] t[b].0@) by {
        assert(t[a].0 == s[a].0 && t[b].0 == s[b].0);
    }
    assert forall|k: Seq<char>| #[trigger] has_key(t, k) == has_key(s, k) by {
        if has_key(s, k) {
            let j = key_index(s, k);
            assert(t[j].0@ == k);
        }
        if has_key(t, k) {
            let j = key_index(t, k);
            assert(s[j].0@ == k);
        }
    }
    assert(map_of(t).dom() =~= map_of(s).dom());
    assert forall|k: Seq<char>| #[trigger] map_of(s).dom().contains(k) implies {
        let j = key_index(s, k);
        &&& 0 <= j < s.len()
        &&& s[j].0@ == k
        &&& map_of(s)[k] == s[j].1
        &&& map_of(t)[k] == t[j].1
    } by {
        let j = key_index(s, k);
        lemma_key_index(s, j);
        assert(t[j].0@ == k);
        lemma_key_index(t, j);
    }
}

/// The keys of the first `i + 1` entries are those of the first `i` and the `i`-th.
pub proof fn lemma_take_keys<T>(s: Seq<(String, T)>, i: int)
    requires
        0 <= i < s.len(),
    ensures
        map_of(s.take(i + 1)).dom() == map_of(s.take(i)).dom().insert(s[i].0@),
        map_of(s.take(s.len() as int)).dom() == map_of(s).dom(),
{
    let a = s.take(i);
    let b = s.take(i + 1);
    assert forall|k: Seq<char>| #[trigger] has_key(b, k) == (has_key(a, k) || k == s[i].0@) by {
        if has_key(a, k) {
            let j = key_index(a, k);
            assert(b[j] == a[j]);
        }
        if k == s[i].0@ {
            assert(b[i].0@ == k);
        }
        if has_key(b, k) && k != s[i].0@ {
            let j = key_index(b, k);
            assert(a[j] == b[j]);
        }
    }
    assert(map_of(b).dom() =~= map_of(a).dom().insert(s[i].0@));
    assert(s.take(s.len() as int) =~= s);
}

/// A map from names to values, iterated in increasing name order.
#[derive(Debug)]
pub struct NameMap<T> {
    entries: Vec<(String, T)>,
}

impl<T> View for NameMap<T> {
    type V = Seq<(String, T)>;

    closed spec fn view(&self) -> Seq<(String, T)> {
        self.entries@
    }
}

impl<T> NameMap<T> {
    #[verifier::type_invariant]
    spec fn sorted(self) -> bool {
        keys_sorted(self.entries@)
    }

    /// The entries are in strictly increasing key order (always the case: every
    /// operation keeps it).
    pub open spec fn wf(&self) -> bool {
        keys_sorted(self@)
    }

    /// The entries as a map from key to value.
    pub open spec fn as_map(&self) -> Map<Seq<char>, T> {
        map_of(self@)
    }

    /// An empty map.
    pub fn new() -> (r: Self)
        ensures
            r@ == Seq::<(String, T)>::empty(),
            r.as_map() == Map::<Seq<char>, T>::empty(),
    {
        let r = NameMap { entries: Vec::new() };
        proof {
            assert(r.as_map() =~= Map::<Seq<char>, T>::empty());
        }
        r
    }

    /// Number of entries.
    pub fn len(&self) -> (r: usize)
        ensures
            r == self@.len(),
            self.wf(),
    {
        proof {
            use_type_invariant(self);
        }
        self.entries.len()
    }

    /// Whether the map has no entry.
    pub fn is_empty(&self) -> (r: bool)
        ensures
            r == (self@.len() == 0),
            r == self.as_map().is_empty(),
    {
        proof {
            if self@.len() > 0 {
                assert(self.as_map().dom().contains(self@[0].0@));
            }
            if !self.as_map().is_empty() {
                let k = choose|k: Seq<char>| self.as_map().dom().contains(k);
                assert(has_key(self@, k));
            }
        }
        self.entries.len() == 0
    }

    /// The key of the `i`-th entry.
    pub fn key_at(&self, i: usize) -> (r: &String)
        requires
            i < self@.len(),
        ensures
            *r == self@[i as int].0,
    {
        &self.entries[i].0
    }

    /// The value of the `i`-th entry.
    pub fn value_at(&self, i: usize) -> (r: &T)
        requires
            i < self@.len(),
        ensures
            *r == self@[i as int].1,
            self.as_map()[self@[i as int].0@] == self@[i as int].1,
    {
        proof {
            use_type_invariant(self);
            lemma_key_index(self@, i as int);
        }
        &self.entries[i].1
    }

    /// The position of `key`, if present.
    pub fn find(&self, key: &str) -> (r: Option<usize>)
        ensures
            self.wf(),
            match r {
                Some(i) => i < self@.len() && self@[i as int].0@ == key@ && key_index(self@, key@) == i
                    && has_key(self@, key@),
                None => !has_key(self@, key@),
            },
    {
        proof {
            use_type_invariant(self);
        }
        let n = self.entries.len();
        let mut i: usize = 0;
        while i < n
            invariant
                n == self@.len(),
                self.wf(),
                i <= n,
                forall|j: int| 0 <= j < i ==> self@[j].0@ != key@,
            decreases n - i,
        {
            if str_eq(self.entries[i].0.as_str(), key) {
                proof {
                    lemma_key_index(self@, i as int);
                }
                return Some(i);
            }
            i = i + 1;
        }
        None
    }

    /// Whether `key` is present.
    pub fn contains_key(&self, key: &str) -> (r: bool)
        ensures
            r == has_key(self@, key@),
            r == self.as_map().dom().contains(key@),
    {
        self.find(key).is_some()
    }

    /// The value under `key`, if present.
    pub fn get(&self, key: &str) -> (r: Option<&T>)
        ensures
            match r {
                Some(v) => has_key(self@, key@) && *v == value_of(self@, key@)
                    && self.as_map().dom().contains(key@) && *v == self.as_map()[key@],
                None => !has_key(self@, key@) && !self.as_map().dom().contains(key@),
            },
    {
        match self.find(key) {
            Some(i) => Some(&self.entries[i].1),
            None => None,
        }
    }

    /// Removes the entry under `key` and returns its value, if present.
    pub fn remove(&mut self, key: &str) -> (r: Option<T>)
        ensures
            final(self).as_map() == old(self).as_map().remove(key@),
            match r {
                Some(v) => has_key(old(self)@, key@) && v == value_of(old(self)@, key@)
                    && v == old(self).as_map()[key@]
                    && final(self)@ == old(self)@.remove(key_index(old(self)@, key@)),
                None => !has_key(old(self)@, key@) && final(self)@ == old(self)@,
            },
    {
        match self.find(key) {
            Some(i) => {
                let e = self.remove_at(i);
                Some(e.1)
            },
            None => {
                proof {
                    assert(old(self).as_map().remove(key@) =~= old(self).as_map());
                }
                None
            },
        }
    }

    /// Removes the `i`-th entry.
    pub fn remove_at(&mut self, i: usize) -> (r: (String, T))
        requires
            i < old(self)@.len(),
        ensures
            r == old(self)@[i as int],
            final(self)@ == old(self)@.remove(i as int),
            final(self).as_map() == old(self).as_map().remove(r.0@),
    {
        proof {
            use_type_invariant(&*self);
            lemma_map_remove(self@, i as int);
        }
        let mut v: Vec<(String, T)> = Vec::new();
        std::mem::swap(&mut v, &mut self.entries);
        let r = v.remove(i);
        self.entries = v;
        r
    }

    /// Puts an entry at position `i`, where the key order allows it.
    pub fn insert_at(&mut self, i: usize, key: String, value: T)
        requires
            i <= old(self)@.len(),
            keys_sorted(old(self)@.insert(i as int, (key, value))),
        ensures
            final(self)@ == old(self)@.insert(i as int, (key, value)),
            !old(self).as_map().dom().contains(key@),
            final(self).as_map() == old(self).as_map().insert(key@, value),
    {
        proof {
            lemma_map_insert(self@, i as int, key, value);
        }
        let mut v: Vec<(String, T)> = Vec::new();
        std::mem::swap(&mut v, &mut self.entries);
        v.insert(i, (key, value));
        self.entries = v;
    }

    /// Replaces the value of the `i`-th entry (its key stays) and returns the old value.
    pub fn set_value_at(&mut self, i: usize, value: T) -> (r: T)
        requires
            i < old(self)@.len(),
        ensures
            r == old(self)@[i as int].1,
            final(self)@ == old(self)@.update(i as int, (old(self)@[i as int].0, value)),
            final(self).as_map() == old(self).as_map().insert(old(self)@[i as int].0@, value),
    {
        let ghost s0 = self@;
        proof {
            use_type_invariant(&*self);
            lemma_map_update(s0, i as int, value);
            lemma_map_remove(s0, i as int);
            assert(s0.remove(i as int).insert(i as int, (s0[i as int].0, value)) =~= s0.update(
                i as int,
                (s0[i as int].0, value),
            ));
        }
        let mut v: Vec<(String, T)> = Vec::new();
        std::mem::swap(&mut v, &mut self.entries);
        let (k, old_v) = v.remove(i);
        v.insert(i, (k, value));
        self.entries = v;
        old_v
    }

    /// Stores `value` under `key`: replaces the value of an existing entry (keeping its
    /// key) and returns the old value, or adds a new entry in key order.
    pub fn insert(&mut self, key: String, value: T) -> (r: Option<T>)
        ensures
            final(self).as_map() == old(self).as_map().insert(key@, value),
            match r {
                Some(v) => has_key(old(self)@, key@) && v == value_of(old(self)@, key@)
                    && v == old(self).as_map()[key@]
                    && final(self)@ == old(self)@.update(
                        key_index(old(self)@, key@),
                        (old(self)@[key_index(old(self)@, key@)].0, value),
                    ),
                None => !has_key(old(self)@, key@) && exists|p: int|
                    0 <= p <= old(self)@.len() && final(self)@ == old(self)@.insert(p, (key, value)),
            },
    {
        proof {
            use_type_invariant(&*self);
        }
        let ghost s0 = self@;
        let n = self.entries.len();
        let mut i: usize = 0;
        while i < n
            invariant
                n == s0.len(),
                s0 == old(self)@,
                self@ == s0,
                keys_sorted(s0),
                i <= n,
                forall|j: int| 0 <= j < i ==> chars_lt(#[trigger] s0[j].0@, key@),
            ensures
                n == s0.len(),
                self@ == s0,
                keys_sorted(s0),
                i <= n,
                forall|j: int| 0 <= j < i ==> chars_lt(#[trigger] s0[j].0@, key@),
                i < n ==> chars_lt(key@, s0[i as int].0@),
            decreases n - i,
        {
            let c = compare_str(self.entries[i].0.as_str(), key.as_str());
            if c == Order::Equal {
                proof {
                    lemma_key_index(s0, i as int);
                }
                let old_v = self.set_value_at(i, value);
                return Some(old_v);
            }
            if c == Order::Greater {
                break;
            }
            i = i + 1;
        }
        proof {
            assert forall|j: int| 0 <= j < s0.len() implies #[trigger] s0[j].0@ != key@ by {
                lemma_chars_lt_irreflexive(key@);
                if j > i {
                    assert(chars_lt(s0[i as int].0@, s0[j].0@));
                    lemma_chars_lt_transitive(key@, s0[i as int].0@, s0[j].0@);
                }
            }
            let t = s0.insert(i as int, (key, value));
            assert forall|a: int, b: int| 0 <= a < b < t.len() implies chars_lt(
                #[trigger] t[a].0@,
                #[trigger] t[b].0@,
            ) by {
                if a < i && b < i {
                    assert(t[a] == s0[a] && t[b] == s0[b]);
                } else if a < i && b == i {
                    assert(t[a] == s0[a]);
                } else if a < i {
                    assert(t[a] == s0[a] && t[b] == s0[b - 1]);
                } else if a == i {
                    assert(t[b] == s0[b - 1]);
                    if b - 1 > i {
                        assert(chars_lt(s0[i as int].0@, s0[b - 1].0@));
                        lemma_chars_lt_transitive(key@, s0[i as int].0@, s0[b - 1].0@);
                    }
                } else {
                    assert(t[a] == s0[a - 1] && t[b] == s0[b - 1]);
                }
            }
        }
        self.insert_at(i, key, value);
        None
    }
}

impl NameMap<String> {
    /// A copy of the map: the same keys and values in the same order.
    pub fn duplicate(&self) -> (r: Self)
        ensures
            r@ == self@,
    {
        proof {
            use_type_invariant(self);
        }
        let mut v: Vec<(String, String)> = Vec::new();
        let n = self.entries.len();
        let mut i: usize = 0;
        while i < n
            invariant
                n == self@.len(),
                i <= n,
                v@ == self@.take(i as int),
            decreases n - i,
        {
            let k = self.entries[i].0.clone();
            let x = self.entries[i].1.clone();
            v.push((k, x));
            proof {
                assert(v@ =~= self@.take(i + 1));
            }
            i = i + 1;
        }
        proof {
            assert(self@.take(n as int) =~= self@);
        }
        NameMap { entries: v }
    }
}

} // verus!
