//! Keyed collections of the data model. The stores that the agent keeps —
//! prices by currency code, coins by asset id, routes by name — are all
//! string-keyed maps. They are held as association lists so that every
//! operation on them is verified; a well-formed map holds each key once and
//! keeps its entries in insertion order.

use vstd::prelude::*;

verus! {

/// No key occurs twice in the entry sequence.
pub open spec fn keys_unique<T>(s: Seq<(Seq<char>, T)>) -> bool {
    forall|i: int, j: int| 0 <= i < j < s.len() ==> s[i].0 != s[j].0
}

/// Some entry carries the key `k`.
pub open spec fn has_key<T>(s: Seq<(Seq<char>, T)>, k: Seq<char>) -> bool {
    exists|i: int| 0 <= i < s.len() && s[i].0 == k
}

/// The position of an entry carrying the key `k`.
pub open spec fn index_of<T>(s: Seq<(Seq<char>, T)>, k: Seq<char>) -> int {
    choose|i: int| 0 <= i < s.len() && s[i].0 == k
}

/// The value stored under the key `k`.
pub open spec fn value_of<T>(s: Seq<(Seq<char>, T)>, k: Seq<char>) -> T {
    s[index_of(s, k)].1
}

/// The keys of the entries, in entry order.
pub open spec fn key_seq<T>(s: Seq<(Seq<char>, T)>) -> Seq<Seq<char>> {
    Seq::new(s.len(), |i: int| s[i].0)
}

/// The entry sequence read as a mathematical map.
pub open spec fn seq_to_map<T>(s: Seq<(Seq<char>, T)>) -> Map<Seq<char>, T> {
    Map::new(|k: Seq<char>| has_key(s, k), |k: Seq<char>| value_of(s, k))
}

/// In a well-formed entry sequence the value under `k` is the value of any
/// entry that carries `k`.
pub proof fn lemma_value_at<T>(s: Seq<(Seq<char>, T)>, k: Seq<char>, i: int)
    requires
        keys_unique(s),
        0 <= i < s.len(),
        s[i].0 == k,
    ensures
        has_key(s, k),
        index_of(s, k) == i,
        value_of(s, k) == s[i].1,
{
    assert(has_key(s, k));
    let j = index_of(s, k);
    assert(0 <= j < s.len() && s[j].0 == k);
    if i < j {
        assert(s[i].0 != s[j].0);
    } else if j < i {
        assert(s[j].0 != s[i].0);
    }
}

/// Appending an entry under a fresh key adds exactly that key to the map.
pub proof fn lemma_push_to_map<T>(s: Seq<(Seq<char>, T)>, k: Seq<char>, v: T)
    requires
        keys_unique(s),
        !has_key(s, k),
    ensures
        keys_unique(s.push((k, v))),
        seq_to_map(s.push((k, v))) == seq_to_map(s).insert(k, v),
{
    let t = s.push((k, v));
    assert forall|i: int, j: int| 0 <= i < j < t.len() implies t[i].0 != t[j].0 by {
        if j < s.len() {
        } else {
            assert(t[j].0 == k);
            assert(t[i] == s[i]);
            assert(!(0 <= i < s.len() && s[i].0 == k));
        }
    }
    assert(t[s.len() as int].0 == k);
    assert(has_key(t, k));
    assert forall|k2: Seq<char>| true implies (has_key(t, k2) == (has_key(s, k2) || k2 == k)) by {
        if has_key(s, k2) {
            let i = choose|i: int| 0 <= i < s.len() && s[i].0 == k2;
            assert(t[i].0 == k2);
            assert(has_key(t, k2));
        }
        if has_key(t, k2) && k2 != k {
            let i = choose|i: int| 0 <= i < t.len() && t[i].0 == k2;
            assert(i < s.len());
            assert(s[i].0 == k2);
            assert(has_key(s, k2));
        }
    }
    assert forall|k2: Seq<char>| has_key(t, k2) implies value_of(t, k2) == seq_to_map(s).insert(
        k,
        v,
    )[k2] by {
        if k2 == k {
            lemma_value_at(t, k2, s.len() as int);
        } else {
            let i = choose|i: int| 0 <= i < s.len() && s[i].0 == k2;
            assert(t[i].0 == k2);
            lemma_value_at(t, k2, i);
            lemma_value_at(s, k2, i);
        }
    }
    assert(seq_to_map(t) =~= seq_to_map(s).insert(k, v));
}

/// Overwriting the entry that carries `k` updates exactly that key in the map.
pub proof fn lemma_update_to_map<T>(s: Seq<(Seq<char>, T)>, k: Seq<char>, v: T)
    requires
        keys_unique(s),
        has_key(s, k),
    ensures
        keys_unique(s.update(index_of(s, k), (k, v))),
        seq_to_map(s.update(index_of(s, k), (k, v))) == seq_to_map(s).insert(k, v),
{
    let at = index_of(s, k);
    assert(0 <= at < s.len() && s[at].0 == k);
    let t = s.update(at, (k, v));
    assert forall|i: int, j: int| 0 <= i < j < t.len() implies t[i].0 != t[j].0 by {
        assert(t[i].0 == s[i].0);
        assert(t[j].0 == s[j].0);
    }
    assert forall|k2: Seq<char>| true implies has_key(t, k2) == has_key(s, k2) by {
        if has_key(s, k2) {
            let i = choose|i: int| 0 <= i < s.len() && s[i].0 == k2;
            assert(t[i].0 == k2);
        }
        if has_key(t, k2) {
            let i = choose|i: int| 0 <= i < t.len() && t[i].0 == k2;
            assert(s[i].0 == k2);
        }
    }
    assert forall|k2: Seq<char>| has_key(t, k2) implies value_of(t, k2) == seq_to_map(s).insert(
        k,
        v,
    )[k2] by {
        if k2 == k {
            lemma_value_at(t, k2, at);
        } else {
            let i = choose|i: int| 0 <= i < s.len() && s[i].0 == k2;
            assert(i != at);
            assert(t[i].0 == k2);
            lemma_value_at(t, k2, i);
            lemma_value_at(s, k2, i);
        }
    }
    assert(has_key(t, k)) by {
        lemma_value_at(t, k, at);
    }
    assert(seq_to_map(t) =~= seq_to_map(s).insert(k, v));
}

/// Taking one entry more extends the keys by exactly that entry's key.
pub proof fn lemma_has_key_take_succ<T>(s: Seq<(Seq<char>, T)>, i: int, k: Seq<char>)
    requires
        0 <= i < s.len(),
    ensures
        has_key(s.take(i + 1), k) == (has_key(s.take(i), k) || s[i].0 == k),
{
    let t1 = s.take(i + 1);
    let t0 = s.take(i);
    if has_key(t0, k) {
        let j = choose|j: int| 0 <= j < t0.len() && t0[j].0 == k;
        assert(t1[j].0 == k);
    }
    if s[i].0 == k {
        assert(t1[i].0 == k);
    }
    if has_key(t1, k) {
        let j = choose|j: int| 0 <= j < t1.len() && t1[j].0 == k;
        if j < i {
            assert(t0[j].0 == k);
        } else {
            assert(s[i].0 == k);
        }
    }
}

/// Relies on str's `PartialEq`: two string slices are equal exactly when they
/// hold the same characters.
#[verifier::external_body]
fn str_eq(a: &str, b: &str) -> (r: bool)
    ensures
        r == (a@ == b@),
{
    a == b
}

/// An association list from string keys to values. Entries keep their
/// insertion order; `wf` says that each key occurs at most once.
#[derive(Debug, PartialEq, Eq)]
pub struct StrMap<V> {
    pub entries: Vec<(String, V)>,
}

impl<V: View> View for StrMap<V> {
    type V = Seq<(Seq<char>, V::V)>;

    open spec fn view(&self) -> Seq<(Seq<char>, V::V)> {
        Seq::new(self.entries@.len(), |i: int| (self.entries@[i].0@, self.entries@[i].1@))
    }
}

impl<V: View> StrMap<V> {
    pub open spec fn wf(&self) -> bool {
        keys_unique(self@)
    }

    pub open spec fn to_map(&self) -> Map<Seq<char>, V::V> {
        seq_to_map(self@)
    }

    pub fn new() -> (r: Self)
        ensures
            r@ == Seq::<(Seq<char>, V::V)>::empty(),
            r.wf(),
    {
        let r = StrMap { entries: Vec::new() };
        proof {
            assert(r@ =~= Seq::<(Seq<char>, V::V)>::empty());
        }
        r
    }

    pub fn len(&self) -> (n: usize)
        ensures
            n == self@.len(),
    {
        self.entries.len()
    }

    /// The entry at position `i`, in insertion order.
    pub fn entry_at(&self, i: usize) -> (r: &(String, V))
        requires
            i < self@.len(),
        ensures
            r.0@ == self@[i as int].0,
            r.1@ == self@[i as int].1,
    {
        &self.entries[i]
    }

    /// Looks the key up; `None` exactly when no entry carries it.
    pub fn get(&self, key: &str) -> (r: Option<&V>)
        requires
            self.wf(),
        ensures
            r is Some <==> has_key(self@, key@),
            r is Some ==> r->0@ == value_of(self@, key@),
    {
        let n = self.entries.len();
        let mut i: usize = 0;
        while i < n
            invariant
                n == self@.len(),
                i <= n,
                self.wf(),
                forall|j: int| 0 <= j < i ==> self@[j].0 != key@,
            decreases n - i,
        {
            if str_eq(self.entries[i].0.as_str(), key) {
                proof {
                    lemma_value_at(self@, key@, i as int);
                }
                return Some(&self.entries[i].1);
            }
            i += 1;
        }
        None
    }

    /// Replaces the value under the key, or appends a new entry if the key is
    /// fresh.
    pub fn insert(&mut self, key: String, value: V)
        requires
            old(self).wf(),
        ensures
            final(self).wf(),
            final(self).to_map() == old(self).to_map().insert(key@, value@),
            !has_key(old(self)@, key@) ==> final(self)@ == old(self)@.push((key@, value@)),
            has_key(old(self)@, key@) ==> final(self)@ == old(self)@.update(
                index_of(old(self)@, key@),
                (key@, value@),
            ),
    {
        let ghost prior = self@;
        let n = self.entries.len();
        let mut i: usize = 0;
        while i < n
            invariant
                self == old(self),
                prior == self@,
                n == self@.len(),
                i <= n,
                self.wf(),
                forall|j: int| 0 <= j < i ==> self@[j].0 != key@,
            decreases n - i,
        {
            if str_eq(self.entries[i].0.as_str(), key.as_str()) {
                proof {
                    lemma_value_at(prior, key@, i as int);
                    lemma_update_to_map(prior, key@, value@);
                }
                self.entries.remove(i);
                self.entries.insert(i, (key, value));
                proof {
                    assert(self@ =~= prior.update(i as int, (key@, value@)));
                }
                return ;
            }
            i += 1;
        }
        proof {
            assert(!has_key(prior, key@));
            lemma_push_to_map(prior, key@, value@);
        }
        self.entries.push((key, value));
        proof {
            assert(self@ =~= prior.push((key@, value@)));
        }
    }
}

impl Clone for StrMap<u32> {
    /// A clone carries the same entries.
    fn clone(&self) -> (r: Self)
        ensures
            r@ == self@,
    {
        let mut entries: Vec<(String, u32)> = Vec::new();
        let n = self.entries.len();
        let mut i: usize = 0;
        while i < n
            invariant
                n == self.entries@.len(),
                i <= n,
                entries@.len() == i,
                forall|j: int| 0 <= j < i ==> entries@[j].0@ == self.entries@[j].0@
                    && entries@[j].1 == self.entries@[j].1,
            decreases n - i,
        {
            let e = &self.entries[i];
            entries.push((e.0.clone(), e.1));
            i += 1;
        }
        let r = StrMap { entries };
        proof {
            assert(r@ =~= self@);
        }
        r
    }
}

impl Clone for StrMap<String> {
    /// A clone carries the same entries.
    fn clone(&self) -> (r: Self)
        ensures
            r@ == self@,
    {
        let mut entries: Vec<(String, String)> = Vec::new();
        let n = self.entries.len();
        let mut i: usize = 0;
        while i < n
            invariant
                n == self.entries@.len(),
                i <= n,
                entries@.len() == i,
                forall|j: int| 0 <= j < i ==> entries@[j].0@ == self.entries@[j].0@
                    && entries@[j].1@ == self.entries@[j].1@,
            decreases n - i,
        {
            let e = &self.entries[i];
            entries.push((e.0.clone(), e.1.clone()));
            i += 1;
        }
        let r = StrMap { entries };
        proof {
            assert(r@ =~= self@);
        }
        r
    }
}

} // verus!
