//! A finite map kept as a list of entries with distinct keys. It stands for
//! the runtime's storage maps: every key occurs at most once.

use vstd::prelude::*;
use crate::arith::bytes_eq;
use crate::primitives::{AccountId, FungibleTokenId, StakingRound};

verus! {

/// A key that can be compared in executable code, with a mathematical view
/// that the comparison agrees with.
pub trait MapKey: Sized {
    type KeyView;

    spec fn key_view(&self) -> Self::KeyView;

    fn same_key(&self, other: &Self) -> (b: bool)
        ensures
            b == (self.key_view() == other.key_view()),
    ;

    fn copy_key(&self) -> (r: Self)
        ensures
            r.key_view() == self.key_view(),
    ;
}

impl MapKey for u32 {
    type KeyView = u32;

    open spec fn key_view(&self) -> u32 {
        *self
    }

    fn same_key(&self, other: &Self) -> (b: bool) {
        *self == *other
    }

    fn copy_key(&self) -> (r: Self) {
        *self
    }
}

impl MapKey for AccountId {
    type KeyView = AccountId;

    open spec fn key_view(&self) -> AccountId {
        *self
    }

    fn same_key(&self, other: &Self) -> (b: bool) {
        *self == *other
    }

    fn copy_key(&self) -> (r: Self) {
        *self
    }
}

impl MapKey for FungibleTokenId {
    type KeyView = FungibleTokenId;

    open spec fn key_view(&self) -> FungibleTokenId {
        *self
    }

    fn same_key(&self, other: &Self) -> (b: bool) {
        *self == *other
    }

    fn copy_key(&self) -> (r: Self) {
        *self
    }
}

impl MapKey for StakingRound {
    type KeyView = StakingRound;

    open spec fn key_view(&self) -> StakingRound {
        *self
    }

    fn same_key(&self, other: &Self) -> (b: bool) {
        *self == *other
    }

    fn copy_key(&self) -> (r: Self) {
        *self
    }
}

impl MapKey for Vec<u8> {
    type KeyView = Seq<u8>;

    open spec fn key_view(&self) -> Seq<u8> {
        self@
    }

    fn same_key(&self, other: &Self) -> (b: bool) {
        bytes_eq(self.as_slice(), other.as_slice())
    }

    fn copy_key(&self) -> (r: Self) {
        vstd::slice::slice_to_vec(self.as_slice())
    }
}

impl<A: MapKey, B: MapKey> MapKey for (A, B) {
    type KeyView = (A::KeyView, B::KeyView);

    open spec fn key_view(&self) -> (A::KeyView, B::KeyView) {
        (self.0.key_view(), self.1.key_view())
    }

    fn same_key(&self, other: &Self) -> (b: bool) {
        let first = self.0.same_key(&other.0);
        let second = self.1.same_key(&other.1);
        first && second
    }

    fn copy_key(&self) -> (r: Self) {
        (self.0.copy_key(), self.1.copy_key())
    }
}

/// No two entries of `s` share a key.
pub open spec fn keys_unique<K: MapKey, V>(s: Seq<(K, V)>) -> bool {
    forall|i: int, j: int|
        0 <= i < s.len() && 0 <= j < s.len() && i != j ==> #[trigger] s[i].0.key_view() != #[trigger] s[j].0.key_view()
}

/// Some entry of `s` has key `k`.
pub open spec fn has_key<K: MapKey, V>(s: Seq<(K, V)>, k: K::KeyView) -> bool {
    exists|i: int| 0 <= i < s.len() && #[trigger] s[i].0.key_view() == k
}

/// The map that a list of entries with distinct keys denotes.
pub open spec fn entries_map<K: MapKey, V>(s: Seq<(K, V)>) -> Map<K::KeyView, V> {
    Map::new(
        |k: K::KeyView| has_key(s, k),
        |k: K::KeyView| s[choose|i: int| 0 <= i < s.len() && #[trigger] s[i].0.key_view() == k].1,
    )
}

/// In a list with distinct keys, the entry at `i` is what the map holds for its key.
proof fn lemma_entry_in_map<K: MapKey, V>(s: Seq<(K, V)>, i: int)
    requires
        keys_unique(s),
        0 <= i < s.len(),
    ensures
        entries_map(s).contains_key(s[i].0.key_view()),
        entries_map(s)[s[i].0.key_view()] == s[i].1,
{
    let k = s[i].0.key_view();
    assert(has_key(s, k));
    let j = choose|j: int| 0 <= j < s.len() && #[trigger] s[j].0.key_view() == k;
    assert(s[j].0.key_view() == k);
    assert(j == i);
}

/// A map stored as a list of entries whose keys are distinct.
#[derive(Debug)]
pub struct KeyedMap<K: MapKey, V> {
    entries: Vec<(K, V)>,
}

impl<K: MapKey, V> View for KeyedMap<K, V> {
    type V = Map<K::KeyView, V>;

    open spec fn view(&self) -> Map<K::KeyView, V> {
        entries_map(self.entries())
    }
}

impl<K: MapKey, V> KeyedMap<K, V> {
    /// The entries in storage order.
    pub closed spec fn entries(&self) -> Seq<(K, V)> {
        self.entries@
    }

    #[verifier::type_invariant]
    spec fn inv(&self) -> bool {
        keys_unique(self.entries@)
    }

    pub fn new() -> (m: Self)
        ensures
            m@ == Map::<K::KeyView, V>::empty(),
    {
        let m = KeyedMap { entries: Vec::new() };
        assert(m@ =~= Map::<K::KeyView, V>::empty());
        m
    }

    /// The position of the entry with key `k`, if there is one.
    fn position(&self, k: &K) -> (r: Option<usize>)
        ensures
            r is Some <==> self@.contains_key(k.key_view()),
            r matches Some(i) ==> i < self.entries@.len() && self.entries@[i as int].0.key_view()
                == k.key_view(),
    {
        proof {
            use_type_invariant(self);
        }
        let mut i: usize = 0;
        while i < self.entries.len()
            invariant
                i <= self.entries@.len(),
                forall|j: int| 0 <= j < i ==> #[trigger] self.entries@[j].0.key_view() != k.key_view(),
            decreases self.entries@.len() - i,
        {
            if self.entries[i].0.same_key(k) {
                return Some(i);
            }
            i = i + 1;
        }
        proof {
            if has_key(self.entries@, k.key_view()) {
                let j = choose|j: int|
                    0 <= j < self.entries@.len() && #[trigger] self.entries@[j].0.key_view()
                        == k.key_view();
                assert(self.entries@[j].0.key_view() != k.key_view());
            }
        }
        None
    }

    pub fn contains_key(&self, k: &K) -> (b: bool)
        ensures
            b == self@.contains_key(k.key_view()),
    {
        self.position(k).is_some()
    }

    pub fn get(&self, k: &K) -> (r: Option<&V>)
        ensures
            r is Some <==> self@.contains_key(k.key_view()),
            r matches Some(v) ==> *v == self@[k.key_view()],
    {
        proof {
            use_type_invariant(self);
        }
        match self.position(k) {
            Some(i) => {
                proof {
                    lemma_entry_in_map(self.entries@, i as int);
                }
                Some(&self.entries[i].1)
            },
            None => None,
        }
    }

    pub fn insert(&mut self, k: K, v: V)
        ensures
            final(self)@ == old(self)@.insert(k.key_view(), v),
    {
        proof {
            use_type_invariant(&*self);
        }
        let ghost before = self.entries@;
        let ghost kv = k.key_view();
        match self.position(&k) {
            Some(i) => {
                let mut entries = Vec::new();
                std::mem::swap(&mut entries, &mut self.entries);
                entries.set(i, (k, v));
                let ghost after = entries@;
                assert(after == before.update(i as int, (k, v)));
                assert(keys_unique(after)) by {
                    assert forall|a: int, b: int|
                        0 <= a < after.len() && 0 <= b < after.len() && a != b implies
                        #[trigger] after[a].0.key_view() != #[trigger] after[b].0.key_view() by {
                        assert(after[a].0.key_view() == before[a].0.key_view());
                        assert(after[b].0.key_view() == before[b].0.key_view());
                    }
                }
                proof {
                    lemma_map_after_update(before, i as int, k, v);
                }
                self.entries = entries;
            },
            None => {
                let mut entries = Vec::new();
                std::mem::swap(&mut entries, &mut self.entries);
                entries.push((k, v));
                let ghost after = entries@;
                assert(after == before.push((k, v)));
                assert(!has_key(before, kv));
                assert(keys_unique(after)) by {
                    assert forall|a: int, b: int|
                        0 <= a < after.len() && 0 <= b < after.len() && a != b implies
                        #[trigger] after[a].0.key_view() != #[trigger] after[b].0.key_view() by {
                        if a == before.len() {
                            assert(before[b].0.key_view() != kv);
                        } else if b == before.len() {
                            assert(before[a].0.key_view() != kv);
                        }
                    }
                }
                proof {
                    lemma_map_after_push(before, k, v);
                }
                self.entries = entries;
            },
        }
    }

    pub fn remove(&mut self, k: &K) -> (r: Option<V>)
        ensures
            final(self)@ == old(self)@.remove(k.key_view()),
            r is Some <==> old(self)@.contains_key(k.key_view()),
            r matches Some(v) ==> v == old(self)@[k.key_view()],
    {
        proof {
            use_type_invariant(&*self);
        }
        let ghost before = self.entries@;
        match self.position(k) {
            Some(i) => {
                proof {
                    lemma_entry_in_map(before, i as int);
                    lemma_map_after_remove(before, i as int);
                }
                let mut entries = Vec::new();
                std::mem::swap(&mut entries, &mut self.entries);
                let (_, v) = entries.remove(i);
                let ghost after = entries@;
                assert(after == before.remove(i as int));
                self.entries = entries;
                Some(v)
            },
            None => {
                assert(self@ =~= old(self)@.remove(k.key_view()));
                None
            },
        }
    }
}

impl<K: MapKey + Copy, V> KeyedMap<K, V> {
    /// The keys, each once, in storage order.
    pub fn keys(&self) -> (r: Vec<K>)
        ensures
            forall|i: int| 0 <= i < r@.len() ==> self@.contains_key(#[trigger] r@[i].key_view()),
            forall|k: K::KeyView| self@.contains_key(k) ==> exists|i: int|
                0 <= i < r@.len() && #[trigger] r@[i].key_view() == k,
            forall|i: int, j: int|
                0 <= i < r@.len() && 0 <= j < r@.len() && i != j ==> #[trigger] r@[i].key_view()
                    != #[trigger] r@[j].key_view(),
    {
        proof {
            use_type_invariant(self);
        }
        let mut r: Vec<K> = Vec::new();
        let mut i: usize = 0;
        while i < self.entries.len()
            invariant
                i <= self.entries@.len(),
                keys_unique(self.entries@),
                r@.len() == i,
                forall|j: int| 0 <= j < i ==> #[trigger] r@[j].key_view() == self.entries@[j].0.key_view(),
            decreases self.entries@.len() - i,
        {
            r.push(self.entries[i].0);
            i = i + 1;
        }
        assert forall|j: int| 0 <= j < r@.len() implies self@.contains_key(#[trigger] r@[j].key_view()) by {
            lemma_entry_in_map(self.entries@, j);
        }
        assert forall|k: K::KeyView| self@.contains_key(k) implies exists|j: int|
            0 <= j < r@.len() && #[trigger] r@[j].key_view() == k by {
            let j = choose|j: int|
                0 <= j < self.entries@.len() && #[trigger] self.entries@[j].0.key_view() == k;
            assert(r@[j].key_view() == k);
        }
        assert forall|a: int, b: int|
            0 <= a < r@.len() && 0 <= b < r@.len() && a != b implies #[trigger] r@[a].key_view()
            != #[trigger] r@[b].key_view() by {
            assert(r@[a].key_view() == self.entries@[a].0.key_view());
            assert(r@[b].key_view() == self.entries@[b].0.key_view());
        }
        r
    }
}

/// Two entry lists with the same keys and values, position by position,
/// denote the same map.
proof fn lemma_same_entries_same_map<K: MapKey, V>(a: Seq<(K, V)>, b: Seq<(K, V)>)
    requires
        keys_unique(a),
        a.len() == b.len(),
        forall|i: int|
            0 <= i < a.len() ==> #[trigger] a[i].0.key_view() == b[i].0.key_view() && a[i].1
                == b[i].1,
    ensures
        keys_unique(b),
        entries_map(a) == entries_map(b),
{
    assert(keys_unique(b)) by {
        assert forall|x: int, y: int|
            0 <= x < b.len() && 0 <= y < b.len() && x != y implies #[trigger] b[x].0.key_view()
            != #[trigger] b[y].0.key_view() by {
            assert(a[x].0.key_view() == b[x].0.key_view());
            assert(a[y].0.key_view() == b[y].0.key_view());
        }
    }
    assert forall|k: K::KeyView| #[trigger] has_key(a, k) == has_key(b, k) by {
        if has_key(a, k) {
            let j = choose|j: int| 0 <= j < a.len() && #[trigger] a[j].0.key_view() == k;
            assert(a[j].0.key_view() == b[j].0.key_view());
        }
        if has_key(b, k) {
            let j = choose|j: int| 0 <= j < b.len() && #[trigger] b[j].0.key_view() == k;
            assert(a[j].0.key_view() == b[j].0.key_view());
        }
    }
    assert forall|k: K::KeyView| #[trigger] entries_map(a).contains_key(k) implies entries_map(a)[k]
        == entries_map(b)[k] by {
        let j = choose|j: int| 0 <= j < a.len() && #[trigger] a[j].0.key_view() == k;
        assert(a[j].0.key_view() == b[j].0.key_view());
        lemma_entry_in_map(a, j);
        lemma_entry_in_map(b, j);
    }
    assert(entries_map(a) =~= entries_map(b));
}

impl<K: MapKey, V: Copy> KeyedMap<K, V> {
    /// A copy of the map.
    pub fn duplicate(&self) -> (r: Self)
        ensures
            r@ == self@,
    {
        proof {
            use_type_invariant(self);
        }
        let mut entries: Vec<(K, V)> = Vec::new();
        let mut i: usize = 0;
        while i < self.entries.len()
            invariant
                i <= self.entries@.len(),
                entries@.len() == i,
                forall|j: int|
                    0 <= j < i ==> #[trigger] entries@[j].0.key_view() == self.entries@[j].0.key_view()
                        && entries@[j].1 == self.entries@[j].1,
            decreases self.entries@.len() - i,
        {
            let key = self.entries[i].0.copy_key();
            let value = self.entries[i].1;
            entries.push((key, value));
            i = i + 1;
        }
        proof {
            lemma_same_entries_same_map(self.entries@, entries@);
        }
        KeyedMap { entries }
    }
}

impl<K: MapKey, V: Clone> Clone for KeyedMap<K, V> {
    /// A copy of the map with the same keys and cloned values.
    fn clone(&self) -> (r: Self) {
        proof {
            use_type_invariant(self);
        }
        let mut entries: Vec<(K, V)> = Vec::new();
        let mut i: usize = 0;
        while i < self.entries.len()
            invariant
                i <= self.entries@.len(),
                keys_unique(self.entries@),
                entries@.len() == i,
                forall|j: int|
                    0 <= j < i ==> #[trigger] entries@[j].0.key_view() == self.entries@[j].0.key_view(),
            decreases self.entries@.len() - i,
        {
            let key = self.entries[i].0.copy_key();
            let value = self.entries[i].1.clone();
            entries.push((key, value));
            i = i + 1;
        }
        assert(keys_unique(entries@)) by {
            assert forall|x: int, y: int|
                0 <= x < entries@.len() && 0 <= y < entries@.len() && x != y implies
                #[trigger] entries@[x].0.key_view() != #[trigger] entries@[y].0.key_view() by {
                assert(entries@[x].0.key_view() == self.entries@[x].0.key_view());
                assert(entries@[y].0.key_view() == self.entries@[y].0.key_view());
            }
        }
        KeyedMap { entries }
    }
}

proof fn lemma_map_after_update<K: MapKey, V>(s: Seq<(K, V)>, i: int, k: K, v: V)
    requires
        keys_unique(s),
        0 <= i < s.len(),
        s[i].0.key_view() == k.key_view(),
        keys_unique(s.update(i, (k, v))),
    ensures
        entries_map(s.update(i, (k, v))) == entries_map(s).insert(k.key_view(), v),
{
    let t = s.update(i, (k, v));
    assert forall|k2: K::KeyView| #[trigger] has_key(t, k2) == has_key(s, k2) by {
        if has_key(t, k2) {
            let j = choose|j: int| 0 <= j < t.len() && #[trigger] t[j].0.key_view() == k2;
            assert(s[j].0.key_view() == k2);
        }
        if has_key(s, k2) {
            let j = choose|j: int| 0 <= j < s.len() && #[trigger] s[j].0.key_view() == k2;
            assert(t[j].0.key_view() == k2);
        }
    }
    assert forall|k2: K::KeyView| #[trigger] entries_map(t).contains_key(k2) implies entries_map(
        t,
    )[k2] == entries_map(s).insert(k.key_view(), v)[k2] by {
        let j = choose|j: int| 0 <= j < t.len() && #[trigger] t[j].0.key_view() == k2;
        lemma_entry_in_map(t, j);
        if j != i {
            lemma_entry_in_map(s, j);
        }
    }
    assert(entries_map(t) =~= entries_map(s).insert(k.key_view(), v));
}

proof fn lemma_map_after_push<K: MapKey, V>(s: Seq<(K, V)>, k: K, v: V)
    requires
        keys_unique(s),
        keys_unique(s.push((k, v))),
        !has_key(s, k.key_view()),
    ensures
        entries_map(s.push((k, v))) == entries_map(s).insert(k.key_view(), v),
{
    let t = s.push((k, v));
    let kv = k.key_view();
    assert forall|k2: K::KeyView| #[trigger] has_key(t, k2) == (has_key(s, k2) || k2 == kv) by {
        if has_key(t, k2) {
            let j = choose|j: int| 0 <= j < t.len() && #[trigger] t[j].0.key_view() == k2;
            if j < s.len() {
                assert(s[j].0.key_view() == k2);
            }
        }
        if has_key(s, k2) {
            let j = choose|j: int| 0 <= j < s.len() && #[trigger] s[j].0.key_view() == k2;
            assert(t[j].0.key_view() == k2);
        }
        if k2 == kv {
            assert(t[s.len() as int].0.key_view() == k2);
        }
    }
    assert forall|k2: K::KeyView| #[trigger] entries_map(t).contains_key(k2) implies entries_map(
        t,
    )[k2] == entries_map(s).insert(kv, v)[k2] by {
        let j = choose|j: int| 0 <= j < t.len() && #[trigger] t[j].0.key_view() == k2;
        lemma_entry_in_map(t, j);
        if j < s.len() {
            assert(t[j] == s[j]);
            lemma_entry_in_map(s, j);
        }
    }
    assert(entries_map(t) =~= entries_map(s).insert(kv, v));
}

proof fn lemma_map_after_remove<K: MapKey, V>(s: Seq<(K, V)>, i: int)
    requires
        keys_unique(s),
        0 <= i < s.len(),
    ensures
        keys_unique(s.remove(i)),
        entries_map(s.remove(i)) == entries_map(s).remove(s[i].0.key_view()),
{
    let t = s.remove(i);
    let k = s[i].0.key_view();
    assert forall|k2: K::KeyView| #[trigger] has_key(t, k2) == (has_key(s, k2) && k2 != k) by {
        if has_key(t, k2) {
            let j = choose|j: int| 0 <= j < t.len() && #[trigger] t[j].0.key_view() == k2;
            let j2 = if j < i { j } else { j + 1 };
            assert(t[j] == s[j2]);
            assert(s[j2].0.key_view() == k2);
        }
        if has_key(s, k2) && k2 != k {
            let j = choose|j: int| 0 <= j < s.len() && #[trigger] s[j].0.key_view() == k2;
            assert(j != i);
            let j2 = if j < i { j } else { j - 1 };
            assert(t[j2] == s[j]);
            assert(t[j2].0.key_view() == k2);
        }
    }
    assert(keys_unique(t)) by {
        assert forall|a: int, b: int|
            0 <= a < t.len() && 0 <= b < t.len() && a != b implies #[trigger] t[a].0.key_view()
            != #[trigger] t[b].0.key_view() by {
            let a2 = if a < i { a } else { a + 1 };
            let b2 = if b < i { b } else { b + 1 };
            assert(t[a] == s[a2]);
            assert(t[b] == s[b2]);
        }
    }
    assert forall|k2: K::KeyView| #[trigger] entries_map(t).contains_key(k2) implies entries_map(
        t,
    )[k2] == entries_map(s)[k2] by {
        let j = choose|j: int| 0 <= j < t.len() && #[trigger] t[j].0.key_view() == k2;
        lemma_entry_in_map(t, j);
        let j2 = if j < i { j } else { j + 1 };
        assert(t[j] == s[j2]);
        lemma_entry_in_map(s, j2);
    }
    assert(entries_map(t) =~= entries_map(s).remove(k));
}

} // verus!
