//! A statically-sized, dynamically-filled store of claim-once slots, and a
//! keyed map built on top of it.
//!
//! A [`Registry`] owns `CAPACITY` slots. Each slot is claimed at most once,
//! never freed, and its index is never reused; a claim that arrives when
//! every slot is spoken for is rejected and hands the value back unchanged.

use vstd::prelude::*;
use vstd::std_specs::cmp::PartialEqSpec;

verus! {

/// One claim on a store whose entries are `s` and whose capacity is `cap`:
/// when there is room the value is appended at index `s.len()`, and
/// otherwise it is handed back unchanged.
pub open spec fn claim_spec<T>(s: Seq<T>, v: T, cap: nat) -> (Result<int, T>, Seq<T>) {
    if s.len() < cap {
        (Ok(s.len() as int), s.push(v))
    } else {
        (Err(v), s)
    }
}

/// A fixed-capacity array of claim-once slots.
///
/// Slots are claimed in index order; a claimed slot holds its value for the
/// life of the store. The view of a `Registry` is the sequence of claimed
/// values, in claim order.
#[derive(Debug)]
pub struct Registry<T, const CAPACITY: usize> {
    slots: Vec<Option<T>>,
    next: usize,
}

impl<T, const CAPACITY: usize> View for Registry<T, CAPACITY> {
    type V = Seq<T>;

    closed spec fn view(&self) -> Seq<T> {
        Seq::new(self.claimed() as nat, |i: int| self.slots[i]->Some_0)
    }
}

impl<T, const CAPACITY: usize> Registry<T, CAPACITY> {
    /// How many slots have been claimed: the claim counter, clamped to the
    /// capacity (rejected claims consume the counter but touch no slot).
    pub closed spec fn claimed(&self) -> int {
        if self.next <= CAPACITY {
            self.next as int
        } else {
            CAPACITY as int
        }
    }

    /// The store's structural invariant: exactly the first `claimed` slots
    /// are initialized.
    pub closed spec fn wf(&self) -> bool {
        &&& self.slots.len() == CAPACITY
        &&& 0 <= self.claimed() <= CAPACITY
        &&& forall|i: int|
            0 <= i < CAPACITY ==> ((#[trigger] self.slots[i]) is Some <==> i < self.claimed())
    }

    /// Returns a new `Registry` with every slot unclaimed.
    pub fn new() -> (r: Self)
        ensures
            r.wf(),
            r@ == Seq::<T>::empty(),
    {
        let mut slots: Vec<Option<T>> = Vec::new();
        while slots.len() < CAPACITY
            invariant
                slots.len() <= CAPACITY,
                forall|i: int| 0 <= i < slots.len() ==> (#[trigger] slots[i]) is None,
            decreases CAPACITY - slots.len(),
        {
            slots.push(None);
        }
        let r = Registry { slots, next: 0 };
        proof {
            assert(r@ =~= Seq::<T>::empty());
        }
        r
    }

    /// Attempt to store `value`, returning the index of its permanent slot,
    /// or the original value when the store is full.
    pub fn try_register(&mut self, value: T) -> (r: Result<usize, T>)
        requires
            old(self).wf(),
        ensures
            final(self).wf(),
            final(self)@ == claim_spec(old(self)@, value, CAPACITY as nat).1,
            (match r {
                Ok(i) => claim_spec(old(self)@, value, CAPACITY as nat).0 == Ok::<int, T>(
                    i as int,
                ),
                Err(v) => claim_spec(old(self)@, value, CAPACITY as nat).0 == Err::<int, T>(v),
            }),
            old(self)@.len() < CAPACITY ==> r == Ok::<usize, T>(old(self)@.len() as usize)
                && final(self)@ == old(self)@.push(value),
            old(self)@.len() == CAPACITY ==> r == Err::<usize, T>(value) && final(self)@ == old(
                self,
            )@,
    {
        let idx = self.next;
        if idx < CAPACITY {
            self.slots[idx] = Some(value);
            self.next = idx + 1;
            proof {
                assert(self@ =~= old(self)@.push(value));
            }
            Ok(idx)
        } else {
            // The reserved index is consumed even though it lies out of
            // range; the counter saturates rather than wrapping around.
            if self.next < usize::MAX {
                self.next = self.next + 1;
            }
            proof {
                assert(self@ =~= old(self)@);
            }
            Err(value)
        }
    }

    /// Store `value`, returning the index of its permanent slot. The caller
    /// must know the store is not full; `try_register` reports fullness as a
    /// recoverable result instead.
    pub fn register(&mut self, value: T) -> (idx: usize)
        requires
            old(self).wf(),
            old(self)@.len() < CAPACITY,
        ensures
            final(self).wf(),
            idx == old(self)@.len(),
            final(self)@ == old(self)@.push(value),
    {
        match self.try_register(value) {
            Ok(i) => i,
            Err(_) => vstd::pervasive::unreached(),
        }
    }

    /// Attempt to store `T::default()`, returning the index of its slot, or
    /// `None` when the store is full. What `default` returns for an
    /// arbitrary `T` is not visible here, so the new entry is only said to
    /// be appended.
    pub fn try_register_default(&mut self) -> (r: Option<usize>) where T: Default
        requires
            old(self).wf(),
        ensures
            final(self).wf(),
            old(self)@.len() < CAPACITY ==> r == Some(old(self)@.len() as usize)
                && final(self)@.len() == old(self)@.len() + 1 && forall|i: int|
                0 <= i < old(self)@.len() ==> final(self)@[i] == old(self)@[i],
            old(self)@.len() == CAPACITY ==> r is None && final(self)@ == old(self)@,
    {
        match self.try_register(T::default()) {
            Ok(i) => Some(i),
            Err(_) => None,
        }
    }

    /// Returns a reference to the value in slot `idx`, or `None` when that
    /// slot has not been claimed.
    pub fn get(&self, idx: usize) -> (r: Option<&T>)
        requires
            self.wf(),
        ensures
            idx < self@.len() ==> (r matches Some(v) && *v == self@[idx as int]),
            idx >= self@.len() ==> r is None,
    {
        if idx < self.slots.len() {
            match &self.slots[idx] {
                Some(v) => Some(v),
                None => None,
            }
        } else {
            None
        }
    }

    /// Returns a mutable reference to the value in slot `idx`.
    pub fn get_mut(&mut self, idx: usize) -> (r: &mut T)
        requires
            old(self).wf(),
            idx < old(self)@.len(),
        ensures
            *r == old(self)@[idx as int],
            final(self)@ == old(self)@.update(idx as int, *final(r)),
            final(self).wf(),
    {
        proof {
            assert(self.slots[idx as int] is Some);
        }
        let slot = &mut self.slots[idx];
        match slot {
            Some(v) => v,
            None => vstd::pervasive::unreached(),
        }
    }

    /// References to every claimed value, in slot order.
    pub fn iter(&self) -> (r: Vec<&T>)
        requires
            self.wf(),
        ensures
            r@.len() == self@.len(),
            forall|i: int| 0 <= i < self@.len() ==> *(#[trigger] r@[i]) == self@[i],
    {
        let mut out: Vec<&T> = Vec::new();
        let n = self.slots.len();
        let mut i: usize = 0;
        while i < n
            invariant
                self.wf(),
                n == CAPACITY,
                i <= n,
                out@.len() == if i <= self@.len() { i as int } else { self@.len() as int },
                forall|j: int| 0 <= j < out@.len() ==> *(#[trigger] out@[j]) == self@[j],
            decreases n - i,
        {
            match &self.slots[i] {
                Some(v) => out.push(v),
                None => {},
            }
            i = i + 1;
        }
        out
    }

    /// The number of claimed slots.
    pub fn len(&self) -> (n: usize)
        ensures
            n == self@.len(),
    {
        if self.next < CAPACITY {
            self.next
        } else {
            CAPACITY
        }
    }

    /// Whether no slot has been claimed.
    pub fn is_empty(&self) -> (r: bool)
        ensures
            r == (self@.len() == 0),
    {
        self.len() == 0
    }

    /// The total number of slots, claimed or not.
    pub fn capacity(&self) -> (c: usize)
        ensures
            c == CAPACITY,
    {
        CAPACITY
    }

    /// Whether every slot has been claimed.
    pub fn is_full(&self) -> (r: bool)
        ensures
            r == (self@.len() == CAPACITY),
    {
        self.len() == self.capacity()
    }

    /// How many more claims can succeed.
    pub fn remaining_capacity(&self) -> (n: usize)
        requires
            self.wf(),
        ensures
            n == CAPACITY - self@.len(),
    {
        self.capacity() - self.len()
    }
}

/// The store's entries after a whole sequence of claims, applied in order.
pub open spec fn run_claims<T>(s: Seq<T>, vals: Seq<T>, cap: nat) -> Seq<T>
    decreases vals.len(),
{
    if vals.len() == 0 {
        s
    } else {
        run_claims(claim_spec(s, vals[0], cap).1, vals.drop_first(), cap)
    }
}

/// The indices the successful claims of `vals` receive, in claim order.
pub open spec fn claim_oks<T>(s: Seq<T>, vals: Seq<T>, cap: nat) -> Seq<int>
    decreases vals.len(),
{
    if vals.len() == 0 {
        Seq::empty()
    } else {
        let rest = claim_oks(claim_spec(s, vals[0], cap).1, vals.drop_first(), cap);
        match claim_spec(s, vals[0], cap).0 {
            Ok(i) => seq![i] + rest,
            Err(_) => rest,
        }
    }
}

/// Uniqueness of claims: from a store holding `s`, any sequence of claims
/// fills the store to exactly `min(s.len() + n, cap)` entries and hands
/// out exactly the indices `s.len() .. k` where `k` is that final count —
/// consecutive, within capacity, and free of duplicates.
pub proof fn lemma_claim_indices_consecutive<T>(s: Seq<T>, vals: Seq<T>, cap: nat)
    requires
        s.len() <= cap,
    ensures
        run_claims(s, vals, cap).len() == if s.len() + vals.len() <= cap {
            s.len() + vals.len() as int
        } else {
            cap as int
        },
        claim_oks(s, vals, cap) == Seq::new(
            (run_claims(s, vals, cap).len() - s.len()) as nat,
            |i: int| s.len() + i,
        ),
    decreases vals.len(),
{
    if vals.len() == 0 {
        assert(claim_oks(s, vals, cap) =~= Seq::new(0nat, |i: int| s.len() + i));
    } else {
        let s2 = claim_spec(s, vals[0], cap).1;
        lemma_claim_indices_consecutive(s2, vals.drop_first(), cap);
        let k = run_claims(s, vals, cap).len();
        assert(claim_oks(s, vals, cap) =~= Seq::new((k - s.len()) as nat, |i: int| s.len() + i));
    }
}

/// Uniqueness of claims, from an empty store: `n` claims succeed exactly
/// `min(n, cap)` times, and the successful ones receive exactly the
/// indices `0 .. min(n, cap)`, each exactly once.
pub proof fn lemma_claim_indices_unique<T>(vals: Seq<T>, cap: nat)
    ensures
        run_claims(Seq::empty(), vals, cap).len() == if vals.len() <= cap {
            vals.len() as int
        } else {
            cap as int
        },
        claim_oks(Seq::empty(), vals, cap) == Seq::new(
            run_claims(Seq::empty(), vals, cap).len(),
            |i: int| i,
        ),
        forall|i: int, j: int|
            0 <= i < j < claim_oks(Seq::empty(), vals, cap).len() ==> claim_oks(
                Seq::empty(),
                vals,
                cap,
            )[i] != claim_oks(Seq::empty(), vals, cap)[j],
{
    lemma_claim_indices_consecutive(Seq::empty(), vals, cap);
    assert(claim_oks(Seq::empty(), vals, cap) =~= Seq::new(
        run_claims(Seq::empty(), vals, cap).len(),
        |i: int| i,
    ));
}

/// Stability of claimed slots: a value written at claim time is still
/// there, unmoved and unchanged, after any further sequence of claims.
pub proof fn lemma_claimed_value_stable<T>(s: Seq<T>, vals: Seq<T>, cap: nat, i: int)
    requires
        0 <= i < s.len(),
    ensures
        run_claims(s, vals, cap).len() >= s.len(),
        run_claims(s, vals, cap)[i] == s[i],
    decreases vals.len(),
{
    if vals.len() > 0 {
        lemma_claimed_value_stable(claim_spec(s, vals[0], cap).1, vals.drop_first(), cap, i);
    }
}

/// The index of the first entry of `s` whose key the looked-up `key` equals,
/// under the key type's own equality.
pub open spec fn lookup_spec<K: PartialEq, V>(s: Seq<(K, V)>, key: K) -> Option<int>
    decreases s.len(),
{
    if s.len() == 0 {
        None
    } else if key.eq_spec(&s[0].0) {
        Some(0)
    } else {
        match lookup_spec(s.drop_first(), key) {
            Some(i) => Some(i + 1),
            None => None,
        }
    }
}

/// No two entries hold keys the later of which equals the earlier: the scan
/// that inserted the later one saw the earlier one and found it different.
pub open spec fn keys_distinct<K: PartialEq, V>(s: Seq<(K, V)>) -> bool {
    forall|i: int, j: int| 0 <= i < j < s.len() ==> !(#[trigger] s[j].0.eq_spec(&s[i].0))
}

/// A scan that equals the key at `i` and nothing before it finds `i`.
pub proof fn lemma_lookup_found<K: PartialEq, V>(s: Seq<(K, V)>, key: K, i: int)
    requires
        0 <= i < s.len(),
        key.eq_spec(&s[i].0),
        forall|j: int| 0 <= j < i ==> !key.eq_spec(&(#[trigger] s[j]).0),
    ensures
        lookup_spec(s, key) == Some(i),
    decreases s.len(),
{
    if i > 0 {
        let t = s.drop_first();
        assert(forall|j: int| 0 <= j < i - 1 ==> (#[trigger] t[j]) == s[j + 1]);
        lemma_lookup_found(t, key, i - 1);
    }
}

/// A scan that equals no key at all finds nothing.
pub proof fn lemma_lookup_not_found<K: PartialEq, V>(s: Seq<(K, V)>, key: K)
    requires
        forall|j: int| 0 <= j < s.len() ==> !key.eq_spec(&(#[trigger] s[j]).0),
    ensures
        lookup_spec(s, key) is None,
    decreases s.len(),
{
    if s.len() > 0 {
        let t = s.drop_first();
        assert(forall|j: int| 0 <= j < t.len() ==> (#[trigger] t[j]) == s[j + 1]);
        lemma_lookup_not_found(t, key);
    }
}

/// What a successful lookup means: the found index is in range, its key
/// equals the looked-up one, and no earlier key does.
pub proof fn lemma_lookup_props<K: PartialEq, V>(s: Seq<(K, V)>, key: K)
    ensures
        (match lookup_spec(s, key) {
            Some(i) => 0 <= i < s.len() && key.eq_spec(&s[i].0) && (forall|j: int|
                0 <= j < i ==> !key.eq_spec(&(#[trigger] s[j]).0)),
            None => forall|j: int| 0 <= j < s.len() ==> !key.eq_spec(&(#[trigger] s[j]).0),
        }),
    decreases s.len(),
{
    if s.len() > 0 && !key.eq_spec(&s[0].0) {
        let t = s.drop_first();
        assert(forall|j: int| 0 <= j < t.len() ==> (#[trigger] t[j]) == s[j + 1]);
        lemma_lookup_props(t, key);
        match lookup_spec(t, key) {
            Some(i) => {
                assert(lookup_spec(s, key) == Some(i + 1));
                assert(key.eq_spec(&s[i + 1].0)) by {
                    assert(t[i] == s[i + 1]);
                }
                assert forall|j: int| 0 <= j < i + 1 implies !key.eq_spec(
                    &(#[trigger] s[j]).0,
                ) by {
                    if j > 0 {
                        assert(t[j - 1] == s[j]);
                    }
                }
            },
            None => {
                assert forall|j: int| 0 <= j < s.len() implies !key.eq_spec(
                    &(#[trigger] s[j]).0,
                ) by {
                    if j > 0 {
                        assert(t[j - 1] == s[j]);
                    }
                }
            },
        }
    }
}

/// Idempotent lookup: once a key whose equality is reflexive has been
/// inserted at the end of a store that did not hold it, looking the same
/// key up finds exactly that entry. With `get_or_register_with`'s
/// contract this says a repeated registration returns the index the first
/// call claimed, leaves the store unchanged, and so never needs its
/// initializer.
pub proof fn lemma_lookup_after_insert<K: PartialEq, V>(s: Seq<(K, V)>, key: K, v: V)
    requires
        lookup_spec(s, key) is None,
        key.eq_spec(&key),
    ensures
        lookup_spec(s.push((key, v)), key) == Some(s.len() as int),
{
    lemma_lookup_props(s, key);
    let t = s.push((key, v));
    assert(t[s.len() as int].0 == key);
    assert(forall|j: int| 0 <= j < s.len() ==> (#[trigger] t[j]) == s[j]);
    lemma_lookup_found(t, key, s.len() as int);
}

/// A [`Registry`] of key-value pairs with insert-if-absent lookup.
///
/// A key may appear at most once; looking up a present key returns its
/// existing slot, and looking up an absent one claims a new slot. Lookup is
/// a linear scan: capacities are expected to be small and each caller
/// typically looks a key up once and keeps the slot index.
#[derive(Debug)]
pub struct RegistryMap<K, V, const CAPACITY: usize> {
    inner: Registry<(K, V), CAPACITY>,
}

impl<K, V, const CAPACITY: usize> View for RegistryMap<K, V, CAPACITY> {
    type V = Seq<(K, V)>;

    closed spec fn view(&self) -> Seq<(K, V)> {
        self.inner@
    }
}

impl<K: PartialEq, V, const CAPACITY: usize> RegistryMap<K, V, CAPACITY> {
    /// The map's invariant: the store is well formed and no key repeats.
    pub closed spec fn wf(&self) -> bool {
        &&& self.inner.wf()
        &&& keys_distinct(self@)
    }

    /// A well-formed map holds no repeated key.
    pub proof fn lemma_wf_keys_distinct(&self)
        requires
            self.wf(),
        ensures
            keys_distinct(self@),
    {
    }

    /// Returns a new, empty `RegistryMap` for up to `CAPACITY` pairs.
    pub fn new() -> (r: Self)
        ensures
            r.wf(),
            r@ == Seq::<(K, V)>::empty(),
    {
        RegistryMap { inner: Registry::new() }
    }

    /// Returns the slot index of the value under `key`, claiming a new slot
    /// with `init`'s result when the key is absent; `None` when the key is
    /// absent and the map is full. A present key's slot is returned as it
    /// is: `init` is not evaluated for it.
    pub fn get_or_register_with<F: FnOnce() -> V>(&mut self, key: K, init: F) -> (r: Option<
        usize,
    >)
        requires
            old(self).wf(),
            K::obeys_eq_spec(),
            call_requires(init, ()),
        ensures
            final(self).wf(),
            (match lookup_spec(old(self)@, key) {
                Some(j) => r == Some(j as usize) && final(self)@ == old(self)@,
                None => {
                    if old(self)@.len() < CAPACITY {
                        &&& r == Some(old(self)@.len() as usize)
                        &&& exists|v: V|
                            #[trigger] call_ensures(init, (), v) && final(self)@ == old(
                                self,
                            )@.push((key, v))
                    } else {
                        &&& r is None
                        &&& final(self)@ == old(self)@
                    }
                },
            }),
    {
        let n = self.inner.len();
        let mut i: usize = 0;
        while i < n
            invariant
                self.wf(),
                self == old(self),
                K::obeys_eq_spec(),
                n == self@.len(),
                i <= n,
                forall|j: int| 0 <= j < i ==> !key.eq_spec(&(#[trigger] self@[j]).0),
            decreases n - i,
        {
            let found = match self.inner.get(i) {
                Some(e) => key == e.0,
                None => vstd::pervasive::unreached(),
            };
            if found {
                proof {
                    lemma_lookup_found(self@, key, i as int);
                }
                return Some(i);
            }
            i = i + 1;
        }
        proof {
            lemma_lookup_not_found(self@, key);
        }
        if n < self.inner.capacity() {
            let value = init();
            match self.inner.try_register((key, value)) {
                Ok(idx) => Some(idx),
                Err(_) => vstd::pervasive::unreached(),
            }
        } else {
            None
        }
    }

    /// Returns the slot index of the value under `key`, claiming a new slot
    /// holding `value` when the key is absent; `None` when the key is
    /// absent and the map is full.
    pub fn get_or_register(&mut self, key: K, value: V) -> (r: Option<usize>)
        requires
            old(self).wf(),
            K::obeys_eq_spec(),
        ensures
            final(self).wf(),
            (match lookup_spec(old(self)@, key) {
                Some(j) => r == Some(j as usize) && final(self)@ == old(self)@,
                None => {
                    if old(self)@.len() < CAPACITY {
                        &&& r == Some(old(self)@.len() as usize)
                        &&& final(self)@ == old(self)@.push((key, value))
                    } else {
                        &&& r is None
                        &&& final(self)@ == old(self)@
                    }
                },
            }),
    {
        let init = (move || -> (v: V)
            ensures
                v == value,
            { value });
        self.get_or_register_with(key, init)
    }

    /// Returns the slot index of the value under `key`, claiming a new slot
    /// holding `V::default()` when the key is absent; `None` when the key
    /// is absent and the map is full. What `default` returns for an
    /// arbitrary `V` is not visible here, so the new entry is only said to
    /// be appended under `key`.
    pub fn get_or_register_default(&mut self, key: K) -> (r: Option<usize>) where V: Default
        requires
            old(self).wf(),
            K::obeys_eq_spec(),
        ensures
            final(self).wf(),
            (match lookup_spec(old(self)@, key) {
                Some(j) => r == Some(j as usize) && final(self)@ == old(self)@,
                None => {
                    if old(self)@.len() < CAPACITY {
                        &&& r == Some(old(self)@.len() as usize)
                        &&& final(self)@.len() == old(self)@.len() + 1
                        &&& forall|i: int|
                            0 <= i < old(self)@.len() ==> final(self)@[i] == old(self)@[i]
                        &&& final(self)@.last().0 == key
                    } else {
                        &&& r is None
                        &&& final(self)@ == old(self)@
                    }
                },
            }),
    {
        self.get_or_register_with(key, || V::default())
    }

    /// References to every pair, in claim order.
    pub fn iter(&self) -> (r: Vec<(&K, &V)>)
        requires
            self.wf(),
        ensures
            r@.len() == self@.len(),
            forall|i: int|
                0 <= i < self@.len() ==> *((#[trigger] r@[i]).0) == self@[i].0 && *(r@[i].1)
                    == self@[i].1,
    {
        let entries = self.inner.iter();
        let mut out: Vec<(&K, &V)> = Vec::new();
        let mut i: usize = 0;
        while i < entries.len()
            invariant
                entries@.len() == self@.len(),
                forall|j: int| 0 <= j < self@.len() ==> *(#[trigger] entries@[j]) == self@[j],
                i <= entries@.len(),
                out@.len() == i,
                forall|j: int|
                    0 <= j < i ==> *((#[trigger] out@[j]).0) == self@[j].0 && *(out@[j].1)
                        == self@[j].1,
            decreases entries@.len() - i,
        {
            let e = entries[i];
            out.push((&e.0, &e.1));
            i = i + 1;
        }
        out
    }

    /// References to every key, in claim order.
    pub fn keys(&self) -> (r: Vec<&K>)
        requires
            self.wf(),
        ensures
            r@.len() == self@.len(),
            forall|i: int| 0 <= i < self@.len() ==> *(#[trigger] r@[i]) == self@[i].0,
    {
        let entries = self.inner.iter();
        let mut out: Vec<&K> = Vec::new();
        let mut i: usize = 0;
        while i < entries.len()
            invariant
                entries@.len() == self@.len(),
                forall|j: int| 0 <= j < self@.len() ==> *(#[trigger] entries@[j]) == self@[j],
                i <= entries@.len(),
                out@.len() == i,
                forall|j: int| 0 <= j < i ==> *(#[trigger] out@[j]) == self@[j].0,
            decreases entries@.len() - i,
        {
            let e = entries[i];
            out.push(&e.0);
            i = i + 1;
        }
        out
    }

    /// References to every value, in claim order.
    pub fn values(&self) -> (r: Vec<&V>)
        requires
            self.wf(),
        ensures
            r@.len() == self@.len(),
            forall|i: int| 0 <= i < self@.len() ==> *(#[trigger] r@[i]) == self@[i].1,
    {
        let entries = self.inner.iter();
        let mut out: Vec<&V> = Vec::new();
        let mut i: usize = 0;
        while i < entries.len()
            invariant
                entries@.len() == self@.len(),
                forall|j: int| 0 <= j < self@.len() ==> *(#[trigger] entries@[j]) == self@[j],
                i <= entries@.len(),
                out@.len() == i,
                forall|j: int| 0 <= j < i ==> *(#[trigger] out@[j]) == self@[j].1,
            decreases entries@.len() - i,
        {
            let e = entries[i];
            out.push(&e.1);
            i = i + 1;
        }
        out
    }

    /// A reference to the key in slot `idx`.
    pub fn key_at(&self, idx: usize) -> (k: &K)
        requires
            self.wf(),
            idx < self@.len(),
        ensures
            *k == self@[idx as int].0,
    {
        match self.inner.get(idx) {
            Some(e) => &e.0,
            None => vstd::pervasive::unreached(),
        }
    }

    /// A reference to the value in slot `idx`.
    pub fn value_at(&self, idx: usize) -> (v: &V)
        requires
            self.wf(),
            idx < self@.len(),
        ensures
            *v == self@[idx as int].1,
    {
        match self.inner.get(idx) {
            Some(e) => &e.1,
            None => vstd::pervasive::unreached(),
        }
    }

    /// A mutable reference to the value in slot `idx`; the key stays as it
    /// is.
    pub fn value_at_mut(&mut self, idx: usize) -> (v: &mut V)
        requires
            old(self).wf(),
            idx < old(self)@.len(),
        ensures
            *v == old(self)@[idx as int].1,
            final(self)@ == old(self)@.update(
                idx as int,
                (old(self)@[idx as int].0, *final(v)),
            ),
            final(self).wf(),
    {
        let pair = self.inner.get_mut(idx);
        &mut pair.1
    }

    /// The number of pairs currently stored.
    pub fn len(&self) -> (n: usize)
        ensures
            n == self@.len(),
    {
        self.inner.len()
    }

    /// Whether no pair is stored.
    pub fn is_empty(&self) -> (r: bool)
        ensures
            r == (self@.len() == 0),
    {
        self.inner.is_empty()
    }

    /// The total number of pairs that may be stored.
    pub fn capacity(&self) -> (c: usize)
        ensures
            c == CAPACITY,
    {
        self.inner.capacity()
    }

    /// Whether no more pairs can be stored.
    pub fn is_full(&self) -> (r: bool)
        ensures
            r == (self@.len() == CAPACITY),
    {
        self.inner.is_full()
    }

    /// How many more pairs can be stored.
    pub fn remaining_capacity(&self) -> (n: usize)
        requires
            self.wf(),
        ensures
            n == CAPACITY - self@.len(),
    {
        self.inner.remaining_capacity()
    }
}

} // verus!
