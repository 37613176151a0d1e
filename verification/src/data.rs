//! The two-sided data tables: sparse, mutable maps for the startup phase
//! and their dense, frozen counterparts for the rest of the run.
//!
//! A [`RegistryDataCell`] pairs an id-to-value map with an optional
//! value-to-id map. During startup both sides are sparse and growable;
//! freezing converts the id side into a dense array indexed directly by the
//! numeric id, after checking that every id the registry issued has a
//! value. Tables that must keep accepting new ids at runtime ("changable"
//! tables) simply skip the conversion and keep the sparse representation.

use vstd::prelude::*;

use crate::id::RegistryId;
use crate::Registry;
use crate::RegistryIdNumeric;
use crate::RegistryItem;

verus! {

use core::marker::PhantomData;
use vstd::std_specs::cmp::PartialEqSpec;

/// Whether `T`'s `==` agrees with mathematical equality on `T`.
pub open spec fn eq_exact<T: PartialEq>() -> bool {
    &&& T::obeys_eq_spec()
    &&& forall|a: T, b: T| #[trigger] a.eq_spec(&b) <==> a == b
}

/// Whether every clone of a `T` equals the value it was cloned from.
pub open spec fn clone_exact<T: Clone>() -> bool {
    forall|a: T, b: T| #[trigger] call_ensures(T::clone, (&a,), b) ==> b == a
}

/// A registry id's clone is the id itself.
pub proof fn lemma_registry_id_clone_exact<R: Registry>()
    ensures
        clone_exact::<RegistryId<R>>(),
{
    assert forall|a: RegistryId<R>, b: RegistryId<R>| #[trigger] call_ensures(
        RegistryId::<R>::clone,
        (&a,),
        b,
    ) implies b == a by {}
}

/// The mathematical reading of a map type used by a data table: its
/// contents as a `Map`, its well-formedness, which keys it accepts for
/// insertion, and which numeric ids it reports missing when a table is
/// validated against a registry's id count.
pub trait RegistryMapView<K, V> {
    /// The key-value pairs currently stored.
    spec fn contents(&self) -> Map<K, V>;

    /// The representation invariant of the map.
    spec fn map_wf(&self) -> bool;

    /// Whether an insert at this key is accepted. Sparse maps accept every
    /// key; a frozen map only replaces values at keys it already holds.
    spec fn may_insert(&self, key: K) -> bool;

    /// The numeric ids in `[0, count)` that lack a value, for maps keyed
    /// by registry ids; maps keyed by values report none.
    spec fn missing_ids(&self, count: int) -> Set<RegistryIdNumeric>;
}

/// Insertion into a map of a data table.
pub trait RegistryMapInsert<K, V>: RegistryMapView<K, V> {
    /// Store `value` at `key`, returning whatever the key held before.
    fn insert(&mut self, key: K, value: V) -> (prev: Option<V>)
        requires
            old(self).map_wf(),
            old(self).may_insert(key),
        ensures
            final (self).map_wf(),
            final (self).contents() == old(self).contents().insert(key, value),
            match prev {
                Some(p) => old(self).contents().contains_key(key) && p == old(
                    self,
                ).contents()[key],
                None => !old(self).contents().contains_key(key),
            },
            forall|k: K| old(self).may_insert(k) ==> final (self).may_insert(k),
            final (self).may_insert(key),
    ;
}

/// Lookup in a map of a data table.
pub trait RegistryMapGet<K, V>: RegistryMapView<K, V> {
    /// The value stored at `key`, if any.
    fn get(&self, key: &K) -> (r: Option<&V>)
        requires
            self.map_wf(),
        ensures
            match r {
                Some(v) => self.contents().contains_key(*key) && *v == self.contents()[*key],
                None => !self.contents().contains_key(*key),
            },
    ;
}

/// Mutable lookup in a map of a data table.
pub trait RegistryMapGetMut<K, V>: RegistryMapView<K, V> {
    /// A mutable reference to the value stored at `key`, if any.
    fn get_mut(&mut self, key: &K) -> (r: Option<&mut V>)
        requires
            old(self).map_wf(),
        ensures
            final (self).map_wf(),
            forall|k: K|
                old(self).may_insert(k) <==> #[trigger] final (self).may_insert(k),
            match r {
                Some(v) => {
                    &&& old(self).contents().contains_key(*key)
                    &&& *v == old(self).contents()[*key]
                    &&& forall|k: K|
                        #[trigger] final (self).contents().contains_key(k)
                            <==> old(self).contents().contains_key(k)
                    &&& final (self).contents()[*key] == *final (v)
                    &&& forall|k: K|
                        old(self).contents().contains_key(k) && k != *key
                            ==> #[trigger] final (self).contents()[k] == old(self).contents()[k]
                },
                None => {
                    &&& !old(self).contents().contains_key(*key)
                    &&& final (self).contents() == old(self).contents()
                },
            },
    ;
}

/// The error reported when a table is frozen while one or more ids the
/// registry issued still lack a value. It carries each missing numeric id,
/// in ascending order, so the host can log every gap before aborting.
#[derive(Debug)]
pub struct IncompleteRegistration {
    pub(crate) ids: Vec<RegistryIdNumeric>,
}

impl IncompleteRegistration {
    /// The missing ids, as a mathematical sequence.
    pub open(crate) spec fn spec_missing(&self) -> Seq<RegistryIdNumeric> {
        self.ids@
    }

    /// The numeric ids that lacked a value, in ascending order.
    pub fn missing(&self) -> (r: &Vec<RegistryIdNumeric>)
        ensures
            r@ == self.spec_missing(),
    {
        &self.ids
    }
}

/// One-time conversion of a map of a data table into its frozen form.
pub trait RegistryMapConvert<K, V>: RegistryMapView<K, V> + Sized {
    /// The frozen form of the map.
    type Converted: RegistryMapView<K, V>;

    /// Convert this map into its frozen form, validating it against the
    /// `count` of ids the registry has issued: conversion succeeds exactly
    /// when no id is missing, and then preserves the contents bit for bit.
    /// On failure, every missing id is reported, in ascending order.
    fn convert(self, count: usize) -> (r: Result<Self::Converted, IncompleteRegistration>)
        requires
            self.map_wf(),
            count <= 0xFFFF,
        ensures
            match r {
                Ok(c) => {
                    &&& self.missing_ids(count as int).is_empty()
                    &&& c.map_wf()
                    &&& c.contents() == self.contents()
                },
                Err(e) => {
                    &&& !self.missing_ids(count as int).is_empty()
                    &&& e.spec_missing().to_set() == self.missing_ids(count as int)
                    &&& forall|i: int, j: int|
                        0 <= i < j < e.spec_missing().len() ==> e.spec_missing()[i] < e.spec_missing()[j]
                },
            },
    ;
}

impl<K, V> RegistryMapView<K, V> for () {
    open spec fn contents(&self) -> Map<K, V> {
        Map::empty()
    }

    open spec fn map_wf(&self) -> bool {
        true
    }

    open spec fn may_insert(&self, key: K) -> bool {
        true
    }

    open spec fn missing_ids(&self, count: int) -> Set<RegistryIdNumeric> {
        Set::empty()
    }
}

impl<K, V> RegistryMapConvert<K, V> for () {
    type Converted = ();

    fn convert(self, count: usize) -> (r: Result<Self::Converted, IncompleteRegistration>) {
        Ok(())
    }
}

/// The sparse, growable id-to-value map used during the startup phase:
/// a vector of optional slots indexed directly by the raw numeric id.
pub struct RegistryIdMap<R: Registry, V> {
    pub(crate) objects: Vec<Option<V>>,
    pub(crate) marker: PhantomData<R>,
}

impl<R: Registry, V> RegistryIdMap<R, V> {
    /// The slots, indexed by raw numeric id; `None` is an id without a
    /// value.
    pub open(crate) spec fn entries(&self) -> Seq<Option<V>> {
        self.objects@
    }

    /// Whether the raw id `i` has a value.
    pub open(crate) spec fn has_id(&self, i: int) -> bool {
        0 <= i < self.entries().len() && self.entries()[i] is Some
    }
}

impl<R: Registry, V> RegistryMapView<RegistryId<R>, V> for RegistryIdMap<R, V> {
    open spec fn contents(&self) -> Map<RegistryId<R>, V> {
        Map::new(
            |k: RegistryId<R>| self.has_id(k.spec_numeric() as int),
            |k: RegistryId<R>| self.entries()[k.spec_numeric() as int].unwrap(),
        )
    }

    open spec fn map_wf(&self) -> bool {
        &&& self.entries().len() <= 0x10000
        &&& self.entries().len() > 0 ==> self.entries().last() is Some
    }

    open spec fn may_insert(&self, key: RegistryId<R>) -> bool {
        true
    }

    open spec fn missing_ids(&self, count: int) -> Set<RegistryIdNumeric> {
        Set::new(
            |i: RegistryIdNumeric| ((i as int) < count || (i as int) < self.entries().len())
                && !self.has_id(i as int),
        )
    }
}

impl<R: Registry, V> RegistryMapInsert<RegistryId<R>, V> for RegistryIdMap<R, V> {
    fn insert(&mut self, key: RegistryId<R>, value: V) -> (prev: Option<V>) {
        let index = key.numeric() as usize;
        while self.objects.len() <= index
            invariant
                self.objects@.len() >= old(self).objects@.len(),
                self.objects@.len() <= index + 1 || self.objects@.len() == old(
                    self,
                ).objects@.len(),
                forall|j: int|
                    0 <= j < old(self).objects@.len() ==> self.objects@[j] == old(
                        self,
                    ).objects@[j],
                forall|j: int|
                    old(self).objects@.len() <= j < self.objects@.len() ==> self.objects@[j]
                        is None,
            decreases index + 1 - self.objects@.len(),
        {
            self.objects.push(None);
        }
        let slot = &mut self.objects[index];
        let prev = slot.take();
        *slot = Some(value);
        proof {
            assert forall|k: RegistryId<R>| true implies {
                &&& (#[trigger] self.contents().contains_key(k) <==> old(self).contents().insert(
                    key,
                    value,
                ).contains_key(k))
                &&& (self.contents().contains_key(k) ==> self.contents()[k] == old(
                    self,
                ).contents().insert(key, value)[k])
            } by {
                crate::id::lemma_registry_id_numeric_injective(k, key);
            }
            assert(self.contents() =~= old(self).contents().insert(key, value));
        }
        prev
    }
}

impl<R: Registry, V> RegistryMapGet<RegistryId<R>, V> for RegistryIdMap<R, V> {
    fn get(&self, key: &RegistryId<R>) -> (r: Option<&V>) {
        let index = key.numeric() as usize;
        if index < self.objects.len() {
            self.objects[index].as_ref()
        } else {
            None
        }
    }
}

impl<R: Registry, V> RegistryMapGetMut<RegistryId<R>, V> for RegistryIdMap<R, V> {
    fn get_mut(&mut self, key: &RegistryId<R>) -> (r: Option<&mut V>) {
        let index = key.numeric() as usize;
        if index < self.objects.len() {
            self.objects[index].as_mut()
        } else {
            None
        }
    }
}

/// The dense, frozen id-to-value map used after the startup phase: a
/// fixed-size array indexed directly by the raw numeric id. It only ever
/// replaces values at existing ids; it cannot grow.
pub struct ConvertedRegistryIdMap<R: Registry, V> {
    pub(crate) objects: Vec<V>,
    pub(crate) marker: PhantomData<R>,
}

impl<R: Registry, V> ConvertedRegistryIdMap<R, V> {
    /// The dense array of values, indexed by raw numeric id.
    pub open(crate) spec fn entries(&self) -> Seq<V> {
        self.objects@
    }
}

impl<R: Registry, V> RegistryMapView<RegistryId<R>, V> for ConvertedRegistryIdMap<R, V> {
    open spec fn contents(&self) -> Map<RegistryId<R>, V> {
        Map::new(
            |k: RegistryId<R>| (k.spec_numeric() as int) < self.entries().len(),
            |k: RegistryId<R>| self.entries()[k.spec_numeric() as int],
        )
    }

    open spec fn map_wf(&self) -> bool {
        true
    }

    open spec fn may_insert(&self, key: RegistryId<R>) -> bool {
        (key.spec_numeric() as int) < self.entries().len()
    }

    open spec fn missing_ids(&self, count: int) -> Set<RegistryIdNumeric> {
        Set::empty()
    }
}

impl<R: Registry, V> RegistryMapGet<RegistryId<R>, V> for ConvertedRegistryIdMap<R, V> {
    fn get(&self, key: &RegistryId<R>) -> (r: Option<&V>) {
        let index = key.numeric() as usize;
        if index < self.objects.len() {
            Some(&self.objects[index])
        } else {
            None
        }
    }
}

impl<R: Registry, V> RegistryMapGetMut<RegistryId<R>, V> for ConvertedRegistryIdMap<R, V> {
    fn get_mut(&mut self, key: &RegistryId<R>) -> (r: Option<&mut V>) {
        let index = key.numeric() as usize;
        if index < self.objects.len() {
            Some(&mut self.objects[index])
        } else {
            None
        }
    }
}

impl<R: Registry, V> RegistryMapInsert<RegistryId<R>, V> for ConvertedRegistryIdMap<R, V> {
    /// Replace the value at an id the frozen map already holds. An id
    /// issued only after freezing has no slot here — the dense array
    /// cannot grow — so such a key is ruled out by `may_insert`.
    fn insert(&mut self, key: RegistryId<R>, value: V) -> (prev: Option<V>) {
        let index = key.numeric() as usize;
        let ghost inserted = value;
        let mut slot_value = value;
        core::mem::swap(&mut self.objects[index], &mut slot_value);
        proof {
            assert forall|k: RegistryId<R>| true implies {
                &&& (#[trigger] self.contents().contains_key(k) <==> old(self).contents().insert(
                    key,
                    inserted,
                ).contains_key(k))
                &&& (self.contents().contains_key(k) ==> self.contents()[k] == old(
                    self,
                ).contents().insert(key, inserted)[k])
            } by {
                crate::id::lemma_registry_id_numeric_injective(k, key);
            }
            assert(self.contents() =~= old(self).contents().insert(key, inserted));
        }
        Some(slot_value)
    }
}

impl<R: Registry, V> RegistryMapConvert<RegistryId<R>, V> for RegistryIdMap<R, V> {
    type Converted = ConvertedRegistryIdMap<R, V>;

    /// Freeze the sparse map into the dense array, after checking that
    /// every id in `[0, count)` — and every slot the sparse map grew for —
    /// has a value.
    fn convert(self, count: usize) -> (r: Result<Self::Converted, IncompleteRegistration>) {
        broadcast use vstd::seq_lib::lemma_seq_contains_after_push;

        let ghost orig = self.entries();
        let len = self.objects.len();
        let n = if count > len {
            count
        } else {
            len
        };
        let mut missing: Vec<RegistryIdNumeric> = Vec::new();
        let mut i: usize = 0;
        while i < n
            invariant
                i <= n,
                n == if count > orig.len() {
                    count as int
                } else {
                    orig.len() as int
                },
                count <= 0xFFFF,
                orig.len() <= 0x10000,
                len == orig.len(),
                self.entries() == orig,
                forall|p: int|
                    0 <= p < missing@.len() ==> (#[trigger] missing@[p] as int) < i
                        && self.missing_ids(count as int).contains(missing@[p]),
                forall|q: RegistryIdNumeric|
                    (q as int) < i && self.missing_ids(count as int).contains(q)
                        ==> missing@.to_set().contains(q),
                forall|p1: int, p2: int|
                    0 <= p1 < p2 < missing@.len() ==> missing@[p1] < missing@[p2],
            decreases n - i,
        {
            let absent = if i >= len {
                true
            } else {
                self.objects[i].is_none()
            };
            let ghost m0 = missing@;
            if absent {
                missing.push(i as u16);
            }
            proof {
                assert forall|q: RegistryIdNumeric|
                    (q as int) < i + 1 && self.missing_ids(count as int).contains(q) implies missing@.to_set().contains(
                    q,
                ) by {
                    if (q as int) < i {
                        assert(m0.to_set().contains(q));
                        assert(m0.contains(q));
                        let p = choose|p: int| 0 <= p < m0.len() && m0[p] == q;
                        assert(missing@[p] == q);
                        assert(missing@.contains(q));
                    } else {
                        assert(self.missing_ids(count as int).contains(q));
                        assert(!self.has_id(q as int));
                        assert(absent);
                        assert(missing@[missing@.len() - 1] == q);
                        assert(missing@.contains(q));
                    }
                }
            }
            i = i + 1;
        }
        if missing.len() > 0 {
            proof {
                assert forall|q: RegistryIdNumeric|
                    missing@.to_set().contains(q) implies self.missing_ids(count as int).contains(
                    q,
                ) by {
                    assert(missing@.contains(q));
                    let p = choose|p: int| 0 <= p < missing@.len() && missing@[p] == q;
                    assert(self.missing_ids(count as int).contains(missing@[p]));
                }
                assert forall|q: RegistryIdNumeric|
                    self.missing_ids(count as int).contains(q) implies missing@.to_set().contains(
                    q,
                ) by {
                    assert((q as int) < n);
                }
                assert(missing@.to_set() =~= self.missing_ids(count as int));
                assert(self.missing_ids(count as int).contains(missing@[0]));
                assert(!self.missing_ids(count as int).is_empty());
            }
            return Err(IncompleteRegistration { ids: missing });
        }
        proof {
            assert forall|q: RegistryIdNumeric|
                !self.missing_ids(count as int).contains(q) by {
                if self.missing_ids(count as int).contains(q) {
                    assert((q as int) < n);
                    assert(missing@.to_set().contains(q));
                    assert(missing@.contains(q));
                    let p = choose|p: int| 0 <= p < missing@.len() && missing@[p] == q;
                    assert(false);
                }
            }
            assert(self.missing_ids(count as int) =~= Set::empty());
            assert forall|j: int| 0 <= j < orig.len() implies orig[j] is Some by {
                if orig[j] is None {
                    assert(self.missing_ids(count as int).contains(j as u16));
                }
            }
        }
        let mut objects = self.objects;
        let mut out: Vec<V> = Vec::new();
        let mut j: usize = 0;
        while j < objects.len()
            invariant
                j <= objects@.len(),
                objects@.len() == orig.len(),
                forall|k: int| j <= k < orig.len() ==> objects@[k] == orig[k],
                forall|k: int| 0 <= k < orig.len() ==> orig[k] is Some,
                out@.len() == j,
                forall|k: int| 0 <= k < j ==> out@[k] == orig[k].unwrap(),
            decreases objects@.len() - j,
        {
            let slot = &mut objects[j];
            let taken = slot.take();
            proof {
                assert(taken == orig[j as int]);
            }
            match taken {
                Some(x) => out.push(x),
                None => {
                    proof {
                        assert(false);
                    }
                },
            }
            j = j + 1;
        }
        let converted = ConvertedRegistryIdMap { objects: out, marker: PhantomData };
        proof {
            assert forall|k: RegistryId<R>| true implies {
                &&& (#[trigger] converted.contents().contains_key(k) <==> self.contents().contains_key(
                    k,
                ))
                &&& (converted.contents().contains_key(k) ==> converted.contents()[k]
                    == self.contents()[k])
            } by {}
            assert(converted.contents() =~= self.contents());
        }
        Ok(converted)
    }
}

/// The values present in a sequence of optional slots, in slot order.
pub open spec fn seq_present<V>(s: Seq<Option<V>>) -> Seq<V>
    decreases s.len(),
{
    if s.len() == 0 {
        Seq::empty()
    } else {
        match s.last() {
            Some(v) => seq_present(s.drop_last()).push(v),
            None => seq_present(s.drop_last()),
        }
    }
}

impl<R: Registry, V> RegistryIdMap<R, V> {
    /// The values present in the map, in ascending id order.
    pub fn iter(&self) -> (r: Vec<&V>)
        ensures
            r@.map_values(|v: &V| *v) == seq_present(self.entries()),
    {
        let len = self.objects.len();
        let mut out: Vec<&V> = Vec::new();
        let mut i: usize = 0;
        while i < len
            invariant
                i <= len,
                len == self.entries().len(),
                out@.map_values(|v: &V| *v) == seq_present(self.entries().take(i as int)),
            decreases len - i,
        {
            proof {
                assert(self.entries().take(i + 1).drop_last() =~= self.entries().take(i as int));
                assert(self.entries().take(i + 1).last() == self.entries()[i as int]);
            }
            if let Some(v) = self.objects[i].as_ref() {
                out.push(v);
                proof {
                    assert(out@.map_values(|v: &V| *v) =~= seq_present(self.entries().take(i + 1)));
                }
            } else {
                proof {
                    assert(out@.map_values(|v: &V| *v) =~= seq_present(self.entries().take(i + 1)));
                }
            }
            i = i + 1;
        }
        proof {
            assert(self.entries().take(len as int) =~= self.entries());
        }
        out
    }

    /// Mutable access to the slots of the map, indexed by raw numeric id;
    /// an empty slot is an id without a value.
    pub fn iter_mut(&mut self) -> (r: &mut Vec<Option<V>>)
        ensures
            r@ == old(self).entries(),
            final (self).entries() == final (r)@,
    {
        &mut self.objects
    }
}

impl<R: Registry, V> ConvertedRegistryIdMap<R, V> {
    /// The dense array of values, indexed by raw numeric id.
    pub fn iter(&self) -> (r: &Vec<V>)
        ensures
            r@ == self.entries(),
    {
        &self.objects
    }

    /// Mutable access to the dense array of values, indexed by raw numeric
    /// id. Growing the array would pretend to hold ids the registry never
    /// issued; replace values, do not resize.
    pub fn iter_mut(&mut self) -> (r: &mut Vec<V>)
        ensures
            r@ == old(self).entries(),
            final (self).entries() == final (r)@,
    {
        &mut self.objects
    }
}

impl<R: Registry, V> Default for RegistryIdMap<R, V> {
    /// An empty sparse map: no id has a value.
    fn default() -> (r: Self)
        ensures
            r.entries() == Seq::<Option<V>>::empty(),
            r.contents() == Map::<RegistryId<R>, V>::empty(),
    {
        let r = RegistryIdMap { objects: Vec::new(), marker: PhantomData };
        proof {
            assert(r.contents() =~= Map::<RegistryId<R>, V>::empty());
        }
        r
    }
}

/// Whether the keys of an association list are pairwise distinct.
pub open spec fn distinct_keys<R: Registry, V>(s: Seq<(V, RegistryId<R>)>) -> bool {
    forall|p1: int, p2: int| 0 <= p1 < p2 < s.len() ==> (#[trigger] s[p1]).0 != (#[trigger] s[p2]).0
}

/// The index of the pair holding key `k`, or `-1` if no pair does.
pub open spec fn key_index<R: Registry, V>(s: Seq<(V, RegistryId<R>)>, k: V) -> int
    decreases s.len(),
{
    if s.len() == 0 {
        -1
    } else if s.last().0 == k {
        s.len() - 1
    } else {
        key_index(s.drop_last(), k)
    }
}

/// Where `key_index` points: at a pair holding `k` when one exists, and
/// nowhere otherwise.
pub proof fn lemma_key_index<R: Registry, V>(s: Seq<(V, RegistryId<R>)>, k: V)
    ensures
        key_index(s, k) == -1 ==> forall|p: int| 0 <= p < s.len() ==> (#[trigger] s[p]).0 != k,
        key_index(s, k) != -1 ==> 0 <= key_index(s, k) < s.len() && s[key_index(s, k)].0 == k,
    decreases s.len(),
{
    if s.len() != 0 {
        lemma_key_index(s.drop_last(), k);
        if key_index(s, k) == -1 {
            assert forall|p: int| 0 <= p < s.len() implies (#[trigger] s[p]).0 != k by {
                if p < s.len() - 1 {
                    assert(s.drop_last()[p] == s[p]);
                }
            }
        }
    }
}

/// With distinct keys, `key_index` finds exactly the pair holding `k`.
pub proof fn lemma_key_index_at<R: Registry, V>(s: Seq<(V, RegistryId<R>)>, k: V, p: int)
    requires
        distinct_keys(s),
        0 <= p < s.len(),
        s[p].0 == k,
    ensures
        key_index(s, k) == p,
    decreases s.len(),
{
    if p == s.len() - 1 {
        assert(s.last().0 == k);
    } else {
        assert(s.last().0 != k);
        lemma_key_index_at(s.drop_last(), k, p);
    }
}

/// `key_index` only reads the keys: two lists with the same keys slot for
/// slot agree on it.
pub proof fn lemma_key_index_same_keys<R: Registry, V>(
    s1: Seq<(V, RegistryId<R>)>,
    s2: Seq<(V, RegistryId<R>)>,
    k: V,
)
    requires
        s1.len() == s2.len(),
        forall|p: int| 0 <= p < s1.len() ==> (#[trigger] s1[p]).0 == (#[trigger] s2[p]).0,
    ensures
        key_index(s1, k) == key_index(s2, k),
    decreases s1.len(),
{
    if s1.len() != 0 {
        lemma_key_index_same_keys(s1.drop_last(), s2.drop_last(), k);
    }
}

/// The sparse value-to-id map of a two-sided table: an association list
/// from values back to registry ids, with pairwise distinct keys. It plays
/// the role a hash map would play, with the same logical contract, and its
/// conversion is the identity — the frozen form of a value-keyed map is
/// the map itself.
pub struct RegistryValueMap<R: Registry, V> {
    pub(crate) pairs: Vec<(V, RegistryId<R>)>,
}

impl<R: Registry, V> RegistryValueMap<R, V> {
    /// The stored pairs, in insertion order.
    pub open(crate) spec fn entries(&self) -> Seq<(V, RegistryId<R>)> {
        self.pairs@
    }
}

impl<R: Registry, V: PartialEq> RegistryMapView<V, RegistryId<R>> for RegistryValueMap<R, V> {
    open spec fn contents(&self) -> Map<V, RegistryId<R>> {
        Map::new(
            |k: V| key_index(self.entries(), k) != -1,
            |k: V| self.entries()[key_index(self.entries(), k)].1,
        )
    }

    open spec fn map_wf(&self) -> bool {
        &&& eq_exact::<V>()
        &&& distinct_keys(self.entries())
    }

    open spec fn may_insert(&self, key: V) -> bool {
        true
    }

    open spec fn missing_ids(&self, count: int) -> Set<RegistryIdNumeric> {
        Set::empty()
    }
}

impl<R: Registry, V: PartialEq> RegistryMapGet<V, RegistryId<R>> for RegistryValueMap<R, V> {
    fn get(&self, key: &V) -> (r: Option<&RegistryId<R>>) {
        let len = self.pairs.len();
        let mut p: usize = 0;
        while p < len
            invariant
                p <= len,
                len == self.entries().len(),
                self.map_wf(),
                forall|q: int| 0 <= q < p ==> (#[trigger] self.entries()[q]).0 != *key,
            decreases len - p,
        {
            if self.pairs[p].0 == *key {
                proof {
                    lemma_key_index_at(self.entries(), *key, p as int);
                }
                return Some(&self.pairs[p].1);
            }
            p = p + 1;
        }
        proof {
            lemma_key_index(self.entries(), *key);
        }
        None
    }
}

impl<R: Registry, V: PartialEq> RegistryMapInsert<V, RegistryId<R>> for RegistryValueMap<R, V> {
    fn insert(&mut self, key: V, value: RegistryId<R>) -> (prev: Option<RegistryId<R>>) {
        let len = self.pairs.len();
        let mut p: usize = 0;
        while p < len
            invariant
                p <= len,
                len == self.entries().len(),
                old(self).map_wf(),
                self == old(self),
                forall|q: int| 0 <= q < p ==> (#[trigger] self.entries()[q]).0 != key,
            decreases len - p,
        {
            if self.pairs[p].0 == key {
                proof {
                    lemma_key_index_at(self.entries(), key, p as int);
                }
                let slot = &mut self.pairs[p];
                let prev = slot.1;
                slot.1 = value;
                proof {
                    assert forall|k: V| true implies {
                        &&& (#[trigger] self.contents().contains_key(k) <==> old(
                            self,
                        ).contents().insert(key, value).contains_key(k))
                        &&& (self.contents().contains_key(k) ==> self.contents()[k] == old(
                            self,
                        ).contents().insert(key, value)[k])
                    } by {
                        lemma_key_index_same_keys(old(self).entries(), self.entries(), k);
                        lemma_key_index(old(self).entries(), k);
                        if k == key {
                            lemma_key_index_at(old(self).entries(), key, p as int);
                        }
                    }
                    assert(self.contents() =~= old(self).contents().insert(key, value));
                }
                return Some(prev);
            }
            p = p + 1;
        }
        proof {
            lemma_key_index(self.entries(), key);
        }
        self.pairs.push((key, value));
        proof {
            assert(self.entries().drop_last() =~= old(self).entries());
            assert forall|k: V| true implies {
                &&& (#[trigger] self.contents().contains_key(k) <==> old(
                    self,
                ).contents().insert(key, value).contains_key(k))
                &&& (self.contents().contains_key(k) ==> self.contents()[k] == old(
                    self,
                ).contents().insert(key, value)[k])
            } by {
                lemma_key_index(old(self).entries(), k);
                lemma_key_index(self.entries(), k);
            }
            assert(self.contents() =~= old(self).contents().insert(key, value));
        }
        None
    }
}

impl<R: Registry, V: PartialEq> RegistryMapConvert<V, RegistryId<R>> for RegistryValueMap<R, V> {
    type Converted = RegistryValueMap<R, V>;

    /// A value-keyed map needs no dense form: conversion is the identity
    /// and always succeeds.
    fn convert(self, count: usize) -> (r: Result<Self::Converted, IncompleteRegistration>) {
        Ok(self)
    }
}

impl<R: Registry, V> Default for RegistryValueMap<R, V> {
    /// An empty value-to-id map.
    fn default() -> (r: Self)
        ensures
            r.entries() == Seq::<(V, RegistryId<R>)>::empty(),
    {
        RegistryValueMap { pairs: Vec::new() }
    }
}

/// A table with two keys that point to each other. The second key (named
/// value here) should not be a registry id.
pub type RegistryTwoSidedDataCellId2Value<R, V> = RegistryDataCell<
    RegistryId<R>,
    V,
    ConvertedRegistryIdMap<R, V>,
    RegistryValueMap<R, V>,
>;

/// A table with two keys that point to each other, where the second key is
/// a registry id as well.
pub type RegistryTwoSidedDataCellId2Id<R1, R2> = RegistryDataCell<
    RegistryId<R1>,
    RegistryId<R2>,
    ConvertedRegistryIdMap<R1, RegistryId<R2>>,
    ConvertedRegistryIdMap<R2, RegistryId<R1>>,
>;

/// A table with one key and one extra column; the key points to the column.
pub type RegistryOneSidedDataCell<R, V> = RegistryDataCell<
    RegistryId<R>,
    V,
    ConvertedRegistryIdMap<R, V>,
>;

/// The same as [`RegistryTwoSidedDataCellId2Value`], but never frozen: it
/// does not require every id to be filled, and new ids can be added after
/// the startup phase.
pub type ChangableRegistryTwoSidedDataCellId2Value<R, V> = RegistryDataCell<
    RegistryId<R>,
    V,
    RegistryIdMap<R, V>,
    RegistryValueMap<R, V>,
>;

/// The same as [`RegistryTwoSidedDataCellId2Id`], but never frozen.
pub type ChangableRegistryTwoSidedDataCellId2Id<R1, R2> = RegistryDataCell<
    RegistryId<R1>,
    RegistryId<R2>,
    RegistryIdMap<R1, RegistryId<R2>>,
    RegistryIdMap<R2, RegistryId<R1>>,
>;

/// The same as [`RegistryOneSidedDataCell`], but never frozen.
pub type ChangableRegistryOneSidedDataCell<R, V> = RegistryDataCell<
    RegistryId<R>,
    V,
    RegistryIdMap<R, V>,
>;

/// A bidirectional data table: an id-to-value map `c1` and, for two-sided
/// tables, a value-to-id map `c2` (one-sided tables put `()` there). The
/// same type covers the mutable startup-phase representation and the
/// frozen one; which is which is decided by the map types `C1` and `C2`.
pub struct RegistryDataCell<I, V, C1, C2 = ()> {
    pub c1: C1,
    pub c2: C2,
    pub marker: PhantomData<(I, V)>,
}

impl<Id, Value, C1, C2> RegistryDataCell<Id, Value, C1, C2> {
    /// Whether the pair is held by both sides of the table: the id maps to
    /// the value and the value maps back to the id.
    pub open spec fn registered(&self, id: Id, value: Value) -> bool where
        C1: RegistryMapView<Id, Value>,
        C2: RegistryMapView<Value, Id>,
    {
        &&& self.c1.contents().contains_pair(id, value)
        &&& self.c2.contents().contains_pair(value, id)
    }

    /// Returns the value stored under the given id.
    pub fn value(&self, id: &Id) -> (r: Option<&Value>) where C1: RegistryMapGet<Id, Value>
        requires
            self.c1.map_wf(),
        ensures
            match r {
                Some(v) => self.c1.contents().contains_key(*id) && *v == self.c1.contents()[*id],
                None => !self.c1.contents().contains_key(*id),
            },
    {
        self.c1.get(id)
    }

    /// Returns the id stored under the given value.
    pub fn id(&self, value: &Value) -> (r: Option<&Id>) where C2: RegistryMapGet<Value, Id>
        requires
            self.c2.map_wf(),
        ensures
            match r {
                Some(i) => self.c2.contents().contains_key(*value) && *i == self.c2.contents()[*value],
                None => !self.c2.contents().contains_key(*value),
            },
    {
        self.c2.get(value)
    }

    /// Insert the pair into both sides of the table, returning whatever
    /// was stored before under that id and under that value (which lets a
    /// caller detect remaps).
    pub fn insert(&mut self, id: Id, value: Value) -> (r: (Option<Value>, Option<Id>)) where
        C1: RegistryMapInsert<Id, Value>,
        C2: RegistryMapInsert<Value, Id>,
        Value: Clone,
        Id: Clone,

        requires
            old(self).c1.map_wf(),
            old(self).c2.map_wf(),
            old(self).c1.may_insert(id),
            old(self).c2.may_insert(value),
            clone_exact::<Id>(),
            clone_exact::<Value>(),
        ensures
            final (self).c1.map_wf(),
            final (self).c2.map_wf(),
            final (self).c1.contents() == old(self).c1.contents().insert(id, value),
            final (self).c2.contents() == old(self).c2.contents().insert(value, id),
            final (self).registered(id, value),
            match r.0 {
                Some(p) => old(self).c1.contents().contains_key(id) && p == old(
                    self,
                ).c1.contents()[id],
                None => !old(self).c1.contents().contains_key(id),
            },
            match r.1 {
                Some(p) => old(self).c2.contents().contains_key(value) && p == old(
                    self,
                ).c2.contents()[value],
                None => !old(self).c2.contents().contains_key(value),
            },
            forall|k: Id| old(self).c1.may_insert(k) ==> final (self).c1.may_insert(k),
            forall|k: Value| old(self).c2.may_insert(k) ==> final (self).c2.may_insert(k),
    {
        let id2 = id.clone();
        let value2 = value.clone();
        let prev_value = self.c1.insert(id, value);
        let prev_id = self.c2.insert(value2, id2);
        (prev_value, prev_id)
    }

    /// Convert this table into its frozen form, validating each id-keyed
    /// side against the count of ids its registry has issued. Fails with
    /// the first side's missing ids if any id lacks a value.
    pub fn convert(self, count1: usize, count2: usize) -> (r: Result<
        RegistryDataCell<Id, Value, C1::Converted, C2::Converted>,
        IncompleteRegistration,
    >) where C1: RegistryMapConvert<Id, Value>, C2: RegistryMapConvert<Value, Id>
        requires
            self.c1.map_wf(),
            self.c2.map_wf(),
            count1 <= 0xFFFF,
            count2 <= 0xFFFF,
        ensures
            match r {
                Ok(c) => {
                    &&& self.c1.missing_ids(count1 as int).is_empty()
                    &&& self.c2.missing_ids(count2 as int).is_empty()
                    &&& c.c1.map_wf()
                    &&& c.c2.map_wf()
                    &&& c.c1.contents() == self.c1.contents()
                    &&& c.c2.contents() == self.c2.contents()
                },
                Err(e) => {
                    &&& (!self.c1.missing_ids(count1 as int).is_empty() || !self.c2.missing_ids(
                        count2 as int,
                    ).is_empty())
                    &&& e.spec_missing().to_set() == (if !self.c1.missing_ids(
                        count1 as int,
                    ).is_empty() {
                        self.c1.missing_ids(count1 as int)
                    } else {
                        self.c2.missing_ids(count2 as int)
                    })
                    &&& !e.spec_missing().to_set().is_empty()
                    &&& forall|i: int, j: int|
                        0 <= i < j < e.spec_missing().len() ==> e.spec_missing()[i]
                            < e.spec_missing()[j]
                },
            },
    {
        let c1 = match self.c1.convert(count1) {
            Ok(c) => c,
            Err(e) => {
                proof {
                    assert(e.spec_missing().to_set().contains(e.spec_missing()[0]));
                }
                return Err(e);
            },
        };
        let c2 = match self.c2.convert(count2) {
            Ok(c) => c,
            Err(e) => {
                proof {
                    assert(e.spec_missing().to_set().contains(e.spec_missing()[0]));
                }
                return Err(e);
            },
        };
        Ok(RegistryDataCell { c1, c2, marker: PhantomData })
    }
}

impl<R: Registry, Value, C1, C2> RegistryDataCell<RegistryId<R>, Value, C1, C2> {
    /// Returns the value stored under the id bound to the item `I`.
    pub fn value_ty<I>(&self, binding: &crate::id::ItemBinding<I>) -> (r: Option<&Value>) where
        I: RegistryItem<Registry = R>,
        C1: RegistryMapGet<RegistryId<R>, Value>,

        requires
            self.c1.map_wf(),
        ensures
            match r {
                Some(v) => self.c1.contents().contains_key(binding.spec_id()) && *v
                    == self.c1.contents()[binding.spec_id()],
                None => !self.c1.contents().contains_key(binding.spec_id()),
            },
    {
        let id = RegistryId::new(binding);
        self.c1.get(&id)
    }
}

impl<Id, Value, C1> RegistryDataCell<Id, Value, C1, ()> {
    /// A mutable reference to the value stored under the given id, if any.
    pub fn value_mut(&mut self, id: &Id) -> (r: Option<&mut Value>) where
        C1: RegistryMapGetMut<Id, Value>,

        requires
            old(self).c1.map_wf(),
        ensures
            final (self).c1.map_wf(),
            forall|k: Id| old(self).c1.may_insert(k) <==> #[trigger] final (self).c1.may_insert(k),
            match r {
                Some(v) => {
                    &&& old(self).c1.contents().contains_key(*id)
                    &&& *v == old(self).c1.contents()[*id]
                    &&& forall|k: Id|
                        #[trigger] final (self).c1.contents().contains_key(k) <==> old(
                            self,
                        ).c1.contents().contains_key(k)
                    &&& final (self).c1.contents()[*id] == *final (v)
                    &&& forall|k: Id|
                        old(self).c1.contents().contains_key(k) && k != *id
                            ==> #[trigger] final (self).c1.contents()[k] == old(
                            self,
                        ).c1.contents()[k]
                },
                None => {
                    &&& !old(self).c1.contents().contains_key(*id)
                    &&& final (self).c1.contents() == old(self).c1.contents()
                },
            },
    {
        self.c1.get_mut(id)
    }

    /// A mutable reference to the value stored under the given id,
    /// inserting the result of `with` first if the id had none.
    pub fn value_mut_or_insert_with<F: FnOnce() -> Value>(&mut self, id: &Id, with: F) -> (r:
        &mut Value) where
        Id: Clone,
        C1: RegistryMapGetMut<Id, Value>,
        C1: RegistryMapInsert<Id, Value>,

        requires
            old(self).c1.map_wf(),
            old(self).c1.may_insert(*id),
            clone_exact::<Id>(),
            call_requires(with, ()),
        ensures
            final (self).c1.map_wf(),
            old(self).c1.contents().contains_key(*id) ==> *r == old(self).c1.contents()[*id],
            !old(self).c1.contents().contains_key(*id) ==> call_ensures(with, (), *r),
            forall|k: Id|
                #[trigger] final (self).c1.contents().contains_key(k) <==> (old(
                    self,
                ).c1.contents().contains_key(k) || k == *id),
            final (self).c1.contents()[*id] == *final (r),
            forall|k: Id|
                old(self).c1.contents().contains_key(k) && k != *id ==> #[trigger] final (self).c1.contents()[k] == old(self).c1.contents()[k],
    {
        let absent = self.c1.get_mut(id).is_none();
        if absent {
            let _ = self.c1.insert(id.clone(), with());
        }
        match self.c1.get_mut(id) {
            Some(v) => v,
            None => vstd::pervasive::unreached(),
        }
    }

    /// A mutable reference to the value stored under the given id,
    /// inserting `Value::default()` first if the id had none.
    pub fn value_mut_or_insert_default(&mut self, id: &Id) -> (r: &mut Value) where
        Id: Clone,
        Value: Default,
        C1: RegistryMapGetMut<Id, Value>,
        C1: RegistryMapInsert<Id, Value>,

        requires
            old(self).c1.map_wf(),
            old(self).c1.may_insert(*id),
            clone_exact::<Id>(),
        ensures
            final (self).c1.map_wf(),
            old(self).c1.contents().contains_key(*id) ==> *r == old(self).c1.contents()[*id],
            !old(self).c1.contents().contains_key(*id) ==> call_ensures(Value::default, (), *r),
            forall|k: Id|
                #[trigger] final (self).c1.contents().contains_key(k) <==> (old(
                    self,
                ).c1.contents().contains_key(k) || k == *id),
            final (self).c1.contents()[*id] == *final (r),
            forall|k: Id|
                old(self).c1.contents().contains_key(k) && k != *id ==> #[trigger] final (self).c1.contents()[k] == old(self).c1.contents()[k],
    {
        let absent = self.c1.get_mut(id).is_none();
        if absent {
            let value = Value::default();
            let _ = self.c1.insert(id.clone(), value);
        }
        match self.c1.get_mut(id) {
            Some(v) => v,
            None => vstd::pervasive::unreached(),
        }
    }

    /// Insert the pair into the single side of a one-sided table,
    /// returning whatever the id held before.
    pub fn insert_one_sided(&mut self, id: Id, value: Value) -> (prev: Option<Value>) where
        C1: RegistryMapInsert<Id, Value>,

        requires
            old(self).c1.map_wf(),
            old(self).c1.may_insert(id),
        ensures
            final (self).c1.map_wf(),
            final (self).c1.contents() == old(self).c1.contents().insert(id, value),
            match prev {
                Some(p) => old(self).c1.contents().contains_key(id) && p == old(
                    self,
                ).c1.contents()[id],
                None => !old(self).c1.contents().contains_key(id),
            },
            forall|k: Id| old(self).c1.may_insert(k) ==> final (self).c1.may_insert(k),
    {
        self.c1.insert(id, value)
    }
}

impl<I, V, C1, C2> Default for RegistryDataCell<I, V, C1, C2> where C1: Default, C2: Default {
    /// A table whose two sides are the default (empty) maps.
    fn default() -> (r: Self)
        ensures
            call_ensures(C1::default, (), r.c1),
            call_ensures(C2::default, (), r.c2),
    {
        RegistryDataCell { c1: C1::default(), c2: C2::default(), marker: PhantomData }
    }
}


/// Law: for any two-sided table, a registered pair is found by both
/// lookups — the value under the pair's id is the pair's value, and the id
/// under the pair's value is the pair's id. The statement is generic over
/// the map representations, so it holds of a table before freezing and of
/// the frozen table alike.
pub proof fn lemma_two_sided_lookup<Id, Value, C1, C2>(
    cell: &RegistryDataCell<Id, Value, C1, C2>,
    id: Id,
    value: Value,
) where C1: RegistryMapView<Id, Value>, C2: RegistryMapView<Value, Id>
    requires
        cell.registered(id, value),
    ensures
        cell.c1.contents().contains_key(id) && cell.c1.contents()[id] == value,
        cell.c2.contents().contains_key(value) && cell.c2.contents()[value] == id,
{
}

/// Law: inserting a pair into a two-sided table registers it, and every
/// registered pair whose id and value both differ from the inserted ones
/// stays registered. The hypotheses are exactly what
/// [`RegistryDataCell::insert`] ensures of the table before and after.
pub proof fn lemma_insert_registers<Id, Value, C1, C2>(
    pre: &RegistryDataCell<Id, Value, C1, C2>,
    post: &RegistryDataCell<Id, Value, C1, C2>,
    id: Id,
    value: Value,
    other_id: Id,
    other_value: Value,
) where C1: RegistryMapView<Id, Value>, C2: RegistryMapView<Value, Id>
    requires
        post.c1.contents() == pre.c1.contents().insert(id, value),
        post.c2.contents() == pre.c2.contents().insert(value, id),
    ensures
        post.registered(id, value),
        pre.registered(other_id, other_value) && other_id != id && other_value != value
            ==> post.registered(other_id, other_value),
{
}

/// Law: freezing preserves every registered pair bit for bit. The
/// hypotheses are exactly what [`RegistryDataCell::convert`] ensures of a
/// conversion that succeeded.
pub proof fn lemma_convert_preserves_registered<Id, Value, C1, C2, D1, D2>(
    pre: &RegistryDataCell<Id, Value, C1, C2>,
    post: &RegistryDataCell<Id, Value, D1, D2>,
    id: Id,
    value: Value,
) where
    C1: RegistryMapView<Id, Value>,
    C2: RegistryMapView<Value, Id>,
    D1: RegistryMapView<Id, Value>,
    D2: RegistryMapView<Value, Id>,

    requires
        post.c1.contents() == pre.c1.contents(),
        post.c2.contents() == pre.c2.contents(),
    ensures
        pre.registered(id, value) <==> post.registered(id, value),
{
}

/// Law: when every id a sparse map holds lies below the registry's count,
/// the map reports an id in `[0, count)` missing exactly when the id has
/// no value — so a table with a value for every issued id freezes
/// successfully, and one missing at least one id does not, and reports
/// precisely the unfilled ids.
pub proof fn lemma_missing_ids_characterization<R: Registry, V>(m: &RegistryIdMap<R, V>, count: int)
    requires
        m.map_wf(),
        0 <= count <= 0x10000,
        forall|k: RegistryId<R>|
            #[trigger] m.contents().contains_key(k) ==> (k.spec_numeric() as int) < count,
    ensures
        forall|i: int|
            0 <= i < count ==> (m.missing_ids(count).contains(i as RegistryIdNumeric)
                <==> !m.contents().contains_key(#[trigger] RegistryId::from_numeric_spec(
                i as RegistryIdNumeric,
            ))),
        m.missing_ids(count).is_empty() <==> (forall|i: int|
            0 <= i < count ==> m.contents().contains_key(#[trigger] RegistryId::from_numeric_spec(
                i as RegistryIdNumeric,
            ))),
{
    let len = m.entries().len() as int;
    assert(len <= count) by {
        if len > 0 {
            assert(m.has_id(len - 1));
            let k = RegistryId::<R>::from_numeric_spec((len - 1) as RegistryIdNumeric);
            assert(m.contents().contains_key(k));
        }
    }
    assert forall|i: int|
        #![trigger m.missing_ids(count).contains(i as RegistryIdNumeric)]
        0 <= i < count implies (m.missing_ids(count).contains(
        i as RegistryIdNumeric,
    ) <==> !m.contents().contains_key(RegistryId::from_numeric_spec(i as RegistryIdNumeric))) by {
        assert(m.contents().contains_key(RegistryId::from_numeric_spec(i as RegistryIdNumeric))
            <==> m.has_id(i));
    }
    if forall|i: int|
        0 <= i < count ==> m.contents().contains_key(#[trigger] RegistryId::from_numeric_spec(
            i as RegistryIdNumeric,
        )) {
        assert forall|q: RegistryIdNumeric| !m.missing_ids(count).contains(q) by {
            if m.missing_ids(count).contains(q) {
                assert((q as int) < count);
                let i = q as int;
                assert(m.contents().contains_key(RegistryId::from_numeric_spec(
                    i as RegistryIdNumeric,
                )));
                assert(i as RegistryIdNumeric == q);
                assert(m.has_id(q as int));
            }
        }
        assert(m.missing_ids(count) =~= Set::empty());
    } else {
        let i = choose|i: int|
            0 <= i < count && !m.contents().contains_key(
                #[trigger] RegistryId::from_numeric_spec(i as RegistryIdNumeric),
            );
        assert(m.missing_ids(count).contains(i as RegistryIdNumeric));
    }
}

/// Law: a changable table's sparse map accepts an insert at every id —
/// also at ids issued only after the point where a non-changable table
/// would already have been frozen — while the frozen map only accepts ids
/// it already holds.
pub proof fn lemma_changable_accepts_any_id<R: Registry, V>(
    sparse: &RegistryIdMap<R, V>,
    frozen: &ConvertedRegistryIdMap<R, V>,
    id: RegistryId<R>,
)
    ensures
        sparse.may_insert(id),
        frozen.may_insert(id) <==> frozen.contents().contains_key(id),
{
}

} // verus!
