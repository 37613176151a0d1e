//! Typed and erased id handles.
//!
//! A [`RegistryId`] tags a raw numeric id with its owning registry so that
//! ids of two different registries cannot be mixed up. An
//! [`ErasedRegistryId`] drops the compile-time tag for contexts that must
//! hold ids from registries not known statically; it keeps a runtime
//! registry identifier instead, which its comparison checks.

use vstd::prelude::*;

use crate::space::IdSpace;
use crate::Registry;
use crate::RegistryIdNumeric;
use crate::RegistryItem;

verus! {

use core::marker::PhantomData;

/// The reserved raw value that an [`ErasedRegistryId`] stores to mean
/// "no id". No registry ever issues it: an [`IdSpace`] caps its capacity
/// below this value.
pub const NO_ID: RegistryIdNumeric = 0xFFFF;

/// A container for a registry's id. Helps not to mix up different
/// registries' ids.
pub struct RegistryId<R: Registry> {
    pub(crate) raw: RegistryIdNumeric,
    pub(crate) marker: PhantomData<R>,
}

/// The record that an item has been bound to an id of its registry.
///
/// A binding is created once per item by [`IdSpace::declare_item`]; every
/// later query of the item's id is a pure read of the value cached here.
pub struct ItemBinding<I: RegistryItem> {
    pub(crate) id: RegistryId<I::Registry>,
}

impl<I: RegistryItem> ItemBinding<I> {
    /// The id cached by this binding, as a mathematical value.
    pub open(crate) spec fn spec_id(&self) -> RegistryId<I::Registry> {
        self.id
    }

    /// The id cached for the item. O(1), never fails.
    pub fn id(&self) -> (r: RegistryId<I::Registry>)
        ensures
            r == self.spec_id(),
    {
        self.id
    }
}

impl<R: Registry> RegistryId<R> {
    /// The raw numeric value of this id, as a mathematical value.
    pub open(crate) spec fn spec_numeric(&self) -> RegistryIdNumeric {
        self.raw
    }

    /// The id of `R` with the given raw value, as a mathematical value.
    pub open(crate) spec fn from_numeric_spec(n: RegistryIdNumeric) -> RegistryId<R> {
        RegistryId { raw: n, marker: PhantomData }
    }

    /// The id cached for the item `I`, read from the item's binding.
    pub fn new<I>(binding: &ItemBinding<I>) -> (r: Self) where I: RegistryItem<Registry = R>
        ensures
            r == binding.spec_id(),
    {
        binding.id
    }

    /// Whether this id is the id bound to the item `I`.
    pub fn is<I>(&self, binding: &ItemBinding<I>) -> (r: bool) where I: RegistryItem<Registry = R>
        ensures
            r <==> *self == binding.spec_id(),
    {
        proof {
            lemma_registry_id_numeric_injective(*self, binding.spec_id());
        }
        self.raw == binding.id.raw
    }

    /// The raw value, for indexing into dense arrays.
    pub fn numeric(self) -> (r: RegistryIdNumeric)
        ensures
            r == self.spec_numeric(),
    {
        self.raw
    }

    /// Every id the space has issued so far, in ascending numeric order.
    /// Recomputed on each call, since it depends on the live count.
    pub fn iter_all(space: &IdSpace<R>) -> (r: Vec<RegistryId<R>>)
        ensures
            r@.len() == space.spec_count(),
            forall|i: int| 0 <= i < r@.len() ==> (#[trigger] r@[i]).spec_numeric() == i,
    {
        let count = space.count();
        let mut out: Vec<RegistryId<R>> = Vec::new();
        let mut i: usize = 0;
        while i < count
            invariant
                i <= count,
                count == space.spec_count(),
                out@.len() == i,
                forall|j: int| 0 <= j < i ==> (#[trigger] out@[j]).spec_numeric() == j,
            decreases count - i,
        {
            out.push(RegistryId { raw: i as u16, marker: PhantomData });
            i = i + 1;
        }
        out
    }
}

/// Two ids of one registry with the same raw value are the same id: the
/// raw number is an id's whole identity.
pub proof fn lemma_registry_id_numeric_injective<R: Registry>(a: RegistryId<R>, b: RegistryId<R>)
    ensures
        (a == b) <==> a.spec_numeric() == b.spec_numeric(),
{
}

impl<R: Registry> Clone for RegistryId<R> {
    fn clone(&self) -> (r: Self)
        ensures
            r == *self,
    {
        RegistryId { raw: self.raw, marker: PhantomData }
    }
}

impl<R: Registry> Copy for RegistryId<R> {

}

impl<R: Registry> PartialEq for RegistryId<R> {
    fn eq(&self, other: &Self) -> (r: bool) {
        proof {
            lemma_registry_id_numeric_injective(*self, *other);
        }
        self.raw == other.raw
    }
}

impl<R: Registry> vstd::std_specs::cmp::PartialEqSpecImpl for RegistryId<R> {
    open spec fn obeys_eq_spec() -> bool {
        true
    }

    open spec fn eq_spec(&self, other: &Self) -> bool {
        *self == *other
    }
}

impl<R: Registry> Eq for RegistryId<R> {

}

/// A registry id with the compile-time registry tag removed: it carries the
/// raw numeric id plus a runtime identifier of the owning registry (the
/// registry's own id within the root space). The raw value [`NO_ID`] is the
/// reserved sentinel meaning "no id".
///
/// Comparing an erased id against an item's id checks the registry
/// identifier too, so an id from the wrong registry never matches.
#[derive(Clone, Copy, PartialEq, Eq, Structural, Debug)]
pub struct ErasedRegistryId {
    pub(crate) registry: RegistryIdNumeric,
    pub(crate) raw: RegistryIdNumeric,
}

impl ErasedRegistryId {
    /// The runtime identifier of the owning registry.
    pub open(crate) spec fn spec_registry(&self) -> RegistryIdNumeric {
        self.registry
    }

    /// The raw id value; [`NO_ID`] means "no id".
    pub open(crate) spec fn spec_numeric(&self) -> RegistryIdNumeric {
        self.raw
    }

    /// Erase a typed id: copy its raw value and tag it with the owning
    /// registry's runtime identifier, read from the registry's own binding
    /// within the root space.
    pub fn new<R>(registry: &ItemBinding<R>, id: RegistryId<R>) -> (r: Self) where
        R: Registry,
        R: RegistryItem<Registry = crate::Registries>,

        ensures
            r.spec_registry() == registry.spec_id().spec_numeric(),
            r.spec_numeric() == id.spec_numeric(),
    {
        ErasedRegistryId { registry: registry.id.raw, raw: id.raw }
    }

    /// The erased id meaning "no id" for the given registry: it stores the
    /// reserved sentinel [`NO_ID`] and matches no item.
    pub fn none<R>(registry: &ItemBinding<R>) -> (r: Self) where
        R: Registry,
        R: RegistryItem<Registry = crate::Registries>,

        ensures
            r.spec_registry() == registry.spec_id().spec_numeric(),
            r.spec_numeric() == NO_ID,
    {
        ErasedRegistryId { registry: registry.id.raw, raw: NO_ID }
    }

    /// Whether this erased id holds the reserved "no id" sentinel.
    pub fn is_no_id(&self) -> (r: bool)
        ensures
            r <==> self.spec_numeric() == NO_ID,
    {
        self.raw == NO_ID
    }

    /// Whether this erased id is the id bound to the item `I`. The check
    /// compares the registry identifier as well as the raw value, so an id
    /// erased from a different registry never matches, and neither does the
    /// "no id" sentinel.
    pub fn is<R, I>(&self, registry: &ItemBinding<R>, item: &ItemBinding<I>) -> (r: bool) where
        R: Registry,
        R: RegistryItem<Registry = crate::Registries>,
        I: RegistryItem<Registry = R>,

        requires
            item.spec_id().spec_numeric() != NO_ID,
        ensures
            r <==> (self.spec_registry() == registry.spec_id().spec_numeric()
                && self.spec_numeric() == item.spec_id().spec_numeric()),
    {
        self.registry == registry.id.raw && self.raw == item.id.raw
    }
}

} // verus!
