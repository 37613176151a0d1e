//! Id spaces: dense, zero-based id allocation per registry.
//!
//! An [`IdSpace`] owns the counter of a single registry. Declaring a
//! registry produces a fresh space with the counter at zero; items then
//! reserve ids one by one, and the set of ids handed out is always the
//! dense range `[0, count)`, with no gaps and no repeats.

use vstd::prelude::*;

use crate::id::ItemBinding;
use crate::id::RegistryId;
use crate::Registry;
use crate::RegistryItem;

verus! {

use core::marker::PhantomData;

/// The numeric width of the ids a registry issues.
#[derive(Clone, Copy, PartialEq, Eq, Structural, Debug)]
pub enum IdWidth {
    /// Ids that fit in 8 bits.
    W8,
    /// Ids that fit in 16 bits.
    W16,
}

impl IdWidth {
    /// How many ids a space of this width can issue. The top raw 16-bit
    /// value is never issued: it is reserved as the "no id" sentinel of
    /// [`crate::ErasedRegistryId`].
    pub open spec fn spec_capacity(&self) -> int {
        match self {
            IdWidth::W8 => 0x100,
            IdWidth::W16 => 0xFFFF,
        }
    }

    /// How many ids a space of this width can issue.
    pub fn capacity(&self) -> (n: usize)
        ensures
            n == self.spec_capacity(),
    {
        match self {
            IdWidth::W8 => 0x100,
            IdWidth::W16 => 0xFFFF,
        }
    }
}

/// The id space of the registry `R`: a name for diagnostics, the numeric
/// width of its ids, and the counter of ids issued so far.
///
/// Exactly one space should exist per registry for the lifetime of the
/// process; it is only ever queried, never destroyed.
pub struct IdSpace<R: Registry> {
    pub(crate) name: String,
    pub(crate) width: IdWidth,
    pub(crate) issued_count: u16,
    pub(crate) marker: PhantomData<R>,
}

impl<R: Registry> IdSpace<R> {
    /// How many ids have been issued so far.
    pub open(crate) spec fn spec_count(&self) -> int {
        self.issued_count as int
    }

    /// How many ids this space can issue in total.
    pub open(crate) spec fn spec_capacity(&self) -> int {
        self.width.spec_capacity()
    }

    /// The diagnostic name the space was declared with.
    pub open(crate) spec fn spec_name(&self) -> Seq<char> {
        self.name@
    }

    /// The set of raw id values issued so far: the dense range
    /// `[0, count)`.
    pub open(crate) spec fn issued(&self) -> Set<u16> {
        Set::new(|i: u16| (i as int) < self.spec_count())
    }

    /// The counter never exceeds the capacity of the declared width.
    pub open(crate) spec fn wf(&self) -> bool {
        self.spec_count() <= self.spec_capacity()
    }

    /// Declare a fresh id space: given a name and a numeric width, its
    /// counter starts at zero.
    pub fn new(name: String, width: IdWidth) -> (r: Self)
        ensures
            r.wf(),
            r.spec_count() == 0,
            r.spec_capacity() == width.spec_capacity(),
            r.spec_name() == name@,
    {
        IdSpace { name, width, issued_count: 0, marker: PhantomData }
    }

    /// The next unused id of this registry; advances the counter.
    ///
    /// The id returned is always the current count, so the set of ids
    /// handed out stays the dense range `[0, count)`: no id is issued
    /// twice, and none is ever reclaimed.
    pub fn reserve_id(&mut self) -> (r: RegistryId<R>)
        requires
            old(self).wf(),
            old(self).spec_count() < old(self).spec_capacity(),
        ensures
            final (self).wf(),
            r.spec_numeric() == old(self).spec_count(),
            !old(self).issued().contains(r.spec_numeric()),
            final (self).spec_count() == old(self).spec_count() + 1,
            final (self).issued() == old(self).issued().insert(r.spec_numeric()),
            final (self).spec_capacity() == old(self).spec_capacity(),
            final (self).spec_name() == old(self).spec_name(),
    {
        let raw = self.issued_count;
        self.issued_count = self.issued_count + 1;
        proof {
            assert(self.issued() =~= old(self).issued().insert(raw));
        }
        RegistryId { raw, marker: PhantomData }
    }

    /// How many ids have been issued so far. Sizes frozen tables and
    /// detects missing registrations.
    pub fn count(&self) -> (n: usize)
        ensures
            n == self.spec_count(),
    {
        self.issued_count as usize
    }

    /// The diagnostic name the space was declared with.
    pub fn name(&self) -> (r: &String)
        ensures
            r@ == self.spec_name(),
    {
        &self.name
    }

    /// Bind the item `I` to the next unused id of its registry: reserve
    /// the id and cache it in the binding handed back. Each item must be
    /// declared exactly once, before any lookup keyed by its id.
    pub fn declare_item<I>(&mut self) -> (b: ItemBinding<I>) where I: RegistryItem<Registry = R>
        requires
            old(self).wf(),
            old(self).spec_count() < old(self).spec_capacity(),
        ensures
            final (self).wf(),
            b.spec_id().spec_numeric() == old(self).spec_count(),
            !old(self).issued().contains(b.spec_id().spec_numeric()),
            final (self).spec_count() == old(self).spec_count() + 1,
            final (self).issued() == old(self).issued().insert(b.spec_id().spec_numeric()),
            final (self).spec_capacity() == old(self).spec_capacity(),
            final (self).spec_name() == old(self).spec_name(),
    {
        let id = self.reserve_id();
        ItemBinding { id }
    }
}

/// Law: the ids a registry has issued form exactly the dense range
/// `[0, count)` — every raw value below the count has been handed out, no
/// other value has, and (by [`IdSpace::reserve_id`]'s contract) no value
/// is ever handed out twice.
pub proof fn lemma_issued_ids_dense<R: Registry>(s: &IdSpace<R>)
    ensures
        forall|i: u16| s.issued().contains(i) <==> (i as int) < s.spec_count(),
{
}

} // verus!
