//! A registry subsystem for game-style applications: dense numeric id
//! allocation per named id space, bidirectional id/value lookup tables that
//! start out sparse and mutable and are later frozen into dense arrays, and a
//! small scheduler that runs each table's one-time freeze step exactly once.

mod data;
mod id;
mod sched;
mod space;

pub use data::clone_exact;
pub use data::distinct_keys;
pub use data::eq_exact;
pub use data::key_index;
pub use data::lemma_changable_accepts_any_id;
pub use data::lemma_convert_preserves_registered;
pub use data::lemma_insert_registers;
pub use data::lemma_key_index;
pub use data::lemma_key_index_at;
pub use data::lemma_key_index_same_keys;
pub use data::lemma_missing_ids_characterization;
pub use data::lemma_registry_id_clone_exact;
pub use data::lemma_two_sided_lookup;
pub use data::seq_present;
pub use data::ChangableRegistryOneSidedDataCell;
pub use data::ChangableRegistryTwoSidedDataCellId2Id;
pub use data::ChangableRegistryTwoSidedDataCellId2Value;
pub use data::ConvertedRegistryIdMap;
pub use data::IncompleteRegistration;
pub use data::RegistryDataCell;
pub use data::RegistryOneSidedDataCell;
pub use data::RegistryIdMap;
pub use data::RegistryMapConvert;
pub use data::RegistryMapGet;
pub use data::RegistryMapGetMut;
pub use data::RegistryMapInsert;
pub use data::RegistryMapView;
pub use data::RegistryTwoSidedDataCellId2Id;
pub use data::RegistryTwoSidedDataCellId2Value;
pub use data::RegistryValueMap;
pub use id::lemma_registry_id_numeric_injective;
pub use id::ErasedRegistryId;
pub use id::ItemBinding;
pub use id::RegistryId;
pub use id::NO_ID;
pub use sched::ConvertSystemsData;
pub use space::lemma_issued_ids_dense;
pub use space::IdSpace;
pub use space::IdWidth;

use vstd::prelude::*;

verus! {

/// The raw numeric representation shared by the ids of every registry.
pub type RegistryIdNumeric = u16;

/// Marker for a named id space. A registry issues dense, zero-based numeric
/// ids to its items: the first id reserved is 0, the next is 1, and so on.
/// The live state of an id space (its counter) is held by an [`IdSpace`].
pub trait Registry: Sized {

}

/// Marker for an item that belongs to exactly one registry. An item is bound
/// to a single id of its registry, once, by [`IdSpace::declare_item`], which
/// hands back the [`ItemBinding`] that caches the reserved id.
pub trait RegistryItem: Sized {
    type Registry: Registry;
}

/// The root id space. Every registry is itself an item of `Registries`, so
/// each registry owns a runtime identifier: its id within the root space.
pub struct Registries;

impl Registry for Registries {

}

/// A registry that is itself an item of the root id space [`Registries`].
pub trait ChildRegistry: Registry + RegistryItem<Registry = Registries> {

}

} // verus!
