//! Tests of the two-sided data tables: registration, lookup in both
//! directions, freezing, and the changable tables that skip freezing.

use rgl_registry::ChangableRegistryOneSidedDataCell;
use rgl_registry::ChangableRegistryTwoSidedDataCellId2Id;
use rgl_registry::ChangableRegistryTwoSidedDataCellId2Value;
use rgl_registry::ChildRegistry;
use rgl_registry::ConvertSystemsData;
use rgl_registry::IdSpace;
use rgl_registry::IdWidth;
use rgl_registry::ItemBinding;
use rgl_registry::Registries;
use rgl_registry::Registry;
use rgl_registry::RegistryId;
use rgl_registry::RegistryItem;
use rgl_registry::RegistryMapGet;
use rgl_registry::RegistryOneSidedDataCell;
use rgl_registry::RegistryTwoSidedDataCellId2Id;
use rgl_registry::RegistryTwoSidedDataCellId2Value;

struct TestRegistry;

impl Registry for TestRegistry {}

impl RegistryItem for TestRegistry {
    type Registry = Registries;
}

impl ChildRegistry for TestRegistry {}

struct TestItem1;

impl RegistryItem for TestItem1 {
    type Registry = TestRegistry;
}

struct TestItem2;

impl RegistryItem for TestItem2 {
    type Registry = TestRegistry;
}

struct TestItem3;

impl RegistryItem for TestItem3 {
    type Registry = TestRegistry;
}

struct OtherRegistry;

impl Registry for OtherRegistry {}

impl RegistryItem for OtherRegistry {
    type Registry = Registries;
}

impl ChildRegistry for OtherRegistry {}

/// The step keys under which the two tables below are scheduled.
const STR_TABLE_STEP: u64 = 1;
const NUM_TABLE_STEP: u64 = 2;

fn declare_test_items(
    space: &mut IdSpace<TestRegistry>,
) -> (ItemBinding<TestItem1>, ItemBinding<TestItem2>, ItemBinding<TestItem3>) {
    (space.declare_item(), space.declare_item(), space.declare_item())
}

#[test]
fn test() {
    let mut root = IdSpace::<Registries>::new(String::from("registries"), IdWidth::W16);
    let _test_registry: ItemBinding<TestRegistry> = root.declare_item();
    let mut space = IdSpace::<TestRegistry>::new(String::from("test_registry"), IdWidth::W8);
    let (b1, b2, b3) = declare_test_items(&mut space);

    let mut csd = ConvertSystemsData::new();

    // Startup-phase registration: each call site schedules the table's
    // freeze step idempotently, then inserts its pair.
    let mut strings =
        ChangableRegistryTwoSidedDataCellId2Value::<TestRegistry, &'static str>::default();
    csd.add_if_not_added(STR_TABLE_STEP);
    strings.insert(RegistryId::new(&b1), "test_1");
    csd.add_if_not_added(STR_TABLE_STEP);
    strings.insert(RegistryId::new(&b2), "test_2");
    csd.add_if_not_added(STR_TABLE_STEP);
    strings.insert(RegistryId::new(&b3), "test_3");

    let mut numbers = ChangableRegistryOneSidedDataCell::<TestRegistry, u32>::default();
    csd.add_if_not_added(NUM_TABLE_STEP);
    numbers.insert_one_sided(RegistryId::new(&b1), 1);
    csd.add_if_not_added(NUM_TABLE_STEP);
    numbers.insert_one_sided(RegistryId::new(&b2), 2);
    csd.add_if_not_added(NUM_TABLE_STEP);
    numbers.insert_one_sided(RegistryId::new(&b3), 3);

    // The startup boundary: every scheduled, non-cancelled step runs once.
    assert!(csd.should_convert(STR_TABLE_STEP));
    let res: RegistryTwoSidedDataCellId2Value<TestRegistry, &'static str> =
        strings.convert(space.count(), 0).ok().unwrap();

    assert_eq!(res.value_ty(&b1), Some(&"test_1"));
    assert_eq!(res.value_ty(&b2), Some(&"test_2"));
    assert_eq!(res.value_ty(&b3), Some(&"test_3"));

    assert!(csd.should_convert(NUM_TABLE_STEP));
    let res: RegistryOneSidedDataCell<TestRegistry, u32> =
        numbers.convert(space.count(), 0).ok().unwrap();

    assert_eq!(res.value_ty(&b1), Some(&1));
    assert_eq!(res.value_ty(&b2), Some(&2));
    assert_eq!(res.value_ty(&b3), Some(&3));
}

#[test]
fn two_sided_lookup_before_and_after_freezing() {
    let mut space = IdSpace::<TestRegistry>::new(String::from("test_registry"), IdWidth::W8);
    let (b1, b2, b3) = declare_test_items(&mut space);
    let id1 = RegistryId::new(&b1);
    let id2 = RegistryId::new(&b2);
    let id3 = RegistryId::new(&b3);

    let mut table =
        ChangableRegistryTwoSidedDataCellId2Value::<TestRegistry, &'static str>::default();
    let (prev_value, prev_id) = table.insert(id1, "red");
    assert!(prev_value.is_none() && prev_id.is_none());
    table.insert(id2, "green");
    table.insert(id3, "blue");

    // Both directions, before freezing.
    assert_eq!(table.value(&id2), Some(&"green"));
    assert!(table.id(&"green") == Some(&id2));
    assert_eq!(table.value(&id3), Some(&"blue"));
    assert!(table.id(&"blue") == Some(&id3));
    assert!(table.id(&"yellow").is_none());

    // Freezing preserves every lookup bit for bit.
    let frozen = table.convert(space.count(), 0).ok().unwrap();
    assert_eq!(frozen.value(&id1), Some(&"red"));
    assert_eq!(frozen.value(&id2), Some(&"green"));
    assert_eq!(frozen.value(&id3), Some(&"blue"));
    assert!(frozen.id(&"red") == Some(&id1));
    assert!(frozen.id(&"green") == Some(&id2));
    assert!(frozen.id(&"blue") == Some(&id3));
    assert!(frozen.id(&"yellow").is_none());
}

#[test]
fn remap_returns_previous_entries() {
    let mut space = IdSpace::<TestRegistry>::new(String::from("test_registry"), IdWidth::W8);
    let (b1, _, _) = declare_test_items(&mut space);
    let id1 = RegistryId::new(&b1);

    let mut table =
        ChangableRegistryTwoSidedDataCellId2Value::<TestRegistry, &'static str>::default();
    table.insert(id1, "old");
    // Remapping the same id reports what the id and the value held before.
    let (prev_value, prev_id) = table.insert(id1, "new");
    assert_eq!(prev_value, Some("old"));
    assert!(prev_id.is_none());
    assert_eq!(table.value(&id1), Some(&"new"));
    assert!(table.id(&"new") == Some(&id1));
    // The stale reverse entry is untouched, as in a plain pair of maps.
    assert!(table.id(&"old") == Some(&id1));
}

#[test]
fn freezing_a_partial_table_reports_each_missing_id() {
    let mut space = IdSpace::<TestRegistry>::new(String::from("test_registry"), IdWidth::W8);
    let (b1, b2, b3) = declare_test_items(&mut space);
    let _ = b2;
    let _ = b3;

    // Register only the first item; ids 1 and 2 stay unfilled.
    let mut table =
        ChangableRegistryTwoSidedDataCellId2Value::<TestRegistry, &'static str>::default();
    table.insert(RegistryId::new(&b1), "test_1");

    let err = table.convert(space.count(), 0).err().unwrap();
    assert_eq!(err.missing(), &vec![1, 2]);
}

#[test]
fn freezing_reports_only_the_unregistered_id() {
    let mut space = IdSpace::<TestRegistry>::new(String::from("test_registry"), IdWidth::W8);
    let (b1, b2, b3) = declare_test_items(&mut space);
    let _ = b2;

    let mut table =
        ChangableRegistryTwoSidedDataCellId2Value::<TestRegistry, &'static str>::default();
    table.insert(RegistryId::new(&b1), "test_1");
    table.insert(RegistryId::new(&b3), "test_3");

    let err = table.convert(space.count(), 0).err().unwrap();
    assert_eq!(err.missing(), &vec![1]);
}

#[test]
fn changable_table_accepts_new_pairs_after_the_freeze_point() {
    let mut root = IdSpace::<Registries>::new(String::from("registries"), IdWidth::W16);
    let _test_registry: ItemBinding<TestRegistry> = root.declare_item();
    let mut space = IdSpace::<TestRegistry>::new(String::from("bindings"), IdWidth::W8);
    let (b1, b2, _) = declare_test_items(&mut space);
    let id1 = RegistryId::new(&b1);
    let id2 = RegistryId::new(&b2);

    let mut csd = ConvertSystemsData::new();

    // A one-sided table of rebindable input keys, marked changable: its
    // freeze step is cancelled, so it skips the startup conversion that an
    // equivalent non-changable table would run.
    let mut keys = ChangableRegistryOneSidedDataCell::<TestRegistry, &'static str>::default();
    csd.add_if_not_added(STR_TABLE_STEP);
    csd.cancel(STR_TABLE_STEP);
    keys.insert_one_sided(id1, "space");

    // The startup boundary passes; the cancelled step does not run.
    assert!(!csd.should_convert(STR_TABLE_STEP));

    // After startup, rebinding an already-registered item succeeds and is
    // immediately visible, with no further conversion step.
    assert_eq!(keys.insert_one_sided(id1, "enter"), Some("space"));
    assert_eq!(keys.value(&id1), Some(&"enter"));

    // A pair for an id never seen during startup is accepted too.
    assert_eq!(keys.insert_one_sided(id2, "shift"), None);
    assert_eq!(keys.value(&id2), Some(&"shift"));
}

#[test]
fn value_mut_accumulates_per_id_state() {
    let mut space = IdSpace::<TestRegistry>::new(String::from("state"), IdWidth::W8);
    let (b1, b2, _) = declare_test_items(&mut space);
    let id1 = RegistryId::new(&b1);
    let id2 = RegistryId::new(&b2);

    let mut table = ChangableRegistryOneSidedDataCell::<TestRegistry, u32>::default();
    assert_eq!(table.value_mut(&id1), None);

    *table.value_mut_or_insert_default(&id1) += 5;
    *table.value_mut_or_insert_default(&id1) += 5;
    assert_eq!(table.value(&id1), Some(&10));

    *table.value_mut_or_insert_with(&id2, || 40) += 2;
    assert_eq!(table.value(&id2), Some(&42));
    // An existing value is reused, not rebuilt.
    assert_eq!(table.value_mut_or_insert_with(&id2, || 0), &mut 42);

    if let Some(v) = table.value_mut(&id1) {
        *v = 7;
    }
    assert_eq!(table.value(&id1), Some(&7));
}

#[test]
fn id_to_id_table_maps_between_registries() {
    let mut keys = IdSpace::<TestRegistry>::new(String::from("keys"), IdWidth::W8);
    let mut actions = IdSpace::<OtherRegistry>::new(String::from("actions"), IdWidth::W8);
    let key_a = keys.reserve_id();
    let key_b = keys.reserve_id();
    let act_a = actions.reserve_id();
    let act_b = actions.reserve_id();

    let mut table = ChangableRegistryTwoSidedDataCellId2Id::<TestRegistry, OtherRegistry>::default();
    table.insert(key_a, act_b);
    table.insert(key_b, act_a);

    assert!(table.value(&key_a) == Some(&act_b));
    assert!(table.id(&act_a) == Some(&key_b));

    let frozen: RegistryTwoSidedDataCellId2Id<TestRegistry, OtherRegistry> =
        table.convert(keys.count(), actions.count()).ok().unwrap();
    assert!(frozen.value(&key_a) == Some(&act_b));
    assert!(frozen.value(&key_b) == Some(&act_a));
    assert!(frozen.id(&act_b) == Some(&key_a));
    assert!(frozen.id(&act_a) == Some(&key_b));
}

#[test]
fn frozen_table_replaces_values_in_place() {
    let mut space = IdSpace::<TestRegistry>::new(String::from("state"), IdWidth::W8);
    let b1: ItemBinding<TestItem1> = space.declare_item();
    let b2: ItemBinding<TestItem2> = space.declare_item();
    let id1 = RegistryId::new(&b1);
    let id2 = RegistryId::new(&b2);

    let mut table = ChangableRegistryOneSidedDataCell::<TestRegistry, u32>::default();
    table.insert_one_sided(id1, 10);
    table.insert_one_sided(id2, 20);
    table.insert_one_sided(space.reserve_id(), 30);

    let mut frozen = table.convert(space.count(), 0).ok().unwrap();
    assert_eq!(frozen.insert_one_sided(id2, 21), Some(20));
    assert_eq!(frozen.value(&id2), Some(&21));
    assert_eq!(frozen.value(&id1), Some(&10));
}

#[test]
fn iteration_follows_id_order() {
    let mut space = IdSpace::<TestRegistry>::new(String::from("state"), IdWidth::W8);
    let (b1, b2, b3) = declare_test_items(&mut space);
    let _ = b2;

    let mut table = ChangableRegistryOneSidedDataCell::<TestRegistry, u32>::default();
    // Insert out of order and leave id 1 empty.
    table.insert_one_sided(RegistryId::new(&b3), 30);
    table.insert_one_sided(RegistryId::new(&b1), 10);

    let present: Vec<u32> = table.c1.iter().into_iter().copied().collect();
    assert_eq!(present, vec![10, 30]);

    // The mutable view exposes the slots by raw id; the gap is visible.
    let slots = table.c1.iter_mut();
    assert_eq!(slots.len(), 3);
    assert_eq!(slots[0], Some(10));
    assert_eq!(slots[1], None);
    assert_eq!(slots[2], Some(30));
    slots[2] = Some(31);
    assert_eq!(table.value(&RegistryId::new(&b3)), Some(&31));

    table.insert_one_sided(RegistryId::new(&b2), 20);
    let frozen = table.convert(space.count(), 0).ok().unwrap();
    assert_eq!(frozen.c1.iter(), &vec![10, 20, 31]);
    let dense = frozen.c1.iter();
    assert_eq!(dense[0], 10);
}

#[test]
fn frozen_iter_mut_updates_every_value() {
    let mut space = IdSpace::<TestRegistry>::new(String::from("state"), IdWidth::W8);
    let b1: ItemBinding<TestItem1> = space.declare_item();
    let mut table = ChangableRegistryOneSidedDataCell::<TestRegistry, u32>::default();
    table.insert_one_sided(RegistryId::new(&b1), 1);
    table.insert_one_sided(space.reserve_id(), 2);
    table.insert_one_sided(space.reserve_id(), 3);

    let mut frozen = table.convert(space.count(), 0).ok().unwrap();
    for value in frozen.c1.iter_mut() {
        *value *= 2;
    }
    assert_eq!(frozen.c1.iter(), &vec![2, 4, 6]);
}

#[test]
fn lookup_by_get_trait_matches_cell_lookup() {
    let mut space = IdSpace::<TestRegistry>::new(String::from("state"), IdWidth::W8);
    let (b1, _, _) = declare_test_items(&mut space);
    let id1 = RegistryId::new(&b1);
    let mut table = ChangableRegistryOneSidedDataCell::<TestRegistry, u32>::default();
    table.insert_one_sided(id1, 99);
    assert_eq!(table.c1.get(&id1), Some(&99));
    assert_eq!(table.c1.get(&id1), table.value(&id1));
}

#[test]
fn vec_values_accumulate_per_id() {
    // Several call sites append to one shared table of per-id vectors.
    let mut space = IdSpace::<TestRegistry>::new(String::from("groups"), IdWidth::W8);
    let b1: ItemBinding<TestItem1> = space.declare_item();
    let id1 = RegistryId::new(&b1);

    let mut table = ChangableRegistryOneSidedDataCell::<TestRegistry, Vec<u32>>::default();
    table.value_mut_or_insert_default(&id1).push(4);
    table.value_mut_or_insert_default(&id1).push(9);
    assert_eq!(table.value(&id1), Some(&vec![4, 9]));

    let frozen = table.convert(space.count(), 0).ok().unwrap();
    assert_eq!(frozen.value(&id1), Some(&vec![4, 9]));
}

#[test]
fn freezing_an_empty_registry_succeeds() {
    let space = IdSpace::<TestRegistry>::new(String::from("empty"), IdWidth::W8);
    let table = ChangableRegistryOneSidedDataCell::<TestRegistry, u32>::default();
    let frozen = table.convert(space.count(), 0).ok().unwrap();
    let mut other = IdSpace::<TestRegistry>::new(String::from("other"), IdWidth::W8);
    let stray = other.reserve_id();
    assert!(frozen.value(&stray).is_none());
    assert_eq!(frozen.c1.iter().len(), 0);
}
