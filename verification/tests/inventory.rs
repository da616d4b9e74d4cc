use minicraft::inventory::merge_amounts;
use minicraft::inventory::Inventory;
use minicraft::inventory::Stackable;
use minicraft::inventory::Stored;
use minicraft::inventory::MAX_ITEM_STACK;
use minicraft::item::Item;

fn item(name: &str, amt: u32, sprite_index: u32) -> Item {
    Item { name: name.to_string(), amt, sprite_index }
}

fn holding(items: Vec<Item>, capacity: i32) -> Inventory {
    Inventory { items, capacity }
}

fn names(inventory: &Inventory) -> Vec<String> {
    inventory.items.iter().map(|i| i.name.clone()).collect()
}

fn amounts(inventory: &Inventory) -> Vec<u32> {
    inventory.items.iter().map(|i| i.amt).collect()
}

#[test]
fn new_inventory_is_empty_with_its_capacity() {
    let inventory = Inventory::new(20);
    assert!(inventory.items.is_empty());
    assert_eq!(inventory.capacity, 20);
    assert!(!inventory.is_full());
}

#[test]
fn default_inventory_has_no_room() {
    let mut inventory = Inventory::default();
    assert!(inventory.items.is_empty());
    assert_eq!(inventory.capacity, 0);
    assert!(inventory.is_full());
    assert_eq!(inventory.pick_up(item("Wood", 1, 4), Some(Stackable)), Stored::Full);
    assert!(inventory.items.is_empty());
}

#[test]
fn negative_capacity_accepts_nothing() {
    let mut inventory = Inventory::new(-3);
    assert!(inventory.is_full());
    assert_eq!(inventory.pick_up(item("Wood", 1, 4), None), Stored::Full);
    assert!(inventory.items.is_empty());
    assert_eq!(inventory.capacity, -3);
}

#[test]
fn max_stack_is_999() {
    assert_eq!(MAX_ITEM_STACK, 999);
}

#[test]
fn stack_merge_adds_to_the_slot_that_is_there() {
    let mut inventory = holding(vec![item("Wood", 5, 4)], 20);
    let how = inventory.pick_up(item("Wood", 1, 4), Some(Stackable));
    assert_eq!(how, Stored::Stacked);
    assert_eq!(inventory.items.len(), 1);
    assert_eq!(inventory.items[0].name, "Wood");
    assert_eq!(inventory.items[0].amt, 6);
    assert_eq!(inventory.items[0].sprite_index, 4);
    assert_eq!(inventory.capacity, 20);
}

#[test]
fn stack_at_the_limit_stays_at_the_limit() {
    let mut inventory = holding(vec![item("Wood", 999, 4)], 20);
    let how = inventory.pick_up(item("Wood", 1, 4), Some(Stackable));
    assert_eq!(how, Stored::Stacked);
    assert_eq!(inventory.items.len(), 1);
    assert_eq!(inventory.items[0].amt, 999);
}

#[test]
fn stack_is_cut_off_at_the_limit() {
    let mut inventory = holding(vec![item("Wood", 998, 4)], 20);
    let how = inventory.pick_up(item("Wood", 5, 4), Some(Stackable));
    assert_eq!(how, Stored::Stacked);
    assert_eq!(amounts(&inventory), vec![999]);
}

#[test]
fn stack_over_the_limit_is_left_alone() {
    let mut inventory = holding(vec![item("Wood", 2000, 4)], 20);
    let how = inventory.pick_up(item("Wood", 1, 4), Some(Stackable));
    assert_eq!(how, Stored::Stacked);
    assert_eq!(amounts(&inventory), vec![2000]);
}

#[test]
fn stack_keeps_the_picture_of_the_slot() {
    let mut inventory = holding(vec![item("Wood", 5, 4)], 20);
    inventory.pick_up(item("Wood", 2, 9), Some(Stackable));
    assert_eq!(inventory.items[0].amt, 7);
    assert_eq!(inventory.items[0].sprite_index, 4);
}

#[test]
fn merge_amounts_exact_values() {
    assert_eq!(merge_amounts(5, 1), 6);
    assert_eq!(merge_amounts(0, 0), 0);
    assert_eq!(merge_amounts(0, 999), 999);
    assert_eq!(merge_amounts(997, 1), 998);
    assert_eq!(merge_amounts(998, 1), 999);
    assert_eq!(merge_amounts(998, 2), 999);
    assert_eq!(merge_amounts(999, 0), 999);
    assert_eq!(merge_amounts(999, 1), 999);
    assert_eq!(merge_amounts(1000, 1), 1000);
    assert_eq!(merge_amounts(0, u32::MAX), 999);
    assert_eq!(merge_amounts(1, u32::MAX), 999);
    assert_eq!(merge_amounts(u32::MAX, u32::MAX), u32::MAX);
}

#[test]
fn new_name_goes_to_the_front() {
    let mut inventory = holding(vec![item("Wood", 5, 4)], 20);
    let how = inventory.pick_up(item("Pebble", 1, 2), Some(Stackable));
    assert_eq!(how, Stored::Inserted);
    assert_eq!(names(&inventory), vec!["Pebble", "Wood"]);
    assert_eq!(amounts(&inventory), vec![1, 5]);
    assert_eq!(inventory.items[0].sprite_index, 2);
}

#[test]
fn first_item_goes_into_an_empty_inventory() {
    let mut inventory = Inventory::new(20);
    let how = inventory.pick_up(item("Pebble", 1, 2), None);
    assert_eq!(how, Stored::Inserted);
    assert_eq!(names(&inventory), vec!["Pebble"]);
}

#[test]
fn item_that_does_not_stack_takes_a_slot_of_its_own() {
    let mut inventory = holding(vec![item("Wood", 5, 4)], 20);
    let how = inventory.pick_up(item("Wood", 1, 4), None);
    assert_eq!(how, Stored::Inserted);
    assert_eq!(names(&inventory), vec!["Wood", "Wood"]);
    assert_eq!(amounts(&inventory), vec![1, 5]);
}

#[test]
fn stacking_uses_the_first_slot_of_the_name() {
    let mut inventory =
        holding(vec![item("Pebble", 3, 2), item("Wood", 1, 4), item("Wood", 7, 4)], 20);
    let how = inventory.pick_up(item("Wood", 10, 4), Some(Stackable));
    assert_eq!(how, Stored::Stacked);
    assert_eq!(names(&inventory), vec!["Pebble", "Wood", "Wood"]);
    assert_eq!(amounts(&inventory), vec![3, 11, 7]);
}

#[test]
fn names_are_compared_exactly() {
    let mut inventory = holding(vec![item("Wood", 5, 4)], 20);
    let how = inventory.pick_up(item("wood", 1, 4), Some(Stackable));
    assert_eq!(how, Stored::Inserted);
    assert_eq!(names(&inventory), vec!["wood", "Wood"]);
}

#[test]
fn full_inventory_is_left_as_it_was() {
    let mut inventory = holding(vec![item("Wood", 5, 4), item("Pebble", 1, 2)], 2);
    assert!(inventory.is_full());
    let how = inventory.pick_up(item("Iron", 1, 7), None);
    assert_eq!(how, Stored::Full);
    assert_eq!(names(&inventory), vec!["Wood", "Pebble"]);
    assert_eq!(amounts(&inventory), vec![5, 1]);
    assert_eq!(inventory.capacity, 2);
}

#[test]
fn full_inventory_refuses_what_would_stack() {
    let mut inventory = holding(vec![item("Wood", 5, 4)], 1);
    let how = inventory.pick_up(item("Wood", 1, 4), Some(Stackable));
    assert_eq!(how, Stored::Full);
    assert_eq!(amounts(&inventory), vec![5]);
}

#[test]
fn overfull_inventory_refuses_too() {
    let mut inventory = holding(vec![item("Wood", 5, 4), item("Pebble", 1, 2)], 1);
    assert!(inventory.is_full());
    assert_eq!(inventory.pick_up(item("Wood", 1, 4), Some(Stackable)), Stored::Full);
    assert_eq!(amounts(&inventory), vec![5, 1]);
}

#[test]
fn slots_never_exceed_the_capacity() {
    let mut inventory = Inventory::new(3);
    let mut accepted = 0;
    for k in 0..10 {
        let name = format!("Thing {}", k);
        let how = inventory.pick_up(item(&name, 1, 0), Some(Stackable));
        if how != Stored::Full {
            accepted += 1;
        }
        assert!(inventory.items.len() as i32 <= inventory.capacity);
    }
    assert_eq!(accepted, 3);
    assert_eq!(names(&inventory), vec!["Thing 2", "Thing 1", "Thing 0"]);
}

#[test]
fn last_free_slot_can_be_taken() {
    let mut inventory = holding(vec![item("Wood", 5, 4)], 2);
    assert!(!inventory.is_full());
    assert_eq!(inventory.pick_up(item("Pebble", 1, 2), None), Stored::Inserted);
    assert!(inventory.is_full());
    assert_eq!(inventory.items.len(), 2);
}

#[test]
fn slot_named_finds_the_first_slot_of_a_name() {
    let inventory =
        holding(vec![item("Pebble", 3, 2), item("Wood", 1, 4), item("Wood", 7, 4)], 20);
    assert_eq!(inventory.slot_named(&"Wood".to_string()), Some(1));
    assert_eq!(inventory.slot_named(&"Pebble".to_string()), Some(0));
    assert_eq!(inventory.slot_named(&"Iron".to_string()), None);
    assert_eq!(Inventory::new(5).slot_named(&"Wood".to_string()), None);
}
