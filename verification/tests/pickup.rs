use minicraft::inventory::Inventory;
use minicraft::inventory::InventoryUpdate;
use minicraft::inventory::PlayerPickupSuccess;
use minicraft::inventory::Stackable;
use minicraft::item::Item;
use minicraft::pickup::add_to_inventory;
use minicraft::pickup::pick_up;
use minicraft::pickup::ItemPickup;
use minicraft::pickup::PickupOutcome;
use minicraft::pickup::PickupResult;
use minicraft::player::PlayerEntity;
use minicraft::world::GroundItem;
use minicraft::world::Holder;
use minicraft::world::World;

const PLAYER: u64 = 1;
const OTHER: u64 = 2;
const NOBODY: u64 = 3;

fn thing(name: &str, amt: u32) -> Item {
    Item { name: name.to_string(), amt, sprite_index: 0 }
}

fn on_ground(entity: u64, name: &str, amt: u32, stackable: bool) -> GroundItem {
    GroundItem {
        entity,
        item: thing(name, amt),
        stackable: if stackable { Some(Stackable) } else { None },
    }
}

fn wish(who: u64, item: u64) -> ItemPickup {
    ItemPickup { item, what_item: String::new(), who }
}

fn world_of(player_items: Vec<Item>, capacity: i32, ground: Vec<GroundItem>) -> World {
    World {
        holders: vec![
            Holder { entity: PLAYER, inventory: Inventory { items: player_items, capacity } },
            Holder { entity: OTHER, inventory: Inventory::new(5) },
        ],
        ground,
    }
}

fn slots(world: &World, holder: usize) -> Vec<(String, u32)> {
    world.holders[holder].inventory.items.iter().map(|i| (i.name.clone(), i.amt)).collect()
}

fn lying(world: &World) -> Vec<u64> {
    world.ground.iter().map(|g| g.entity).collect()
}

fn refused(outcome: PickupOutcome) -> PickupResult {
    PickupResult { outcome, despawn: None, success: None, update: None }
}

#[test]
fn pickup_moves_the_item_into_the_inventory() {
    let mut world = world_of(vec![], 20, vec![on_ground(10, "Wood", 1, true)]);
    let result = pick_up(&mut world, &wish(PLAYER, 10), &PlayerEntity(PLAYER));
    assert_eq!(
        result,
        PickupResult {
            outcome: PickupOutcome::Inserted,
            despawn: Some(10),
            success: Some(PlayerPickupSuccess),
            update: Some(InventoryUpdate),
        }
    );
    assert_eq!(slots(&world, 0), vec![("Wood".to_string(), 1)]);
    assert!(world.ground.is_empty());
    assert!(result.outcome.is_picked());
}

#[test]
fn pickup_by_another_actor_makes_no_sound() {
    let mut world = world_of(vec![], 20, vec![on_ground(10, "Wood", 1, true)]);
    let result = pick_up(&mut world, &wish(OTHER, 10), &PlayerEntity(PLAYER));
    assert_eq!(
        result,
        PickupResult {
            outcome: PickupOutcome::Inserted,
            despawn: Some(10),
            success: None,
            update: Some(InventoryUpdate),
        }
    );
    assert!(slots(&world, 0).is_empty());
    assert_eq!(slots(&world, 1), vec![("Wood".to_string(), 1)]);
    assert!(world.ground.is_empty());
}

#[test]
fn pickup_stacks_onto_a_slot_of_the_same_name() {
    let mut world = world_of(
        vec![thing("Wood", 5)],
        20,
        vec![on_ground(10, "Pebble", 1, true), on_ground(11, "Wood", 1, true)],
    );
    let result = pick_up(&mut world, &wish(PLAYER, 11), &PlayerEntity(PLAYER));
    assert_eq!(result.outcome, PickupOutcome::Stacked);
    assert_eq!(result.despawn, Some(11));
    assert_eq!(slots(&world, 0), vec![("Wood".to_string(), 6)]);
    assert_eq!(lying(&world), vec![10]);
}

#[test]
fn pickup_at_the_stack_limit_still_takes_the_item() {
    let mut world = world_of(vec![thing("Wood", 999)], 20, vec![on_ground(10, "Wood", 1, true)]);
    let result = pick_up(&mut world, &wish(PLAYER, 10), &PlayerEntity(PLAYER));
    assert_eq!(result.outcome, PickupOutcome::Stacked);
    assert_eq!(result.despawn, Some(10));
    assert_eq!(slots(&world, 0), vec![("Wood".to_string(), 999)]);
    assert!(world.ground.is_empty());
}

#[test]
fn pickup_without_an_inventory_does_nothing() {
    let mut world = world_of(vec![], 20, vec![on_ground(10, "Wood", 1, true)]);
    let result = pick_up(&mut world, &wish(NOBODY, 10), &PlayerEntity(PLAYER));
    assert_eq!(result, refused(PickupOutcome::NoInventory));
    assert!(!result.outcome.is_picked());
    assert!(slots(&world, 0).is_empty());
    assert!(slots(&world, 1).is_empty());
    assert_eq!(lying(&world), vec![10]);
}

#[test]
fn pickup_into_a_full_inventory_leaves_the_item_on_the_ground() {
    let mut world = world_of(
        vec![thing("Wood", 5), thing("Pebble", 2)],
        2,
        vec![on_ground(10, "Iron", 1, true)],
    );
    let result = pick_up(&mut world, &wish(PLAYER, 10), &PlayerEntity(PLAYER));
    assert_eq!(result, refused(PickupOutcome::InventoryFull));
    assert_eq!(slots(&world, 0), vec![("Wood".to_string(), 5), ("Pebble".to_string(), 2)]);
    assert_eq!(lying(&world), vec![10]);
    assert_eq!(world.ground[0].item.name, "Iron");
    assert_eq!(world.ground[0].item.amt, 1);
    assert_eq!(world.ground[0].stackable, Some(Stackable));
}

#[test]
fn pickup_of_an_item_that_is_gone_does_nothing() {
    let mut world = world_of(vec![thing("Wood", 5)], 20, vec![on_ground(10, "Wood", 1, true)]);
    let result = pick_up(&mut world, &wish(PLAYER, 77), &PlayerEntity(PLAYER));
    assert_eq!(result, refused(PickupOutcome::ItemGone));
    assert_eq!(slots(&world, 0), vec![("Wood".to_string(), 5)]);
    assert_eq!(lying(&world), vec![10]);
}

#[test]
fn full_inventory_is_reported_before_a_missing_item() {
    let mut world = world_of(vec![thing("Wood", 5)], 1, vec![]);
    let result = pick_up(&mut world, &wish(PLAYER, 77), &PlayerEntity(PLAYER));
    assert_eq!(result.outcome, PickupOutcome::InventoryFull);
}

#[test]
fn missing_inventory_is_reported_before_a_missing_item() {
    let mut world = world_of(vec![], 20, vec![]);
    let result = pick_up(&mut world, &wish(NOBODY, 77), &PlayerEntity(PLAYER));
    assert_eq!(result.outcome, PickupOutcome::NoInventory);
}

#[test]
fn second_wish_for_the_same_item_is_ignored() {
    let mut world = world_of(vec![thing("Wood", 5)], 20, vec![on_ground(10, "Wood", 1, true)]);
    let results = add_to_inventory(
        &vec![wish(PLAYER, 10), wish(PLAYER, 10)],
        &mut world,
        &PlayerEntity(PLAYER),
    );
    assert_eq!(results.len(), 2);
    assert_eq!(results[0].outcome, PickupOutcome::Stacked);
    assert_eq!(results[0].despawn, Some(10));
    assert_eq!(results[1], refused(PickupOutcome::ItemGone));
    assert_eq!(slots(&world, 0), vec![("Wood".to_string(), 6)]);
    assert!(world.ground.is_empty());
}

#[test]
fn wish_left_over_from_an_earlier_tick_is_ignored() {
    let mut world = world_of(vec![], 20, vec![on_ground(10, "Wood", 1, true)]);
    let player = PlayerEntity(PLAYER);
    let first = add_to_inventory(&vec![wish(PLAYER, 10)], &mut world, &player);
    assert_eq!(first[0].outcome, PickupOutcome::Inserted);
    let second = add_to_inventory(&vec![wish(PLAYER, 10)], &mut world, &player);
    assert_eq!(second, vec![refused(PickupOutcome::ItemGone)]);
    let third = add_to_inventory(&vec![wish(OTHER, 10)], &mut world, &player);
    assert_eq!(third, vec![refused(PickupOutcome::ItemGone)]);
    assert_eq!(slots(&world, 0), vec![("Wood".to_string(), 1)]);
    assert!(slots(&world, 1).is_empty());
}

#[test]
fn wish_that_fills_the_inventory_shuts_out_the_next() {
    let mut world = world_of(
        vec![thing("Wood", 5)],
        2,
        vec![on_ground(10, "Pebble", 1, true), on_ground(11, "Wood", 1, true)],
    );
    let results = add_to_inventory(
        &vec![wish(PLAYER, 10), wish(PLAYER, 11)],
        &mut world,
        &PlayerEntity(PLAYER),
    );
    assert_eq!(results[0].outcome, PickupOutcome::Inserted);
    assert_eq!(results[1], refused(PickupOutcome::InventoryFull));
    assert_eq!(slots(&world, 0), vec![("Pebble".to_string(), 1), ("Wood".to_string(), 5)]);
    assert_eq!(lying(&world), vec![11]);
}

#[test]
fn wishes_are_looked_at_in_the_order_they_were_made() {
    let mut world = world_of(
        vec![thing("Wood", 5)],
        2,
        vec![on_ground(10, "Pebble", 1, true), on_ground(11, "Wood", 1, true)],
    );
    let results = add_to_inventory(
        &vec![wish(PLAYER, 11), wish(PLAYER, 10)],
        &mut world,
        &PlayerEntity(PLAYER),
    );
    assert_eq!(results[0].outcome, PickupOutcome::Stacked);
    assert_eq!(results[1].outcome, PickupOutcome::Inserted);
    assert_eq!(slots(&world, 0), vec![("Pebble".to_string(), 1), ("Wood".to_string(), 6)]);
    assert!(world.ground.is_empty());
}

#[test]
fn wish_that_fails_does_not_stop_the_ones_behind_it() {
    let mut world = world_of(
        vec![thing("Wood", 5)],
        1,
        vec![on_ground(10, "Pebble", 1, true), on_ground(11, "Iron", 3, false)],
    );
    let results = add_to_inventory(
        &vec![wish(NOBODY, 10), wish(PLAYER, 10), wish(OTHER, 99), wish(OTHER, 11)],
        &mut world,
        &PlayerEntity(PLAYER),
    );
    assert_eq!(
        results,
        vec![
            refused(PickupOutcome::NoInventory),
            refused(PickupOutcome::InventoryFull),
            refused(PickupOutcome::ItemGone),
            PickupResult {
                outcome: PickupOutcome::Inserted,
                despawn: Some(11),
                success: None,
                update: Some(InventoryUpdate),
            },
        ]
    );
    assert_eq!(slots(&world, 0), vec![("Wood".to_string(), 5)]);
    assert_eq!(slots(&world, 1), vec![("Iron".to_string(), 3)]);
    assert_eq!(lying(&world), vec![10]);
}

#[test]
fn no_wishes_change_nothing() {
    let mut world = world_of(vec![thing("Wood", 5)], 2, vec![on_ground(10, "Pebble", 1, true)]);
    let results = add_to_inventory(&vec![], &mut world, &PlayerEntity(PLAYER));
    assert!(results.is_empty());
    assert_eq!(slots(&world, 0), vec![("Wood".to_string(), 5)]);
    assert_eq!(lying(&world), vec![10]);
}

#[test]
fn inventories_stay_within_capacity_over_a_long_queue() {
    let mut ground = Vec::new();
    let mut wishes = Vec::new();
    for k in 0..30u64 {
        ground.push(on_ground(100 + k, &format!("Thing {}", k % 7), 1, k % 2 == 0));
        wishes.push(wish(if k % 3 == 0 { OTHER } else { PLAYER }, 100 + k));
    }
    let mut world = world_of(vec![], 4, ground);
    let results = add_to_inventory(&wishes, &mut world, &PlayerEntity(PLAYER));
    assert_eq!(results.len(), 30);
    for holder in world.holders.iter() {
        assert!(holder.inventory.items.len() as i32 <= holder.inventory.capacity);
    }
    let picked = results.iter().filter(|r| r.outcome.is_picked()).count();
    assert_eq!(world.ground.len(), 30 - picked);
    for result in results.iter() {
        assert_eq!(result.despawn.is_some(), result.outcome.is_picked());
        assert_eq!(result.update.is_some(), result.outcome.is_picked());
    }
}

#[test]
fn world_lookups_find_the_first_entry() {
    let world = world_of(vec![], 20, vec![on_ground(10, "Wood", 1, true), on_ground(11, "Pebble", 1, true)]);
    assert_eq!(world.holder_of(PLAYER), Some(0));
    assert_eq!(world.holder_of(OTHER), Some(1));
    assert_eq!(world.holder_of(NOBODY), None);
    assert_eq!(world.ground_item(11), Some(1));
    assert_eq!(world.ground_item(12), None);
    let empty = World::new();
    assert!(empty.holders.is_empty());
    assert!(empty.ground.is_empty());
    assert_eq!(empty.holder_of(PLAYER), None);
}
