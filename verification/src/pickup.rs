//! Picking items up from the ground: one intent at a time, in the order in
//! which the intents were made.
//!
//! An intent names a ground item and the entity that wants it. It is looked at
//! in three steps, and the first step that fails ends it with the world left
//! as it was: the entity must carry an inventory; the inventory must have a
//! free slot, whether or not the item would need one; the item must still
//! lie on the ground. An intent that passes all three takes the item off the
//! ground and puts it into the inventory.

use vstd::prelude::*;
use crate::inventory::InventoryUpdate;
use crate::inventory::PlayerPickupSuccess;
use crate::inventory::Stored;
use crate::inventory::lemma_picked_up_within_capacity;
use crate::lookup::lemma_first_at;
use crate::player::PlayerEntity;
use crate::world::HolderView;
use crate::world::World;
use crate::world::WorldView;

verus! {

/// The intent of `who` to pick up the ground item `item`.
#[derive(Debug)]
pub struct ItemPickup {
    pub item: u64,
    pub what_item: String,
    pub who: u64,
}

/// What an [`ItemPickup`] is, with the name as a sequence of characters.
pub ghost struct ItemPickupView {
    pub item: u64,
    pub what_item: Seq<char>,
    pub who: u64,
}

impl View for ItemPickup {
    type V = ItemPickupView;

    open spec fn view(&self) -> ItemPickupView {
        ItemPickupView { item: self.item, what_item: self.what_item@, who: self.who }
    }
}

/// The views of a run of intents, in order.
pub open spec fn intent_views(events: Seq<ItemPickup>) -> Seq<ItemPickupView> {
    events.map_values(|event: ItemPickup| event@)
}

/// How an intent ended.
#[derive(Debug, Clone, Copy, PartialEq, Eq, Structural)]
pub enum PickupOutcome {
    /// The entity carries no inventory.
    NoInventory,
    /// Every slot of the inventory is taken.
    InventoryFull,
    /// The item does not lie on the ground any more.
    ItemGone,
    /// The item's units went into a slot that was there already.
    Stacked,
    /// The item took a new slot at the front of the inventory.
    Inserted,
}

impl PickupOutcome {
    /// Whether the item left the ground for the inventory.
    pub open spec fn picked(self) -> bool {
        self is Stacked || self is Inserted
    }

    /// Whether the item left the ground for the inventory.
    pub fn is_picked(&self) -> (picked: bool)
        ensures
            picked == self.picked(),
    {
        match self {
            PickupOutcome::Stacked => true,
            PickupOutcome::Inserted => true,
            _ => false,
        }
    }
}

/// How an intent ended, and what is to be done about it: the entity to take out
/// of the world, and the messages to send.
#[derive(Debug, Clone, Copy, PartialEq, Eq, Structural)]
pub struct PickupResult {
    pub outcome: PickupOutcome,
    pub despawn: Option<u64>,
    pub success: Option<PlayerPickupSuccess>,
    pub update: Option<InventoryUpdate>,
}

impl WorldView {
    /// How the intent of `who` for `item` ends in this world.
    pub open spec fn outcome_of(self, who: u64, item: u64) -> PickupOutcome {
        match self.holder_of(who) {
            None => PickupOutcome::NoInventory,
            Some(h) => {
                let inventory = self.holders[h].inventory;
                if inventory.is_full() {
                    PickupOutcome::InventoryFull
                } else {
                    match self.ground_item(item) {
                        None => PickupOutcome::ItemGone,
                        Some(g) => {
                            let found = self.ground[g];
                            if inventory.stacks(found.item, found.stackable) {
                                PickupOutcome::Stacked
                            } else {
                                PickupOutcome::Inserted
                            }
                        },
                    }
                }
            },
        }
    }

    /// The world after the intent of `who` for `item`: as it was where the
    /// intent fails, and else with the item off the ground and in the
    /// inventory of `who`.
    pub open spec fn after_pickup(self, who: u64, item: u64) -> WorldView {
        if self.outcome_of(who, item).picked() {
            let h = self.holder_of(who).unwrap();
            let g = self.ground_item(item).unwrap();
            let holder = self.holders[h];
            WorldView {
                holders: self.holders.update(
                    h,
                    HolderView {
                        entity: holder.entity,
                        inventory: holder.inventory.stored(
                            self.ground[g].item,
                            self.ground[g].stackable,
                        ),
                    },
                ),
                ground: self.ground.remove(g),
            }
        } else {
            self
        }
    }

    /// How the intent ends and what is to be done about it. The item is taken
    /// out of the world and the menu is told exactly where the item was
    /// picked up; the sound is asked for where, besides, it was the player
    /// who picked it up.
    pub open spec fn result_of(self, who: u64, item: u64, player: u64) -> PickupResult {
        let outcome = self.outcome_of(who, item);
        PickupResult {
            outcome,
            despawn: if outcome.picked() {
                Some(item)
            } else {
                None
            },
            success: if outcome.picked() && who == player {
                Some(PlayerPickupSuccess)
            } else {
                None
            },
            update: if outcome.picked() {
                Some(InventoryUpdate)
            } else {
                None
            },
        }
    }

    /// The world after a run of intents, each looked at in the world that the
    /// intents before it have left.
    pub open spec fn after_pickups(self, intents: Seq<ItemPickupView>) -> WorldView
        decreases intents.len(),
    {
        if intents.len() == 0 {
            self
        } else {
            let last = intents.last();
            self.after_pickups(intents.drop_last()).after_pickup(last.who, last.item)
        }
    }

    /// What the `i`-th intent of a run comes to.
    pub open spec fn result_at(
        self,
        intents: Seq<ItemPickupView>,
        i: int,
        player: u64,
    ) -> PickupResult {
        self.after_pickups(intents.take(i)).result_of(intents[i].who, intents[i].item, player)
    }
}

/// The result of an intent that failed: nothing is to be done about it.
fn rejected(outcome: PickupOutcome) -> (result: PickupResult)
    requires
        !outcome.picked(),
    ensures
        result == (PickupResult { outcome, despawn: None, success: None, update: None }),
{
    PickupResult { outcome, despawn: None, success: None, update: None }
}

/// Looks at one intent and carries it out where it can be.
pub fn pick_up(
    world: &mut World,
    event: &ItemPickup,
    player_e: &PlayerEntity,
) -> (result: PickupResult)
    ensures
        result == old(world)@.result_of(event.who, event.item, player_e.0),
        final(world)@ == old(world)@.after_pickup(event.who, event.item),
        old(world)@.within_capacity() ==> final(world)@.within_capacity(),
{
    proof {
        lemma_pickup_within_capacity(old(world)@, event.who, event.item);
    }
    let h = match world.holder_of(event.who) {
        Some(h) => h,
        None => {
            return rejected(PickupOutcome::NoInventory);
        },
    };
    if world.holders[h].inventory.is_full() {
        return rejected(PickupOutcome::InventoryFull);
    }
    let g = match world.ground_item(event.item) {
        Some(g) => g,
        None => {
            return rejected(PickupOutcome::ItemGone);
        },
    };
    let picked = world.ground.remove(g);
    let how = world.holders[h].inventory.pick_up(picked.item, picked.stackable);
    let outcome = match how {
        Stored::Stacked => PickupOutcome::Stacked,
        _ => PickupOutcome::Inserted,
    };
    assert(world@.ground =~= old(world)@.after_pickup(event.who, event.item).ground);
    assert(world@.holders =~= old(world)@.after_pickup(event.who, event.item).holders);
    PickupResult {
        outcome,
        despawn: Some(event.item),
        success: if event.who == player_e.0 {
            Some(PlayerPickupSuccess)
        } else {
            None
        },
        update: Some(InventoryUpdate),
    }
}

/// Looks at the intents of one tick in the order in which they were made, and
/// reports what each came to.
pub fn add_to_inventory(
    events: &Vec<ItemPickup>,
    world: &mut World,
    player_e: &PlayerEntity,
) -> (results: Vec<PickupResult>)
    ensures
        final(world)@ == old(world)@.after_pickups(intent_views(events@)),
        results@.len() == events@.len(),
        forall|i: int|
            0 <= i < events@.len() ==> #[trigger] results@[i] == old(world)@.result_at(
                intent_views(events@),
                i,
                player_e.0,
            ),
        old(world)@.within_capacity() ==> final(world)@.within_capacity(),
{
    proof {
        lemma_pickups_within_capacity(old(world)@, intent_views(events@));
    }
    let ghost intents = intent_views(events@);
    let mut results: Vec<PickupResult> = Vec::new();
    let mut i: usize = 0;
    while i < events.len()
        invariant
            i <= events.len(),
            intents == intent_views(events@),
            world@ == old(world)@.after_pickups(intents.take(i as int)),
            results@.len() == i,
            forall|k: int|
                0 <= k < i ==> #[trigger] results@[k] == old(world)@.result_at(
                    intents,
                    k,
                    player_e.0,
                ),
        decreases events.len() - i,
    {
        assert(intents.take(i + 1).drop_last() =~= intents.take(i as int));
        let result = pick_up(world, &events[i], player_e);
        results.push(result);
        i = i + 1;
    }
    assert(intents.take(i as int) =~= intents);
    results
}

/// An intent touches the inventory of the one who made it and nothing else
/// that is carried: nobody gains or loses an inventory, no capacity changes,
/// and an intent that fails leaves the whole world as it was.
pub proof fn lemma_pickup_frame(world: WorldView, who: u64, item: u64)
    ensures
        ({
            let after = world.after_pickup(who, item);
            &&& after.holders.len() == world.holders.len()
            &&& after.holder_ids() == world.holder_ids()
            &&& forall|h: int|
                0 <= h < world.holders.len() ==> (#[trigger] after.holders[h]).inventory.capacity
                    == world.holders[h].inventory.capacity
            &&& forall|h: int|
                0 <= h < world.holders.len() && world.holder_of(who) != Some(h)
                    ==> #[trigger] after.holders[h] == world.holders[h]
            &&& !world.outcome_of(who, item).picked() ==> after == world
        }),
{
    lemma_first_at(world.holder_ids(), who);
    lemma_first_at(world.ground_ids(), item);
}

/// An inventory that is full turns every intent down, also one for an item
/// that would go into a slot that is there already. The inventory stays as
/// it was, and the item stays on the ground.
pub proof fn lemma_full_inventory_refuses(world: WorldView, who: u64, item: u64)
    requires
        world.holder_of(who) is Some,
        world.holders[world.holder_of(who).unwrap()].inventory.is_full(),
    ensures
        world.outcome_of(who, item) == PickupOutcome::InventoryFull,
        world.after_pickup(who, item) == world,
{
}

/// An intent leaves every inventory within its capacity that was so before,
/// and the inventory that takes the item is within its capacity afterwards
/// whatever it held before.
pub proof fn lemma_pickup_within_capacity(world: WorldView, who: u64, item: u64)
    ensures
        ({
            let after = world.after_pickup(who, item);
            &&& after.holders.len() == world.holders.len()
            &&& forall|h: int|
                0 <= h < world.holders.len() && world.holders[h].inventory.within_capacity() ==> (
                #[trigger] after.holders[h]).inventory.within_capacity()
            &&& world.outcome_of(who, item).picked() ==> after.holders[world.holder_of(
                who,
            ).unwrap()].inventory.within_capacity()
            &&& world.within_capacity() ==> after.within_capacity()
        }),
{
    lemma_pickup_frame(world, who, item);
    if world.outcome_of(who, item).picked() {
        let h = world.holder_of(who).unwrap();
        let g = world.ground_item(item).unwrap();
        lemma_first_at(world.holder_ids(), who);
        lemma_first_at(world.ground_ids(), item);
        lemma_picked_up_within_capacity(
            world.holders[h].inventory,
            world.ground[g].item,
            world.ground[g].stackable,
        );
    }
}

/// However many intents are looked at, and in whatever order they come, each
/// inventory either is as it was before the first of them or holds no more
/// slots than its capacity. No inventory comes or goes, and none changes its
/// capacity.
pub proof fn lemma_pickups_within_capacity(world: WorldView, intents: Seq<ItemPickupView>)
    ensures
        ({
            let after = world.after_pickups(intents);
            &&& after.holders.len() == world.holders.len()
            &&& after.holder_ids() == world.holder_ids()
            &&& forall|h: int|
                0 <= h < world.holders.len() ==> (#[trigger] after.holders[h]).inventory.capacity
                    == world.holders[h].inventory.capacity
            &&& forall|h: int|
                0 <= h < world.holders.len() ==> #[trigger] after.holders[h] == world.holders[h]
                    || after.holders[h].inventory.within_capacity()
            &&& world.within_capacity() ==> after.within_capacity()
        }),
    decreases intents.len(),
{
    if intents.len() > 0 {
        let before = world.after_pickups(intents.drop_last());
        let last = intents.last();
        lemma_pickups_within_capacity(world, intents.drop_last());
        lemma_pickup_frame(before, last.who, last.item);
        lemma_pickup_within_capacity(before, last.who, last.item);
    }
}

/// Looking at a run of intents and then at a second run comes to the same as
/// looking at the two runs as one: only the order of the intents counts, not
/// how they are cut into runs.
pub proof fn lemma_pickups_in_runs(
    world: WorldView,
    first: Seq<ItemPickupView>,
    second: Seq<ItemPickupView>,
)
    ensures
        world.after_pickups(first + second) == world.after_pickups(first).after_pickups(second),
    decreases second.len(),
{
    if second.len() == 0 {
        assert(first + second =~= first);
    } else {
        lemma_pickups_in_runs(world, first, second.drop_last());
        assert((first + second).drop_last() =~= first + second.drop_last());
    }
}

/// An intent takes nothing off the ground but the item it names, and puts
/// nothing there: an item that does not lie on the ground before an intent
/// does not lie there after it, and distinct identifiers stay distinct.
pub proof fn lemma_pickup_ground(world: WorldView, who: u64, item: u64, other: u64)
    ensures
        !world.ground_ids().contains(other) ==> !world.after_pickup(who, item).ground_ids().contains(
            other,
        ),
        world.ground_ids().no_duplicates() ==> world.after_pickup(
            who,
            item,
        ).ground_ids().no_duplicates(),
        world.ground_ids().no_duplicates() && world.outcome_of(who, item).picked()
            ==> !world.after_pickup(who, item).ground_ids().contains(item),
{
    if world.outcome_of(who, item).picked() {
        lemma_first_at(world.ground_ids(), item);
        let g = world.ground_item(item).unwrap();
        let ids = world.ground_ids();
        let left = ids.remove(g);
        assert(world.after_pickup(who, item).ground_ids() =~= left);
        assert forall|k: int| 0 <= k < left.len() implies #[trigger] left[k] == ids[if k < g {
            k
        } else {
            k + 1
        }] by {}
    }
}

/// An item that does not lie on the ground is picked up by nobody.
pub proof fn lemma_absent_item_is_gone(world: WorldView, who: u64, item: u64)
    requires
        !world.ground_ids().contains(item),
    ensures
        world.ground_item(item) is None,
        !world.outcome_of(who, item).picked(),
        world.after_pickup(who, item) == world,
{
    lemma_first_at(world.ground_ids(), item);
}

/// Once an item has been picked up, a second intent for it does nothing,
/// whoever makes it: the item is gone from the ground, so the intent ends
/// without a change to any inventory.
pub proof fn lemma_picked_item_is_gone(world: WorldView, who: u64, item: u64, next: u64)
    requires
        world.ground_ids().no_duplicates(),
        world.outcome_of(who, item).picked(),
    ensures
        ({
            let after = world.after_pickup(who, item);
            &&& after.ground_item(item) is None
            &&& !after.outcome_of(next, item).picked()
            &&& after.after_pickup(next, item) == after
        }),
{
    lemma_pickup_ground(world, who, item, item);
    lemma_absent_item_is_gone(world.after_pickup(who, item), next, item);
}

/// What holds of the ground after one intent holds after any run of them.
pub proof fn lemma_pickups_ground(world: WorldView, intents: Seq<ItemPickupView>, other: u64)
    ensures
        !world.ground_ids().contains(other) ==> !world.after_pickups(intents).ground_ids().contains(
            other,
        ),
        world.ground_ids().no_duplicates() ==> world.after_pickups(
            intents,
        ).ground_ids().no_duplicates(),
    decreases intents.len(),
{
    if intents.len() > 0 {
        lemma_pickups_ground(world, intents.drop_last(), other);
        let before = world.after_pickups(intents.drop_last());
        lemma_pickup_ground(before, intents.last().who, intents.last().item, other);
    }
}

/// In a run of intents no item is picked up twice: where an earlier intent
/// has taken an item, every later intent for the same item ends without
/// effect.
pub proof fn lemma_no_item_picked_twice(
    world: WorldView,
    intents: Seq<ItemPickupView>,
    earlier: int,
    later: int,
    player: u64,
)
    requires
        world.ground_ids().no_duplicates(),
        0 <= earlier < later < intents.len(),
        intents[earlier].item == intents[later].item,
        world.result_at(intents, earlier, player).outcome.picked(),
    ensures
        !world.result_at(intents, later, player).outcome.picked(),
        world.result_at(intents, later, player).despawn is None,
        world.after_pickups(intents.take(later + 1)) == world.after_pickups(intents.take(later)),
{
    let item = intents[earlier].item;
    let taken = intents.take(earlier + 1);
    let rest = intents.subrange(earlier + 1, later);
    // the item leaves the ground with the earlier intent
    assert(taken.drop_last() =~= intents.take(earlier));
    lemma_pickups_ground(world, intents.take(earlier), item);
    lemma_pickup_ground(
        world.after_pickups(intents.take(earlier)),
        intents[earlier].who,
        item,
        item,
    );
    // and nothing between the two intents brings it back
    assert(intents.take(later) =~= taken + rest);
    lemma_pickups_in_runs(world, taken, rest);
    lemma_pickups_ground(world.after_pickups(taken), rest, item);
    lemma_absent_item_is_gone(world.after_pickups(intents.take(later)), intents[later].who, item);
    assert(intents.take(later + 1).drop_last() =~= intents.take(later));
}

} // verus!
