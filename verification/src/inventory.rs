//! The inventory an actor carries, and how items get into it.
//!
//! An inventory is a list of slots, newest first, with a fixed capacity in
//! slots. A stackable item joins the first slot that bears its name, up to
//! [`MAX_ITEM_STACK`] units; any other item takes a new slot at the front.
//! An inventory whose slots are all taken accepts nothing, stackable or not.

use vstd::prelude::*;
use crate::item::Item;
use crate::item::ItemView;
use crate::lookup::first_at;
use crate::lookup::is_first_at;
use crate::lookup::lemma_first_at;
use crate::lookup::lemma_first_at_absent;
use crate::lookup::lemma_first_at_found;

verus! {

/// The most units that one slot holds.
pub const MAX_ITEM_STACK: u32 = 999;

/// Marks a ground item whose units pile up in one slot of an inventory.
#[derive(Debug, Clone, Copy, PartialEq, Eq, Structural)]
pub struct Stackable;

/// Tells the sound system that the player has picked something up.
#[derive(Debug, Clone, Copy, PartialEq, Eq, Structural)]
pub struct PlayerPickupSuccess;

/// Tells the menu that the slots it shows may be out of date.
#[derive(Debug, Clone, Copy, PartialEq, Eq, Structural)]
pub struct InventoryUpdate;

/// The slots of an actor, newest first, and how many there may be.
#[derive(Debug)]
pub struct Inventory {
    pub items: Vec<Item>,
    pub capacity: i32,
}

/// What an [`Inventory`] is: the views of its slots, and its capacity.
pub ghost struct InventoryView {
    pub items: Seq<ItemView>,
    pub capacity: int,
}

/// The views of a run of items, in order.
pub open spec fn item_views(items: Seq<Item>) -> Seq<ItemView> {
    items.map_values(|item: Item| item@)
}

/// The names of a run of items, in order.
pub open spec fn item_names(items: Seq<ItemView>) -> Seq<Seq<char>> {
    items.map_values(|item: ItemView| item.name)
}

/// The units in a slot that held `held` units after `gained` more arrive:
/// their sum, cut off at [`MAX_ITEM_STACK`]. A slot that is at or over the
/// limit already stays as it is, and what does not fit is lost.
pub open spec fn merged_amount(held: u32, gained: u32) -> u32 {
    if held >= MAX_ITEM_STACK {
        held
    } else if held + gained >= MAX_ITEM_STACK {
        MAX_ITEM_STACK
    } else {
        (held + gained) as u32
    }
}

impl View for Inventory {
    type V = InventoryView;

    open spec fn view(&self) -> InventoryView {
        InventoryView { items: item_views(self.items@), capacity: self.capacity as int }
    }
}

impl InventoryView {
    /// No more slots are taken than the capacity allows.
    pub open spec fn within_capacity(self) -> bool {
        self.items.len() <= self.capacity
    }

    /// Every slot is taken, so nothing more is accepted.
    pub open spec fn is_full(self) -> bool {
        self.items.len() >= self.capacity
    }

    /// The first slot that bears `name`.
    pub open spec fn slot_named(self, name: Seq<char>) -> Option<int> {
        first_at(item_names(self.items), name)
    }

    /// Whether `item` would join a slot that is there already.
    pub open spec fn stacks(self, item: ItemView, stackable: bool) -> bool {
        stackable && self.slot_named(item.name) is Some
    }

    /// The inventory with `item` put into it, whatever its capacity: merged
    /// into the first slot of its name where it stacks, and in a new slot at
    /// the front where it does not.
    pub open spec fn stored(self, item: ItemView, stackable: bool) -> InventoryView {
        if self.stacks(item, stackable) {
            let slot = self.slot_named(item.name).unwrap();
            let held = self.items[slot];
            InventoryView {
                items: self.items.update(
                    slot,
                    ItemView {
                        name: held.name,
                        amt: merged_amount(held.amt, item.amt),
                        sprite_index: held.sprite_index,
                    },
                ),
                capacity: self.capacity,
            }
        } else {
            InventoryView { items: self.items.insert(0, item), capacity: self.capacity }
        }
    }

    /// The inventory after an attempt to pick `item` up: unchanged where it
    /// is full, and with the item stored where it is not.
    pub open spec fn picked_up(self, item: ItemView, stackable: bool) -> InventoryView {
        if self.is_full() {
            self
        } else {
            self.stored(item, stackable)
        }
    }
}

/// How an attempt to put an item into one inventory ended.
#[derive(Debug, Clone, Copy, PartialEq, Eq, Structural)]
pub enum Stored {
    /// Every slot was taken; the inventory is as it was.
    Full,
    /// The units went into a slot that was there already.
    Stacked,
    /// The item took a new slot at the front.
    Inserted,
}

/// How the attempt to pick `item` up into `inventory` ends.
pub open spec fn stored_as(inventory: InventoryView, item: ItemView, stackable: bool) -> Stored {
    if inventory.is_full() {
        Stored::Full
    } else if inventory.stacks(item, stackable) {
        Stored::Stacked
    } else {
        Stored::Inserted
    }
}

/// The sum of `held` and `gained`, cut off at [`MAX_ITEM_STACK`].
pub fn merge_amounts(held: u32, gained: u32) -> (amt: u32)
    ensures
        amt == merged_amount(held, gained),
{
    if held >= MAX_ITEM_STACK {
        held
    } else if gained >= MAX_ITEM_STACK - held {
        MAX_ITEM_STACK
    } else {
        held + gained
    }
}

impl Default for Inventory {
    fn default() -> (inventory: Self)
        ensures
            inventory@.items == Seq::<ItemView>::empty(),
            inventory@.capacity == 0,
    {
        Inventory::new(0)
    }
}

impl Inventory {
    /// An inventory with no slot taken and room for `capacity` of them.
    pub fn new(capacity: i32) -> (inventory: Self)
        ensures
            inventory@.items == Seq::<ItemView>::empty(),
            inventory@.capacity == capacity,
            capacity >= 0 ==> inventory@.within_capacity(),
    {
        Inventory { items: Vec::new(), capacity }
    }

    /// Whether every slot is taken.
    pub fn is_full(&self) -> (full: bool)
        ensures
            full == self@.is_full(),
    {
        if self.capacity <= 0 {
            true
        } else {
            self.items.len() >= self.capacity as usize
        }
    }

    /// The first slot that bears `name`.
    pub fn slot_named(&self, name: &String) -> (slot: Option<usize>)
        ensures
            match slot {
                Some(i) => self@.slot_named(name@) == Some(i as int),
                None => self@.slot_named(name@) is None,
            },
    {
        let ghost names = item_names(self@.items);
        let mut i: usize = 0;
        while i < self.items.len()
            invariant
                i <= self.items.len(),
                names == item_names(self@.items),
                forall|j: int| 0 <= j < i ==> names[j] != name@,
            decreases self.items.len() - i,
        {
            if self.items[i].name == *name {
                proof {
                    lemma_first_at_found(names, name@, i as int);
                }
                return Some(i);
            }
            i = i + 1;
        }
        proof {
            lemma_first_at_absent(names, name@);
        }
        None
    }

    /// Puts `item` into the inventory without asking for room.
    fn store(&mut self, item: Item, stackable: bool) -> (stacked: bool)
        ensures
            final(self)@ == old(self)@.stored(item@, stackable),
            stacked == old(self)@.stacks(item@, stackable),
    {
        let found = if stackable {
            self.slot_named(&item.name)
        } else {
            None
        };
        match found {
            Some(slot) => {
                let amt = merge_amounts(self.items[slot].amt, item.amt);
                let held = &mut self.items[slot];
                held.amt = amt;
                assert(self@.items =~= old(self)@.stored(item@, stackable).items);
                true
            },
            None => {
                self.items.insert(0, item);
                assert(self@.items =~= old(self)@.stored(item@, stackable).items);
                false
            },
        }
    }

    /// Picks `item` up: refused where every slot is taken, else merged into
    /// the slot of its name or put into a new slot at the front.
    pub fn pick_up(&mut self, item: Item, stackable: Option<Stackable>) -> (how: Stored)
        ensures
            how == stored_as(old(self)@, item@, stackable.is_some()),
            final(self)@ == old(self)@.picked_up(item@, stackable.is_some()),
            !(how is Full) ==> final(self)@.within_capacity(),
            old(self)@.within_capacity() ==> final(self)@.within_capacity(),
    {
        proof {
            lemma_picked_up_within_capacity(old(self)@, item@, stackable.is_some());
        }
        if self.is_full() {
            Stored::Full
        } else if self.store(item, stackable.is_some()) {
            Stored::Stacked
        } else {
            Stored::Inserted
        }
    }
}

/// Merging never takes units away, and never carries a slot over
/// [`MAX_ITEM_STACK`] that was not over it before.
pub proof fn lemma_merged_amount_bounds(held: u32, gained: u32)
    ensures
        merged_amount(held, gained) >= held,
        merged_amount(held, gained) <= held + gained,
        held <= MAX_ITEM_STACK ==> merged_amount(held, gained) <= MAX_ITEM_STACK,
        held + gained <= MAX_ITEM_STACK ==> merged_amount(held, gained) == held + gained,
        held == MAX_ITEM_STACK ==> merged_amount(held, gained) == MAX_ITEM_STACK,
{
}

/// An item that stacks takes no new slot: the first slot of its name gains
/// its units, up to the limit, and every other slot stays as it was.
pub proof fn lemma_stacked_item_merges(inventory: InventoryView, item: ItemView, stackable: bool)
    requires
        inventory.stacks(item, stackable),
    ensures
        ({
            let slot = inventory.slot_named(item.name).unwrap();
            let after = inventory.stored(item, stackable);
            &&& is_first_at(item_names(inventory.items), item.name, slot)
            &&& after.capacity == inventory.capacity
            &&& after.items.len() == inventory.items.len()
            &&& after.items[slot].name == item.name
            &&& after.items[slot].amt == merged_amount(inventory.items[slot].amt, item.amt)
            &&& after.items[slot].sprite_index == inventory.items[slot].sprite_index
            &&& forall|k: int|
                0 <= k < inventory.items.len() && k != slot ==> after.items[k] == inventory.items[k]
        }),
{
    lemma_first_at(item_names(inventory.items), item.name);
}

/// An item that does not stack takes the front slot, and every slot that was
/// there moves down by one.
pub proof fn lemma_new_item_goes_first(inventory: InventoryView, item: ItemView, stackable: bool)
    requires
        !inventory.stacks(item, stackable),
    ensures
        ({
            let after = inventory.stored(item, stackable);
            &&& after.capacity == inventory.capacity
            &&& after.items.len() == inventory.items.len() + 1
            &&& after.items[0] == item
            &&& forall|k: int|
                0 <= k < inventory.items.len() ==> after.items[k + 1] == inventory.items[k]
        }),
{
}

/// An item stacks exactly where it is stackable and some slot bears its name.
pub proof fn lemma_stacks_iff_named(inventory: InventoryView, item: ItemView, stackable: bool)
    ensures
        inventory.stacks(item, stackable) <==> stackable && exists|k: int|
            0 <= k < inventory.items.len() && (#[trigger] inventory.items[k]).name == item.name,
{
    let names = item_names(inventory.items);
    lemma_first_at(names, item.name);
    if stackable && inventory.slot_named(item.name) is None {
        assert forall|k: int| 0 <= k < inventory.items.len() implies (
        #[trigger] inventory.items[k]).name != item.name by {
            assert(names[k] == inventory.items[k].name);
        }
    }
}

/// A full inventory refuses whatever is offered, and is left as it was; an
/// inventory that accepts an item holds no more slots than its capacity
/// afterwards, whatever it held before.
pub proof fn lemma_picked_up_within_capacity(
    inventory: InventoryView,
    item: ItemView,
    stackable: bool,
)
    ensures
        inventory.is_full() ==> inventory.picked_up(item, stackable) == inventory,
        inventory.is_full() <==> stored_as(inventory, item, stackable) is Full,
        !inventory.is_full() ==> inventory.picked_up(item, stackable).within_capacity(),
        inventory.within_capacity() ==> inventory.picked_up(item, stackable).within_capacity(),
        inventory.picked_up(item, stackable).capacity == inventory.capacity,
{
    if !inventory.is_full() {
        if inventory.stacks(item, stackable) {
            lemma_stacked_item_merges(inventory, item, stackable);
        } else {
            lemma_new_item_goes_first(inventory, item, stackable);
        }
    }
}

} // verus!
