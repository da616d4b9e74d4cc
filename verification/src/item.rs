//! Items, and the items that lie on the ground when play starts.
//!
//! Two items are the same kind of thing when they bear the same name, however
//! many units each holds: `==` on [`Item`] compares names and nothing else.

use vstd::prelude::*;
use crate::inventory::Stackable;
use crate::text::decimal;
use crate::text::decimal_text;
use crate::text::lemma_decimal_denotes;

verus! {

/// Height of the layer that ground items are drawn on.
pub const Z_ITEM: i32 = 35;

/// A named thing, some number of units of it, and the picture it is drawn with.
#[derive(Debug)]
pub struct Item {
    pub name: String,
    pub amt: u32,
    pub sprite_index: u32,
}

/// What an [`Item`] is, with its name as a sequence of characters.
pub ghost struct ItemView {
    pub name: Seq<char>,
    pub amt: u32,
    pub sprite_index: u32,
}

impl View for Item {
    type V = ItemView;

    open spec fn view(&self) -> ItemView {
        ItemView { name: self.name@, amt: self.amt, sprite_index: self.sprite_index }
    }
}

impl Clone for Item {
    fn clone(&self) -> (copy: Self)
        ensures
            copy == *self,
    {
        Item { name: self.name.clone(), amt: self.amt, sprite_index: self.sprite_index }
    }
}

impl PartialEq for Item {
    fn eq(&self, other: &Self) -> (same: bool) {
        self.name == other.name
    }
}

impl vstd::std_specs::cmp::PartialEqSpecImpl for Item {
    open spec fn obeys_eq_spec() -> bool {
        true
    }

    open spec fn eq_spec(&self, other: &Self) -> bool {
        self.name@ == other.name@
    }
}

impl Eq for Item {

}

/// The item that stands for nothing: no units of a thing called `Empty`.
pub open spec fn empty_item() -> ItemView {
    ItemView { name: seq!['E', 'm', 'p', 't', 'y'], amt: 0, sprite_index: 0 }
}

/// One pebble.
pub open spec fn pebble_item() -> ItemView {
    ItemView { name: seq!['p', 'e', 'b', 'b', 'l', 'e'], amt: 1, sprite_index: 2 }
}

/// One piece of wood of no particular sort.
pub open spec fn wood_item() -> ItemView {
    ItemView { name: seq!['W', 'o', 'o', 'd'], amt: 1, sprite_index: 4 }
}

/// One piece of wood of the given sort; the sort is a single digit appended
/// to the name, so that ten sorts of wood stack apart from one another.
pub open spec fn sorted_wood_item(sort: nat) -> ItemView {
    ItemView {
        name: seq!['W', 'o', 'o', 'd', ',', ' '] + decimal(sort),
        amt: 1,
        sprite_index: 4,
    }
}

/// Wood of two sorts bears two names, so the sorts never share a slot.
pub proof fn lemma_wood_sorts_stack_apart(a: nat, b: nat)
    ensures
        sorted_wood_item(a).name == sorted_wood_item(b).name ==> a == b,
{
    let prefix = seq!['W', 'o', 'o', 'd', ',', ' '];
    if sorted_wood_item(a).name == sorted_wood_item(b).name {
        assert(decimal(a) =~= (prefix + decimal(a)).subrange(6, 6 + decimal(a).len() as int));
        assert(decimal(b) =~= (prefix + decimal(b)).subrange(6, 6 + decimal(b).len() as int));
        lemma_decimal_denotes(a, b);
    }
}

impl Default for Item {
    fn default() -> (item: Self)
        ensures
            item@ == empty_item(),
    {
        proof {
            reveal_strlit("Empty");
        }
        let name = "Empty".to_owned();
        assert(name@ =~= empty_item().name);
        Item { name, amt: 0, sprite_index: 0 }
    }
}

impl Item {
    /// One pebble.
    pub fn pebble() -> (item: Item)
        ensures
            item@ == pebble_item(),
    {
        proof {
            reveal_strlit("pebble");
        }
        let name = "pebble".to_owned();
        assert(name@ =~= pebble_item().name);
        Item { name, amt: 1, sprite_index: 2 }
    }

    /// One piece of wood of no particular sort.
    pub fn wood() -> (item: Item)
        ensures
            item@ == wood_item(),
    {
        proof {
            reveal_strlit("Wood");
        }
        let name = "Wood".to_owned();
        assert(name@ =~= wood_item().name);
        Item { name, amt: 1, sprite_index: 4 }
    }

    /// One piece of wood of sort `sort`, named `Wood, ` and the sort's number.
    pub fn sorted_wood(sort: u32) -> (item: Item)
        ensures
            item@ == sorted_wood_item(sort as nat),
    {
        proof {
            reveal_strlit("Wood, ");
        }
        let mut name = "Wood, ".to_owned();
        let number = decimal_text(sort);
        name.append(number.as_str());
        assert(name@ =~= sorted_wood_item(sort as nat).name);
        Item { name, amt: 1, sprite_index: 4 }
    }
}

/// An item to be put on the ground, with the place it goes to.
#[derive(Debug)]
pub struct GroundSpawn {
    pub item: Item,
    pub stackable: Option<Stackable>,
    pub x: i32,
    pub y: i32,
    pub z: i32,
}

/// What a [`GroundSpawn`] is, over the view of its item.
pub ghost struct GroundSpawnView {
    pub item: ItemView,
    pub stackable: bool,
    pub x: int,
    pub y: int,
    pub z: int,
}

impl View for GroundSpawn {
    type V = GroundSpawnView;

    open spec fn view(&self) -> GroundSpawnView {
        GroundSpawnView {
            item: self.item@,
            stackable: self.stackable.is_some(),
            x: self.x as int,
            y: self.y as int,
            z: self.z as int,
        }
    }
}

/// Number of pieces of wood laid out at the start.
pub const WOOD_SPAWNS: u32 = 100;

/// Number of pebbles laid out at the start.
pub const PEBBLE_SPAWNS: u32 = 10;

/// The `k`-th item laid out at the start. A row of a hundred pieces of wood
/// comes first, two units apart and cycling through ten sorts; a row of ten
/// pebbles follows, twenty units apart. Both rows begin at `x = 30`, and
/// everything on the ground stacks.
pub open spec fn start_spawn(k: int) -> GroundSpawnView {
    if k < WOOD_SPAWNS {
        GroundSpawnView {
            item: sorted_wood_item((k % 10) as nat),
            stackable: true,
            x: 30 + 2 * k,
            y: 5,
            z: Z_ITEM as int,
        }
    } else {
        GroundSpawnView {
            item: pebble_item(),
            stackable: true,
            x: 30 + 20 * (k - WOOD_SPAWNS),
            y: 20,
            z: Z_ITEM as int,
        }
    }
}

/// The items that lie on the ground when play starts, in the order in which
/// they are to be spawned.
pub fn startup() -> (spawns: Vec<GroundSpawn>)
    ensures
        spawns@.len() == WOOD_SPAWNS + PEBBLE_SPAWNS,
        forall|k: int| 0 <= k < spawns@.len() ==> (#[trigger] spawns@[k])@ == start_spawn(k),
{
    let mut spawns: Vec<GroundSpawn> = Vec::new();
    let mut i: u32 = 0;
    while i < WOOD_SPAWNS
        invariant
            i <= WOOD_SPAWNS,
            spawns@.len() == i,
            forall|k: int| 0 <= k < spawns@.len() ==> (#[trigger] spawns@[k])@ == start_spawn(k),
        decreases WOOD_SPAWNS - i,
    {
        let x: i32 = 30 + 2 * (i as i32);
        spawns.push(
            GroundSpawn {
                item: Item::sorted_wood(i % 10),
                stackable: Some(Stackable),
                x,
                y: 5,
                z: Z_ITEM,
            },
        );
        i = i + 1;
    }
    let mut j: u32 = 0;
    while j < PEBBLE_SPAWNS
        invariant
            j <= PEBBLE_SPAWNS,
            spawns@.len() == WOOD_SPAWNS + j,
            forall|k: int| 0 <= k < spawns@.len() ==> (#[trigger] spawns@[k])@ == start_spawn(k),
        decreases PEBBLE_SPAWNS - j,
    {
        let x: i32 = 30 + 20 * (j as i32);
        spawns.push(
            GroundSpawn { item: Item::pebble(), stackable: Some(Stackable), x, y: 20, z: Z_ITEM },
        );
        j = j + 1;
    }
    spawns
}

} // verus!
