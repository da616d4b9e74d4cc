//! What the pickup rules see of the world: who carries an inventory, and
//! which items lie on the ground.
//!
//! Every entry bears the identifier of its entity. Identifiers are expected
//! to be distinct within each list; where one occurs twice, the first entry
//! that bears it is the one that counts.

use vstd::prelude::*;
use crate::inventory::Inventory;
use crate::inventory::InventoryView;
use crate::inventory::Stackable;
use crate::item::Item;
use crate::item::ItemView;
use crate::lookup::first_at;
use crate::lookup::lemma_first_at_absent;
use crate::lookup::lemma_first_at_found;

verus! {

/// An item that lies on the ground, owned by nobody yet.
#[derive(Debug)]
pub struct GroundItem {
    pub entity: u64,
    pub item: Item,
    pub stackable: Option<Stackable>,
}

/// What a [`GroundItem`] is, over the view of its item.
pub ghost struct GroundItemView {
    pub entity: u64,
    pub item: ItemView,
    pub stackable: bool,
}

impl View for GroundItem {
    type V = GroundItemView;

    open spec fn view(&self) -> GroundItemView {
        GroundItemView {
            entity: self.entity,
            item: self.item@,
            stackable: self.stackable.is_some(),
        }
    }
}

/// An entity that carries an inventory.
#[derive(Debug)]
pub struct Holder {
    pub entity: u64,
    pub inventory: Inventory,
}

/// What a [`Holder`] is, over the view of its inventory.
pub ghost struct HolderView {
    pub entity: u64,
    pub inventory: InventoryView,
}

impl View for Holder {
    type V = HolderView;

    open spec fn view(&self) -> HolderView {
        HolderView { entity: self.entity, inventory: self.inventory@ }
    }
}

/// The inventories and the ground items of one world.
#[derive(Debug)]
pub struct World {
    pub holders: Vec<Holder>,
    pub ground: Vec<GroundItem>,
}

/// What a [`World`] is, over the views of its entries.
pub ghost struct WorldView {
    pub holders: Seq<HolderView>,
    pub ground: Seq<GroundItemView>,
}

impl View for World {
    type V = WorldView;

    open spec fn view(&self) -> WorldView {
        WorldView {
            holders: self.holders@.map_values(|holder: Holder| holder@),
            ground: self.ground@.map_values(|ground: GroundItem| ground@),
        }
    }
}

impl WorldView {
    /// The identifiers of the entities that carry an inventory, in order.
    pub open spec fn holder_ids(self) -> Seq<u64> {
        self.holders.map_values(|holder: HolderView| holder.entity)
    }

    /// The identifiers of the items on the ground, in order.
    pub open spec fn ground_ids(self) -> Seq<u64> {
        self.ground.map_values(|ground: GroundItemView| ground.entity)
    }

    /// Where the inventory of `entity` stands, if it carries one.
    pub open spec fn holder_of(self, entity: u64) -> Option<int> {
        first_at(self.holder_ids(), entity)
    }

    /// Where the ground item `entity` stands, if it still lies there.
    pub open spec fn ground_item(self, entity: u64) -> Option<int> {
        first_at(self.ground_ids(), entity)
    }

    /// Every inventory holds no more slots than its capacity allows.
    pub open spec fn within_capacity(self) -> bool {
        forall|h: int|
            0 <= h < self.holders.len() ==> (#[trigger] self.holders[h]).inventory.within_capacity()
    }
}

impl World {
    /// A world in which nobody carries anything and nothing lies about.
    pub fn new() -> (world: World)
        ensures
            world@.holders == Seq::<HolderView>::empty(),
            world@.ground == Seq::<GroundItemView>::empty(),
    {
        World { holders: Vec::new(), ground: Vec::new() }
    }

    /// Where the inventory of `entity` stands, if it carries one.
    pub fn holder_of(&self, entity: u64) -> (place: Option<usize>)
        ensures
            match place {
                Some(h) => self@.holder_of(entity) == Some(h as int),
                None => self@.holder_of(entity) is None,
            },
    {
        let ghost ids = self@.holder_ids();
        let mut h: usize = 0;
        while h < self.holders.len()
            invariant
                h <= self.holders.len(),
                ids == self@.holder_ids(),
                forall|j: int| 0 <= j < h ==> ids[j] != entity,
            decreases self.holders.len() - h,
        {
            if self.holders[h].entity == entity {
                proof {
                    lemma_first_at_found(ids, entity, h as int);
                }
                return Some(h);
            }
            h = h + 1;
        }
        proof {
            lemma_first_at_absent(ids, entity);
        }
        None
    }

    /// Where the ground item `entity` stands, if it still lies there.
    pub fn ground_item(&self, entity: u64) -> (place: Option<usize>)
        ensures
            match place {
                Some(g) => self@.ground_item(entity) == Some(g as int),
                None => self@.ground_item(entity) is None,
            },
    {
        let ghost ids = self@.ground_ids();
        let mut g: usize = 0;
        while g < self.ground.len()
            invariant
                g <= self.ground.len(),
                ids == self@.ground_ids(),
                forall|j: int| 0 <= j < g ==> ids[j] != entity,
            decreases self.ground.len() - g,
        {
            if self.ground[g].entity == entity {
                proof {
                    lemma_first_at_found(ids, entity, g as int);
                }
                return Some(g);
            }
            g = g + 1;
        }
        proof {
            lemma_first_at_absent(ids, entity);
        }
        None
    }
}

} // verus!
