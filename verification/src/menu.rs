//! The inventory menu: a fixed column of text slots that shows the player's
//! inventory from its newest slot down.
//!
//! The menu is a projection: it reads the inventory and never changes it, and
//! every line is written anew each time, since a new item at the front moves
//! all the others down by one.

use vstd::prelude::*;
use crate::input::Key;
use crate::input::Keyboard;
use crate::inventory::Inventory;
use crate::inventory::InventoryUpdate;
use crate::inventory::InventoryView;
use crate::item::Item;
use crate::item::ItemView;
use crate::text::decimal;
use crate::text::left_justified;
use crate::text::lemma_decimal_len;
use crate::text::push_left_justified;
use crate::text::push_right_justified_decimal;
use crate::text::right_justified;

verus! {

/// Height of the layer that the menu is drawn on.
pub const Z_UI: i32 = 80;

/// Number of lines that the menu shows.
pub const MENU_SLOTS: i32 = 20;

/// Width of the column that holds an item's name.
pub const NAME_WIDTH: usize = 20;

/// Width of the column that holds an item's amount.
pub const AMOUNT_WIDTH: usize = 3;

/// Distance from the top of the menu to its first line, in pixels.
pub const FIRST_LINE_TOP: i32 = 12;

/// Distance from one line of the menu to the next, in pixels.
pub const LINE_HEIGHT: i32 = 20;

/// Distance from the left edge of the menu to its lines, in pixels.
pub const LINE_LEFT: i32 = 44;

/// One line of the menu, bearing the number of the inventory slot it shows.
#[derive(Debug, Clone, Copy, PartialEq, Eq, Structural)]
pub struct InventorySlot(pub i32);

/// A line of the menu and the place it is laid out at.
#[derive(Debug, Clone, Copy, PartialEq, Eq, Structural)]
pub struct SlotPlace {
    pub slot: InventorySlot,
    pub top: i32,
    pub left: i32,
}

/// The line for a slot that holds `item`: the name in a column of
/// [`NAME_WIDTH`] characters, `AMT:`, and the amount at the right of a column
/// of [`AMOUNT_WIDTH`] characters.
pub open spec fn item_line(item: ItemView) -> Seq<char> {
    left_justified(item.name, NAME_WIDTH as nat) + seq!['A', 'M', 'T', ':'] + right_justified(
        decimal(item.amt as nat),
        AMOUNT_WIDTH as nat,
    )
}

/// The line for a slot that holds nothing.
pub open spec fn empty_line() -> Seq<char> {
    seq!['-', '-', '-', '-', '-', '-']
}

/// The line that shows slot `slot` of `inventory`.
pub open spec fn slot_line(inventory: InventoryView, slot: int) -> Seq<char> {
    if 0 <= slot < inventory.items.len() {
        item_line(inventory.items[slot])
    } else {
        empty_line()
    }
}

/// The place of the `i`-th line of the menu.
pub open spec fn place_of(i: int) -> SlotPlace {
    SlotPlace {
        slot: InventorySlot(i as i32),
        top: (FIRST_LINE_TOP + LINE_HEIGHT * i) as i32,
        left: LINE_LEFT,
    }
}

/// The lines of the menu, top to bottom, each with its place. The `i`-th
/// line shows the `i`-th slot of the inventory.
pub fn inventory_ui_startup() -> (places: Vec<SlotPlace>)
    ensures
        places@.len() == MENU_SLOTS,
        forall|i: int| 0 <= i < MENU_SLOTS ==> #[trigger] places@[i] == place_of(i),
{
    let mut places: Vec<SlotPlace> = Vec::new();
    let mut i: i32 = 0;
    while i < MENU_SLOTS
        invariant
            0 <= i <= MENU_SLOTS,
            places@.len() == i,
            forall|k: int| 0 <= k < i ==> #[trigger] places@[k] == place_of(k),
        decreases MENU_SLOTS - i,
    {
        places.push(
            SlotPlace { slot: InventorySlot(i), top: FIRST_LINE_TOP + LINE_HEIGHT * i, left: LINE_LEFT },
        );
        i = i + 1;
    }
    places
}

/// Whether the keyboard asks to open or close the menu: `X` or `Tab` went
/// down in this tick.
pub open spec fn toggle_asked(keyboard: &Keyboard) -> bool {
    keyboard.is_just_pressed(Key::X) || keyboard.is_just_pressed(Key::Tab)
}

/// Whether the menu is shown after a tick in which it was `visible` before.
pub open spec fn toggled(keyboard: &Keyboard, visible: bool) -> bool {
    visible != toggle_asked(keyboard)
}

/// Opens or closes the menu on the toggle key. While the menu is open it is
/// told in every tick to write its lines anew.
pub fn toggle_ui_menu(
    keyboard_input: &Keyboard,
    visible: bool,
) -> (menu: (bool, Option<InventoryUpdate>))
    ensures
        menu.0 == toggled(keyboard_input, visible),
        menu.1 == if toggled(keyboard_input, visible) {
            Some(InventoryUpdate)
        } else {
            None
        },
{
    let asked = keyboard_input.just_pressed(Key::X) || keyboard_input.just_pressed(Key::Tab);
    let shown = if asked {
        !visible
    } else {
        visible
    };
    if shown {
        (shown, Some(InventoryUpdate))
    } else {
        (shown, None)
    }
}

impl Item {
    /// The menu line for a slot that holds this item.
    pub fn line(&self) -> (text: String)
        ensures
            text@ == item_line(self@),
    {
        proof {
            reveal_strlit("AMT:");
        }
        let mut text = String::new();
        push_left_justified(&mut text, self.name.as_str(), NAME_WIDTH);
        text.append("AMT:");
        push_right_justified_decimal(&mut text, self.amt, AMOUNT_WIDTH);
        text
    }
}

impl Inventory {
    /// The menu line that shows the slot that `slot` bears the number of.
    pub fn slot_text(&self, slot: &InventorySlot) -> (text: String)
        ensures
            text@ == slot_line(self@, slot.0 as int),
    {
        if slot.0 >= 0 && (slot.0 as usize) < self.items.len() {
            self.items[slot.0 as usize].line()
        } else {
            proof {
                reveal_strlit("------");
            }
            "------".to_owned()
        }
    }
}

/// Writes every line of the menu anew from `inventory`: one text for each of
/// `slots`, in their order.
pub fn ui_inventory_update(
    inventory: &Inventory,
    slots: &Vec<InventorySlot>,
) -> (lines: Vec<String>)
    ensures
        lines@.len() == slots@.len(),
        forall|i: int|
            0 <= i < slots@.len() ==> (#[trigger] lines@[i])@ == slot_line(
                inventory@,
                slots@[i].0 as int,
            ),
{
    let mut lines: Vec<String> = Vec::new();
    let mut i: usize = 0;
    while i < slots.len()
        invariant
            i <= slots.len(),
            lines@.len() == i,
            forall|k: int|
                0 <= k < i ==> (#[trigger] lines@[k])@ == slot_line(inventory@, slots@[k].0 as int),
        decreases slots.len() - i,
    {
        lines.push(inventory.slot_text(&slots[i]));
        i = i + 1;
    }
    lines
}

/// A line for an item is as long as its three columns: the name or twenty
/// characters, whichever is more; four for `AMT:`; the amount or three
/// characters, whichever is more. A name of up to twenty characters with an
/// amount below a thousand gives a line of twenty-seven.
pub proof fn lemma_item_line_len(item: ItemView)
    ensures
        item_line(item).len() == (if item.name.len() >= NAME_WIDTH {
            item.name.len()
        } else {
            NAME_WIDTH as nat
        }) + 4 + (if decimal(item.amt as nat).len() >= AMOUNT_WIDTH {
            decimal(item.amt as nat).len()
        } else {
            AMOUNT_WIDTH as nat
        }),
        item.name.len() <= NAME_WIDTH && item.amt < 1000 ==> item_line(item).len() == 27,
        item_line(item).subrange(0, item.name.len() as int) == item.name,
{
    lemma_decimal_len(item.amt as nat);
}

/// The menu shows the inventory and nothing else: two inventories with the
/// same slots give the same lines, whatever their capacities.
pub proof fn lemma_slot_line_reads_slots(a: InventoryView, b: InventoryView, slot: int)
    requires
        a.items == b.items,
    ensures
        slot_line(a, slot) == slot_line(b, slot),
{
}

} // verus!
