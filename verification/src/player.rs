//! The player: reading the movement keys, moving, walking animation, and
//! asking for the items within reach.
//!
//! Lengths are whole numbers of world units here; the program that draws the
//! world turns them into its own coordinates.

use vstd::prelude::*;
use crate::input::Key;
use crate::input::Keyboard;
use crate::inventory::InventoryUpdate;
use crate::pickup::ItemPickup;
use crate::pickup::ItemPickupView;
use crate::pickup::intent_views;

verus! {

/// Height of the layer that the player is drawn on.
pub const Z_PLAYER: i32 = 40;

/// World units per second that the player covers along one axis.
pub const PLAYER_SPEED: i32 = 80;

/// Slots in the inventory that the player starts with.
pub const PLAYER_INVENTORY_SLOTS: i32 = 20;

/// The entity that is the player.
#[derive(Debug, Clone, Copy, PartialEq, Eq, Structural)]
pub struct PlayerEntity(pub u64);

/// The way the player faces.
#[derive(Debug, Clone, Copy, PartialEq, Eq, Structural)]
pub enum Direction {
    Up,
    Down,
    Left,
    Right,
}

/// Whether the player stands or walks.
#[derive(Debug, Clone, Copy, PartialEq, Eq, Structural)]
pub enum PlayerState {
    Idle,
    Moving,
}

/// The movement asked for in this tick: one step at most along each axis.
#[derive(Debug, Clone, Copy, PartialEq, Eq, Structural)]
pub struct InputCapture {
    pub x: i8,
    pub y: i8,
}

/// Speed along each axis, in world units per second.
#[derive(Debug, Clone, Copy, PartialEq, Eq, Structural)]
pub struct LinearVelocity {
    pub x: i32,
    pub y: i32,
}

/// The picture of the walking animation that is shown, and whether it is
/// mirrored.
#[derive(Debug, Clone, Copy, PartialEq, Eq, Structural)]
pub struct Frame {
    pub index: usize,
    pub flip_x: bool,
}

/// The movement that the held keys ask for: `A` and `D` move left and right,
/// `S` and `W` down and up, and opposite keys cancel.
pub open spec fn movement_of(keyboard: &Keyboard) -> InputCapture {
    InputCapture {
        x: if keyboard.is_pressed(Key::D) == keyboard.is_pressed(Key::A) {
            0i8
        } else if keyboard.is_pressed(Key::D) {
            1i8
        } else {
            -1i8
        },
        y: if keyboard.is_pressed(Key::W) == keyboard.is_pressed(Key::S) {
            0i8
        } else if keyboard.is_pressed(Key::W) {
            1i8
        } else {
            -1i8
        },
    }
}

/// The way the player faces once the keys are read. Of several held keys the
/// one that wins is `S`, then `W`, then `D`, then `A`; with none of them held
/// the player keeps facing as before.
pub open spec fn facing_of(keyboard: &Keyboard, facing: Direction) -> Direction {
    if keyboard.is_pressed(Key::S) {
        Direction::Down
    } else if keyboard.is_pressed(Key::W) {
        Direction::Up
    } else if keyboard.is_pressed(Key::D) {
        Direction::Right
    } else if keyboard.is_pressed(Key::A) {
        Direction::Left
    } else {
        facing
    }
}

/// Reads the movement keys: the movement they ask for, and the way the
/// player faces afterwards.
pub fn player_input(
    keyboard_input: &Keyboard,
    facing: Direction,
) -> (read: (InputCapture, Direction))
    ensures
        read.0 == movement_of(keyboard_input),
        read.1 == facing_of(keyboard_input, facing),
{
    let mut input = InputCapture { x: 0, y: 0 };
    let mut dir = facing;
    if keyboard_input.pressed(Key::A) {
        input.x = input.x - 1;
        dir = Direction::Left;
    }
    if keyboard_input.pressed(Key::D) {
        input.x = input.x + 1;
        dir = Direction::Right;
    }
    if keyboard_input.pressed(Key::W) {
        input.y = input.y + 1;
        dir = Direction::Up;
    }
    if keyboard_input.pressed(Key::S) {
        input.y = input.y - 1;
        dir = Direction::Down;
    }
    (input, dir)
}

/// Whether any movement is asked for.
pub open spec fn is_moving(input: InputCapture) -> bool {
    input.x != 0 || input.y != 0
}

/// The state that the asked-for movement puts the player in.
pub open spec fn state_of(input: InputCapture) -> PlayerState {
    if is_moving(input) {
        PlayerState::Moving
    } else {
        PlayerState::Idle
    }
}

/// The velocity that the asked-for movement gives the player:
/// [`PLAYER_SPEED`] along each axis that is moved on.
pub open spec fn velocity_of(input: InputCapture) -> LinearVelocity {
    LinearVelocity { x: (input.x * PLAYER_SPEED) as i32, y: (input.y * PLAYER_SPEED) as i32 }
}

/// Turns the asked-for movement into the player's state and velocity.
/// Without movement the player stands still.
pub fn move_player(input: &InputCapture) -> (moved: (PlayerState, LinearVelocity))
    ensures
        moved.0 == state_of(*input),
        moved.1 == velocity_of(*input),
        moved.1.x == input.x * PLAYER_SPEED,
        moved.1.y == input.y * PLAYER_SPEED,
{
    let x: i32 = input.x as i32;
    let y: i32 = input.y as i32;
    let velocity = LinearVelocity { x: x * PLAYER_SPEED, y: y * PLAYER_SPEED };
    if input.x != 0 || input.y != 0 {
        (PlayerState::Moving, velocity)
    } else {
        (PlayerState::Idle, velocity)
    }
}

/// The frame that follows `frame` for a player who walks towards `facing`.
/// Up and down each have one picture, mirrored at every step; left and right
/// share two pictures that alternate, mirrored for left.
pub open spec fn next_frame(facing: Direction, frame: Frame) -> Frame {
    match facing {
        Direction::Up => Frame { index: 1, flip_x: !frame.flip_x },
        Direction::Down => Frame { index: 0, flip_x: !frame.flip_x },
        Direction::Right => Frame {
            index: if frame.index == 2 {
                3
            } else {
                2
            },
            flip_x: false,
        },
        Direction::Left => Frame {
            index: if frame.index == 2 {
                3
            } else {
                2
            },
            flip_x: true,
        },
    }
}

/// The frame to show after this tick. It changes only for a player who is
/// moving, and only in a tick in which the animation timer has run out.
pub open spec fn animated(
    state: PlayerState,
    timer_finished: bool,
    facing: Direction,
    frame: Frame,
) -> Frame {
    if state == PlayerState::Moving && timer_finished {
        next_frame(facing, frame)
    } else {
        frame
    }
}

impl PlayerState {
    /// Whether the animation timer runs in this state: it stands still while
    /// the player does.
    pub fn runs_timer(&self) -> (runs: bool)
        ensures
            runs == (*self == PlayerState::Moving),
    {
        match self {
            PlayerState::Idle => false,
            PlayerState::Moving => true,
        }
    }
}

/// Advances the walking animation by one tick.
pub fn direction_animation(
    state: PlayerState,
    timer_finished: bool,
    facing: Direction,
    frame: Frame,
) -> (shown: Frame)
    ensures
        shown == animated(state, timer_finished, facing, frame),
{
    if !state.runs_timer() || !timer_finished {
        return frame;
    }
    let stepped: usize = if frame.index == 2 {
        3
    } else {
        2
    };
    match facing {
        Direction::Up => Frame { index: 1, flip_x: !frame.flip_x },
        Direction::Down => Frame { index: 0, flip_x: !frame.flip_x },
        Direction::Right => Frame { index: stepped, flip_x: false },
        Direction::Left => Frame { index: stepped, flip_x: true },
    }
}

/// A ground item as the player's probe sees it in one tick.
#[derive(Debug)]
pub struct Sighting {
    pub item: u64,
    pub name: String,
    pub in_reach: bool,
}

/// What a [`Sighting`] is, with the name as a sequence of characters.
pub ghost struct SightingView {
    pub item: u64,
    pub name: Seq<char>,
    pub in_reach: bool,
}

impl View for Sighting {
    type V = SightingView;

    open spec fn view(&self) -> SightingView {
        SightingView { item: self.item, name: self.name@, in_reach: self.in_reach }
    }
}

/// The views of a run of sightings, in order.
pub open spec fn sighting_views(sightings: Seq<Sighting>) -> Seq<SightingView> {
    sightings.map_values(|sighting: Sighting| sighting@)
}

/// The intent of `who` to pick up what was sighted.
pub open spec fn intent_for(who: u64, sighting: SightingView) -> ItemPickupView {
    ItemPickupView { item: sighting.item, what_item: sighting.name, who }
}

/// The intents that one tick's sightings give rise to: one for each item in
/// reach, in the order of the sightings. An item sighted twice is asked for
/// twice.
pub open spec fn intents_for(who: u64, sightings: Seq<SightingView>) -> Seq<ItemPickupView>
    decreases sightings.len(),
{
    if sightings.len() == 0 {
        Seq::empty()
    } else if sightings.last().in_reach {
        intents_for(who, sightings.drop_last()).push(intent_for(who, sightings.last()))
    } else {
        intents_for(who, sightings.drop_last())
    }
}

/// What the probe sends out in one tick.
#[derive(Debug)]
pub struct Probe {
    pub pickups: Vec<ItemPickup>,
    pub updates: Vec<InventoryUpdate>,
}

/// Asks for every sighted item that is within reach of `who`, and tells the
/// menu once for each item asked for. Nothing is changed by asking.
pub fn pickup_item(who: u64, sightings: &Vec<Sighting>) -> (probe: Probe)
    ensures
        intent_views(probe.pickups@) == intents_for(who, sighting_views(sightings@)),
        probe.updates@.len() == probe.pickups@.len(),
{
    let mut pickups: Vec<ItemPickup> = Vec::new();
    let mut updates: Vec<InventoryUpdate> = Vec::new();
    let ghost seen = sighting_views(sightings@);
    let mut i: usize = 0;
    while i < sightings.len()
        invariant
            i <= sightings.len(),
            seen == sighting_views(sightings@),
            intent_views(pickups@) == intents_for(who, seen.take(i as int)),
            updates@.len() == pickups@.len(),
        decreases sightings.len() - i,
    {
        assert(seen.take(i + 1).drop_last() =~= seen.take(i as int));
        if sightings[i].in_reach {
            pickups.push(
                ItemPickup { item: sightings[i].item, what_item: sightings[i].name.clone(), who },
            );
            updates.push(InventoryUpdate);
        }
        i = i + 1;
    }
    assert(seen.take(i as int) =~= seen);
    Probe { pickups, updates }
}

/// The probe asks in the name of `who` and of nobody else, for sighted items
/// only, and never more often than there are sightings; with nothing in
/// reach it asks for nothing.
pub proof fn lemma_intents_for(who: u64, sightings: Seq<SightingView>)
    ensures
        intents_for(who, sightings).len() <= sightings.len(),
        forall|i: int|
            0 <= i < intents_for(who, sightings).len() ==> {
                let intent = #[trigger] intents_for(who, sightings)[i];
                &&& intent.who == who
                &&& exists|j: int|
                    0 <= j < sightings.len() && sightings[j].in_reach && intent == intent_for(
                        who,
                        sightings[j],
                    )
            },
        (forall|j: int| 0 <= j < sightings.len() ==> !(#[trigger] sightings[j]).in_reach)
            ==> intents_for(who, sightings).len() == 0,
    decreases sightings.len(),
{
    if sightings.len() > 0 {
        let rest = sightings.drop_last();
        lemma_intents_for(who, rest);
        assert forall|i: int| 0 <= i < intents_for(who, sightings).len() implies {
            let intent = #[trigger] intents_for(who, sightings)[i];
            &&& intent.who == who
            &&& exists|j: int|
                0 <= j < sightings.len() && sightings[j].in_reach && intent == intent_for(
                    who,
                    sightings[j],
                )
        } by {
            let intent = intents_for(who, sightings)[i];
            if i < intents_for(who, rest).len() {
                let j = choose|j: int|
                    0 <= j < rest.len() && rest[j].in_reach && intents_for(who, rest)[i]
                        == intent_for(who, rest[j]);
                assert(sightings[j] == rest[j]);
            } else {
                assert(intent == intent_for(who, sightings[sightings.len() - 1]));
            }
        }
        if forall|j: int| 0 <= j < sightings.len() ==> !(#[trigger] sightings[j]).in_reach {
            assert forall|j: int| 0 <= j < rest.len() implies !(#[trigger] rest[j]).in_reach by {
                assert(rest[j] == sightings[j]);
            }
        }
    }
}

} // verus!
