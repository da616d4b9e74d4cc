//! Rules of a small tile-world game: what lies on the ground, how an actor
//! picks it up into a bounded inventory, and what the inventory menu shows.
//!
//! Everything here works on plain values. Entities are named by the 64 bits
//! of their identifier; sprites, sounds and the window belong to the program
//! that drives these rules once per tick.

pub mod camera;
pub mod input;
pub mod inventory;
pub mod item;
pub mod lookup;
pub mod menu;
pub mod pickup;
pub mod player;
pub mod states;
pub mod terrain;
pub mod text;
pub mod world;
