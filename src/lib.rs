//! Session coordination for paired chess / tile-matching games: the tile deck
//! engine, player clocks, the per-room state machine and the room table.

pub mod labels;
pub mod messages;
pub mod player;
pub mod position;
pub mod registry;
pub mod room;
pub mod tiles;
