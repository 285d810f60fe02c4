//! Core logic of a room server for a turn-based board game: the room
//! manager and its request handlers, the battle trigger rules, and the
//! session record of a player's connection.

pub mod binary;
pub mod battle;
pub mod collections;
pub mod protocol;
pub mod room;
pub mod templates;
pub mod room_mgr;
pub mod room_handler;
pub mod season;
pub mod gate_user;
pub mod action;
pub mod battle_trigger;
pub mod laws;
pub mod battle_laws;
