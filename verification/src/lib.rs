//! Simulation kernel and synchronization protocol for a turn-based,
//! server-authoritative hex-grid strategy game.
//!
//! The world data model (map, tiles, cities, units, civilizations, tech),
//! the action-validation / event-emission / event-application pipeline,
//! per-turn resolution, hex-grid range and path queries, and the byte
//! codec that carries actions and events between server and clients.

pub mod actions;
pub mod codec;
pub mod building;
pub mod city;
pub mod city_names;
pub mod civilization;
pub mod distances;
pub mod events;
pub mod game_map;
pub mod game_world;
pub mod generate;
pub mod laws;
pub mod map_position;
pub mod player;
pub mod resource;
pub mod session;
pub mod table;
pub mod tech;
pub mod tile;
pub mod unit;
pub mod yields;
