//! Round-based hidden-role game core: a phase/timer state machine, a
//! concurrent per-round action ledger, a vote/task/sabotage resolver and a
//! hex-grid proximity engine, all specified and verified over an in-memory
//! model of the flat key-value store that holds the game's state.

pub mod controller;
pub mod entropy;
pub mod errors;
pub mod feed;
pub mod geometry;
pub mod ledger;
pub mod proximity;
pub mod resolver;
pub mod types;
pub mod world;
