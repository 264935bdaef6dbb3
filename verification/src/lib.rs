//! A turn-based colony simulation on a wrap-around world: terrain built from
//! noise samples, a player who walks and builds, houses that grow and settle
//! people nearby, and fog-of-war bookkeeping for a scrolling camera.
//!
//! Every function here is verified against the contract it states. Drawing,
//! input polling and noise sampling belong to the program around the library.

pub mod color;
pub mod settings;
pub mod tile;
pub mod map;
pub mod terrain;
pub mod components;
pub mod entity;
pub mod game;
pub mod action;
pub mod input;
pub mod random;
pub mod housing;
pub mod roaming;
pub mod visibility;
pub mod camera;
pub mod start;
pub mod scheduler;
