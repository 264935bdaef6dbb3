//! The components an entity can carry.

use vstd::prelude::*;
use crate::color::Color;

verus! {

/// Where an entity stands, in grid coordinates.
#[derive(Clone, Copy, Debug, PartialEq, Eq, Structural)]
pub struct Position {
    pub x: i32,
    pub y: i32,
}

impl Position {
    pub fn new(x: i32, y: i32) -> (position: Position)
        ensures
            position == (Position { x, y }),
    {
        Position { x, y }
    }
}

/// How an entity is drawn: a glyph in a colour.
#[derive(Clone, Copy, Debug, PartialEq, Eq, Structural)]
pub struct Drawable {
    pub glyph: char,
    pub color: Color,
}

impl Drawable {
    pub fn new(glyph: char, color: Color) -> (drawable: Drawable)
        ensures
            drawable == (Drawable { glyph, color }),
    {
        Drawable { glyph, color }
    }
}

/// Marks an entity as one that can see.
#[derive(Clone, Copy, Debug, PartialEq, Eq, Structural)]
pub struct Vision {
    pub grants_vision: bool,
}

impl Vision {
    pub fn new(active: bool) -> (vision: Vision)
        ensures
            vision == (Vision { grants_vision: active }),
    {
        Vision { grants_vision: active }
    }
}

/// Marks the entity that the player steers.
#[derive(Clone, Copy, Debug, PartialEq, Eq, Structural)]
pub struct Player {
    pub alive: bool,
}

impl Player {
    pub fn new(alive: bool) -> (player: Player)
        ensures
            player == (Player { alive }),
    {
        Player { alive }
    }
}

/// A dwelling and the people it holds.
#[derive(Clone, Copy, Debug, PartialEq, Eq, Structural)]
pub struct House {
    pub time_since_last_spawn: u128,
    pub population: i32,
}

impl House {
    /// Time that passes between two spawns of a house, in milliseconds.
    pub const TIME_BETWEEN_SPAWNS: u128 = 5000;

    /// An empty house that has just been built.
    pub fn new() -> (house: House)
        ensures
            house == (House { time_since_last_spawn: 0, population: 0 }),
    {
        House { time_since_last_spawn: 0, population: 0 }
    }
}

/// Someone who lives at `home` and wanders near it.
#[derive(Clone, Copy, Debug, PartialEq, Eq, Structural)]
pub struct Person {
    pub home: Position,
    pub time_since_last_movement: u128,
    pub time_since_last_harvest: u128,
}

impl Person {
    /// Time that passes between two actions of a person, in milliseconds.
    pub const TIME_BETWEEN_ACTIONS: u128 = 1000;

    /// A person whose home is at `(x, y)`.
    pub fn new(x: i32, y: i32) -> (person: Person)
        ensures
            person == (Person {
                home: Position { x, y },
                time_since_last_movement: 0,
                time_since_last_harvest: 0,
            }),
    {
        Person {
            home: Position::new(x, y),
            time_since_last_movement: 0,
            time_since_last_harvest: 0,
        }
    }
}

} // verus!
