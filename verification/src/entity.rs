//! The store of entities.
//!
//! An entity is a row of optional components; its id is its place in the
//! store. Entities are added and changed, never removed, so an id stays
//! valid for the whole session.

use vstd::prelude::*;
use crate::color::Color;
use crate::components::Drawable;
use crate::components::House;
use crate::components::Person;
use crate::components::Player;
use crate::components::Position;
use crate::components::Vision;

verus! {

/// One entity: each component it carries, or `None` where it carries none.
#[derive(Clone, Copy, Debug, PartialEq, Eq)]
pub struct Entity {
    pub position: Option<Position>,
    pub drawable: Option<Drawable>,
    pub vision: Option<Vision>,
    pub player: Option<Player>,
    pub house: Option<House>,
    pub person: Option<Person>,
}

impl Entity {
    /// An entity without components.
    #[verifier::allow_in_spec]
    pub fn bare() -> Entity
        returns
            (Entity {
                position: None,
                drawable: None,
                vision: None,
                player: None,
                house: None,
                person: None,
            }),
    {
        Entity {
            position: None,
            drawable: None,
            vision: None,
            player: None,
            house: None,
            person: None,
        }
    }

    /// The player's entity: a white `@` that is alive and sees.
    #[verifier::allow_in_spec]
    pub fn hero(position: Position) -> Entity
        returns
            (Entity {
                position: Some(position),
                drawable: Some(Drawable { glyph: '@', color: Color::white() }),
                vision: Some(Vision { grants_vision: true }),
                player: Some(Player { alive: true }),
                house: None,
                person: None,
            }),
    {
        Entity {
            position: Some(position),
            drawable: Some(Drawable { glyph: '@', color: Color::white() }),
            vision: Some(Vision { grants_vision: true }),
            player: Some(Player { alive: true }),
            house: None,
            person: None,
        }
    }

    /// A new, empty house at `position`, drawn as `A`.
    #[verifier::allow_in_spec]
    pub fn dwelling(position: Position) -> Entity
        returns
            (Entity {
                position: Some(position),
                drawable: Some(Drawable { glyph: 'A', color: Color::village() }),
                vision: None,
                player: None,
                house: Some(House { time_since_last_spawn: 0, population: 0 }),
                person: None,
            }),
    {
        Entity {
            position: Some(position),
            drawable: Some(Drawable { glyph: 'A', color: Color::village() }),
            vision: None,
            player: None,
            house: Some(House { time_since_last_spawn: 0, population: 0 }),
            person: None,
        }
    }

    /// A person who lives at `home` and stands at `position`, drawn as `&`.
    #[verifier::allow_in_spec]
    pub fn settler(home: Position, position: Position) -> Entity
        returns
            (Entity {
                position: Some(position),
                drawable: Some(Drawable { glyph: '&', color: Color::person() }),
                vision: None,
                player: None,
                house: None,
                person: Some(
                    Person { home, time_since_last_movement: 0, time_since_last_harvest: 0 },
                ),
            }),
    {
        Entity {
            position: Some(position),
            drawable: Some(Drawable { glyph: '&', color: Color::person() }),
            vision: None,
            player: None,
            house: None,
            person: Some(
                Person { home, time_since_last_movement: 0, time_since_last_harvest: 0 },
            ),
        }
    }

    /// Whether the entity is steered by the player: it carries the player
    /// mark and stands somewhere.
    pub open spec fn is_steered(self) -> bool {
        self.player is Some && self.position is Some
    }

    /// Whether the entity is a source of vision: it stands somewhere and its
    /// vision is switched on.
    pub open spec fn sees(self) -> bool {
        self.position is Some && self.vision is Some && self.vision->0.grants_vision
    }

    /// Whether the entity is drawn: it has a glyph and stands somewhere.
    pub open spec fn is_drawn(self) -> bool {
        self.position is Some && self.drawable is Some
    }
}

/// Whether `id` is the first steered entity of `world`.
pub open spec fn is_first_steered(world: Seq<Entity>, id: int) -> bool {
    &&& 0 <= id < world.len()
    &&& world[id].is_steered()
    &&& forall|earlier: int| 0 <= earlier < id ==> !(#[trigger] world[earlier]).is_steered()
}

/// Whether `world` holds a steered entity.
pub open spec fn has_player(world: Seq<Entity>) -> bool {
    exists|id: int| 0 <= id < world.len() && (#[trigger] world[id]).is_steered()
}

/// The id of the first steered entity of `world`, if there is one.
pub open spec fn player_of(world: Seq<Entity>) -> Option<int>
    decreases world.len(),
{
    if world.len() == 0 {
        None
    } else {
        match player_of(world.drop_last()) {
            Some(id) => Some(id),
            None => if world.last().is_steered() {
                Some(world.len() - 1)
            } else {
                None
            },
        }
    }
}

/// `player_of` finds the first steered entity, and finds none only where
/// there is none.
pub proof fn lemma_player_of(world: Seq<Entity>)
    ensures
        match player_of(world) {
            Some(id) => is_first_steered(world, id),
            None => forall|id: int| 0 <= id < world.len() ==> !(#[trigger] world[id]).is_steered(),
        },
    decreases world.len(),
{
    if world.len() > 0 {
        let front = world.drop_last();
        lemma_player_of(front);
        assert forall|id: int| 0 <= id < front.len() implies front[id] == world[id] by {}
        match player_of(front) {
            Some(id) => {
                assert(front[id] == world[id]);
                assert forall|earlier: int| 0 <= earlier < id implies !(
                #[trigger] world[earlier]).is_steered() by {
                    assert(front[earlier] == world[earlier]);
                }
            },
            None => {
                assert forall|id: int| 0 <= id < world.len() - 1 implies !(
                #[trigger] world[id]).is_steered() by {
                    assert(front[id] == world[id]);
                }
            },
        }
    }
}

/// The positions of the entities of `world` that see, in store order.
pub open spec fn sources_of(world: Seq<Entity>) -> Seq<Position>
    decreases world.len(),
{
    if world.len() == 0 {
        Seq::empty()
    } else if world.last().sees() {
        sources_of(world.drop_last()).push(world.last().position->0)
    } else {
        sources_of(world.drop_last())
    }
}

/// The glyphs of the entities of `world` that are drawn, each with the
/// place where it stands, in store order.
pub open spec fn sprites_of(world: Seq<Entity>) -> Seq<(Drawable, Position)>
    decreases world.len(),
{
    if world.len() == 0 {
        Seq::empty()
    } else if world.last().is_drawn() {
        sprites_of(world.drop_last()).push((world.last().drawable->0, world.last().position->0))
    } else {
        sprites_of(world.drop_last())
    }
}

/// The entities of a session, by id.
pub struct EntityStore {
    pub entities: Vec<Entity>,
}

impl View for EntityStore {
    type V = Seq<Entity>;

    open spec fn view(&self) -> Seq<Entity> {
        self.entities@
    }
}

impl EntityStore {
    /// A store without entities.
    pub fn new() -> (store: EntityStore)
        ensures
            store@ == Seq::<Entity>::empty(),
    {
        EntityStore { entities: Vec::new() }
    }

    /// The number of entities.
    pub fn len(&self) -> (len: usize)
        ensures
            len == self@.len(),
    {
        self.entities.len()
    }

    /// Adds `entity` and returns its id.
    pub fn push(&mut self, entity: Entity) -> (id: usize)
        ensures
            final(self)@ == old(self)@.push(entity),
            id == old(self)@.len(),
    {
        let id: usize = self.entities.len();
        self.entities.push(entity);
        id
    }

    /// The entity with this id, if there is one.
    pub fn get(&self, id: usize) -> (entity: Option<Entity>)
        ensures
            entity == (if id < self@.len() {
                Some(self@[id as int])
            } else {
                None
            }),
    {
        if id < self.entities.len() {
            Some(self.entities[id])
        } else {
            None
        }
    }

    /// The id of the entity that the player steers: the first that carries
    /// the player mark and a position.
    pub fn player(&self) -> (found: Option<usize>)
        ensures
            found is Some <==> has_player(self@),
            match found {
                Some(id) => player_of(self@) == Some(id as int) && is_first_steered(
                    self@,
                    id as int,
                ),
                None => player_of(self@) is None,
            },
    {
        proof {
            lemma_player_of(self@);
        }
        let mut id: usize = 0;
        while id < self.entities.len()
            invariant
                id <= self.entities.len(),
                forall|earlier: int|
                    0 <= earlier < id ==> !(#[trigger] self@[earlier]).is_steered(),
                match player_of(self@) {
                    Some(first) => is_first_steered(self@, first),
                    None => forall|any: int|
                        0 <= any < self@.len() ==> !(#[trigger] self@[any]).is_steered(),
                },
            decreases self.entities.len() - id,
        {
            let entity: Entity = self.entities[id];
            if entity.player.is_some() && entity.position.is_some() {
                assert(self@[id as int].is_steered());
                return Some(id);
            }
            id += 1;
        }
        None
    }

    /// Where each entity that sees stands, in store order.
    pub fn vision_sources(&self) -> (sources: Vec<Position>)
        ensures
            sources@ == sources_of(self@),
    {
        let mut sources: Vec<Position> = Vec::new();
        let mut id: usize = 0;
        while id < self.entities.len()
            invariant
                id <= self.entities.len(),
                sources@ == sources_of(self@.take(id as int)),
            decreases self.entities.len() - id,
        {
            let entity: Entity = self.entities[id];
            assert(self@.take(id as int + 1).drop_last() =~= self@.take(id as int));
            match (entity.position, entity.vision) {
                (Some(position), Some(vision)) => {
                    if vision.grants_vision {
                        sources.push(position);
                    }
                },
                _ => {},
            }
            id += 1;
        }
        assert(self@.take(id as int) =~= self@);
        sources
    }

    /// What is drawn and where: glyph and place of each entity that has
    /// both, in store order.
    pub fn sprites(&self) -> (sprites: Vec<(Drawable, Position)>)
        ensures
            sprites@ == sprites_of(self@),
    {
        let mut sprites: Vec<(Drawable, Position)> = Vec::new();
        let mut id: usize = 0;
        while id < self.entities.len()
            invariant
                id <= self.entities.len(),
                sprites@ == sprites_of(self@.take(id as int)),
            decreases self.entities.len() - id,
        {
            let entity: Entity = self.entities[id];
            assert(self@.take(id as int + 1).drop_last() =~= self@.take(id as int));
            match (entity.drawable, entity.position) {
                (Some(drawable), Some(position)) => {
                    sprites.push((drawable, position));
                },
                _ => {},
            }
            id += 1;
        }
        assert(self@.take(id as int) =~= self@);
        sprites
    }
}

} // verus!
