//! The closed set of entity kinds the simulation knows, and the
//! displayable image each kind shows to the world.  Identity tags are a
//! plain enum, so dispatch on an entity's kind is an exhaustive match the
//! compiler checks.

use vstd::prelude::*;

use crate::sulphate::UID;
use crate::sulphate::heap_at;
use crate::sulphate::heap_contains;
use crate::units;

pub mod player;

pub use self::player::Player;

verus! {

/// The kinds of entity that exist.
#[derive(Clone, Copy, PartialEq, Eq, Structural, Hash, Debug)]
pub enum EntityKind {
    Player,
}

/// A live entity of any kind.
pub enum Entity {
    Player(player::Player),
}

/// The kind tag of an entity value.
pub open spec fn kind_of(e: Entity) -> EntityKind {
    match e {
        Entity::Player(_) => EntityKind::Player,
    }
}

/// The kind tag of an entity value.
pub fn kind_of_entity(e: &Entity) -> (r: EntityKind)
    ensures
        r == kind_of(*e),
{
    match e {
        Entity::Player(_) => EntityKind::Player,
    }
}

/// What an entity of some kind looks like, radius included.
#[derive(Clone, Copy, PartialEq, Eq, Structural)]
pub enum Image {
    Player(player::Image),
}

impl Image {
    /// The radius of the circle this image draws.
    pub open spec fn spec_radius(&self) -> int {
        match *self {
            Image::Player(_) => 655360int,
        }
    }

    /// The radius of the circle this image draws.
    pub fn radius(&self) -> (r: units::Distance)
        ensures
            r@ == self.spec_radius(),
    {
        match *self {
            Image::Player(_) => crate::math::Scalar::from(10),
        }
    }
}

/// The capability of being displayed: an entity that currently shows
/// nothing has no collision presence either.
pub trait Display {
    /// The image this entity shows, if any.
    spec fn spec_image(&self) -> Option<Image>;

    /// The image this entity shows, if any.
    fn image(&self) -> (r: Option<Image>)
        ensures
            r == self.spec_image(),
    ;
}

/// The image of an entity value, through its kind's `Display`.
pub open spec fn entity_image(e: Entity) -> Option<Image> {
    match e {
        Entity::Player(p) => p.spec_image(),
    }
}

/// The image of the entity stored under `uid`, or nothing when no such
/// entity lives in the store.
pub open spec fn spec_image_of(s: Seq<(UID, Entity)>, uid: UID) -> Option<Image> {
    if heap_contains(s, uid) {
        entity_image(heap_at(s, uid))
    } else {
        None
    }
}

/// Looks up an entity by identity and asks it for its image.
pub fn image_of(matter: &crate::sulphate::EntityHeap, uid: UID) -> (r: Option<Image>)
    requires
        matter.wf(),
    ensures
        r == spec_image_of(matter@, uid),
{
    match matter.get(uid) {
        Some(e) => match e {
            Entity::Player(p) => p.image(),
        },
        None => None,
    }
}

} // verus!
