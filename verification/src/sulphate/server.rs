//! What the serving loop decides between ticks: applying an externally
//! delivered command to the world, or shutting the simulation down.
//! The loop itself, with its threads, channels and real-time clock,
//! lives outside the library.

use vstd::prelude::*;

use crate::entities::EntityKind;
use crate::entities::player;
use crate::space::partners_of;
use crate::space::space_contains;
use crate::sulphate::EntityId;
use crate::sulphate::EventQueue;
use crate::sulphate::UID;
use crate::sulphate::World;
use crate::sulphate::heap_contains;

verus! {

/// A command that arrives between scheduler ticks.
pub enum Interruption {
    PlayerUpdate { id: EntityId, control: player::Control },
    KillServer,
}

impl Interruption {
    /// Applies one command to the world; the result says whether the
    /// serving loop should stop.
    pub fn update(self, time: &mut EventQueue, world: &mut World) -> (r: bool)
        requires
            old(world).space.wf(),
            old(world).matter.wf(),
            (match self {
                Interruption::PlayerUpdate { id, control: _ } => (space_contains(
                    old(world).space.spec_contents(),
                    UID { id, kind: EntityKind::Player },
                ) || partners_of(
                    old(world).space.spec_contacts(),
                    UID { id, kind: EntityKind::Player },
                ).len() > 0) ==> (space_contains(
                    old(world).space.spec_contents(),
                    UID { id, kind: EntityKind::Player },
                ) && heap_contains(old(world).matter@, UID { id, kind: EntityKind::Player })),
                Interruption::KillServer => true,
            }),
        ensures
            final(world).space.wf(),
            final(world).matter.wf(),
            final(time).spec_now() == old(time).spec_now(),
            r == (self is KillServer),
    {
        match self {
            Interruption::PlayerUpdate { id, control } => {
                player::Control::apply(
                    &mut world.space,
                    time,
                    &mut world.matter,
                    id,
                    control,
                );
                false
            },
            Interruption::KillServer => true,
        }
    }
}

} // verus!
