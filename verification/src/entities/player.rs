//! The one concrete entity kind: a circle steered from outside the
//! simulation.  Updates meant for the player's device accumulate in an
//! outbox; whatever transports them drains it between ticks.

use vstd::prelude::*;

use crate::entities;
use crate::entities::EntityKind;
use crate::space;
use crate::space::Collide;
use crate::space::Entry;
use crate::space::Eyes;
use crate::space::partners_of;
use crate::space::space_at;
use crate::space::space_contains;
use crate::sulphate;
use crate::sulphate::EntityHeap;
use crate::sulphate::EventQueue;
use crate::sulphate::UID;
use crate::sulphate::heap_contains;
use crate::units;

verus! {

/// A player entity: its pending outbound updates.
pub struct Player {
    outbox: Vec<Update>,
}

/// What a player looks like: a plain circle.
#[derive(Clone, Copy, PartialEq, Eq, Structural)]
pub struct Image;

/// A steering command from the player's device.
pub enum Control {
    Move { velocity: units::Velocity },
}

/// One message bound for the player's device.
pub struct Update {
    pub when: units::Time,
    pub what: UpdateData,
}

/// What a message tells the device.
pub enum UpdateData {
    Created { id: sulphate::EntityId, position: units::Position },
    Vision { before: Option<space::Image>, after: Option<space::Image> },
}

impl entities::Display for Player {
    open spec fn spec_image(&self) -> Option<entities::Image> {
        Some(entities::Image::Player(Image))
    }

    fn image(&self) -> (r: Option<entities::Image>) {
        Some(entities::Image::Player(Image))
    }
}

impl Player {
    /// The updates queued for this player's device.
    pub closed spec fn spec_outbox(&self) -> Seq<Update> {
        self.outbox@
    }

    /// A player with nothing queued yet.
    pub fn with_empty_outbox() -> (r: Player)
        ensures
            r.spec_outbox() == Seq::<Update>::empty(),
    {
        Player { outbox: Vec::new() }
    }

    /// Queues one update for the device.
    pub fn send(&mut self, update: Update)
        ensures
            final(self).spec_outbox() == old(self).spec_outbox().push(update),
    {
        self.outbox.push(update);
    }

    /// Hands over everything queued, leaving the outbox empty.
    pub fn take_updates(&mut self) -> (r: Vec<Update>)
        ensures
            r@ == old(self).spec_outbox(),
            final(self).spec_outbox() == Seq::<Update>::empty(),
    {
        let mut taken: Vec<Update> = Vec::new();
        std::mem::swap(&mut taken, &mut self.outbox);
        taken
    }
}

impl Control {
    /// Applies one steering command between ticks: the player's cached
    /// body bounces to the commanded velocity, and the scope's release
    /// propagates everything that follows.  A player with no tracked
    /// body ignores the command.
    pub fn apply(
        space: &mut space::CollisionSpace,
        time: &mut EventQueue,
        matter: &mut EntityHeap,
        id: sulphate::EntityId,
        data: Control,
    )
        requires
            old(space).wf(),
            old(matter).wf(),
            (space_contains(old(space).spec_contents(), UID { id, kind: EntityKind::Player })
                || partners_of(
                old(space).spec_contacts(),
                UID { id, kind: EntityKind::Player },
            ).len() > 0) ==> (space_contains(
                old(space).spec_contents(),
                UID { id, kind: EntityKind::Player },
            ) && heap_contains(old(matter)@, UID { id, kind: EntityKind::Player })),
        ensures
            final(space).wf(),
            final(matter).wf(),
            final(time).spec_now() == old(time).spec_now(),
            final(matter)@.len() == old(matter)@.len(),
            (match data {
                Control::Move { velocity } => {
                    let u = UID { id, kind: EntityKind::Player };
                    let s = old(space).spec_contents();
                    let c = old(space).spec_contacts();
                    let p = old(time).spec_pending();
                    let m = old(matter)@;
                    let now = old(time).spec_now();
                    if space_contains(s, u) {
                        let after = Some(
                            space::Image {
                                inner_image: entities::spec_image_of(m, u).unwrap(),
                                body: crate::space::space_at(s, u).body.spec_split(velocity, now),
                            },
                        );
                        (
                            final(space).spec_contents(),
                            final(space).spec_contacts(),
                            final(time).spec_pending(),
                        ) == crate::space::spec_update_physics(
                            s,
                            c,
                            p,
                            m,
                            now,
                            u,
                            after,
                            crate::space::spec_uid_image(s, m, u),
                        )
                    } else {
                        final(space).spec_contents() == s && final(space).spec_contacts() == c
                            && final(time).spec_pending() == p && final(matter)@ == m
                    }
                },
            }),
            (match data {
                Control::Move { velocity } => {
                    let u = UID { id, kind: EntityKind::Player };
                    let s = old(space).spec_contents();
                    let m = old(matter)@;
                    let now = old(time).spec_now();
                    let before_img = crate::space::spec_uid_image(s, m, u);
                    let after_img = if space_contains(s, u) {
                        Some(
                            space::Image {
                                inner_image: entities::spec_image_of(m, u).unwrap(),
                                body: crate::space::space_at(s, u).body.spec_split(velocity, now),
                            },
                        )
                    } else {
                        Option::<space::Image>::None
                    };
                    if crate::space::opt_image_equiv(before_img, after_img) {
                        final(matter)@ == m
                    } else {
                        forall|j: int|
                            0 <= j < m.len() ==> {
                                if m[j].0.kind == EntityKind::Player && space_contains(
                                    final(space).spec_contents(),
                                    m[j].0,
                                ) {
                                    crate::space::notified_entry(
                                        m[j],
                                        #[trigger] final(matter)@[j],
                                        Update {
                                            when: now,
                                            what: UpdateData::Vision {
                                                before: before_img,
                                                after: after_img,
                                            },
                                        },
                                    )
                                } else {
                                    final(matter)@[j] == m[j]
                                }
                            }
                    }
                },
            }),
    {
        match data {
            Control::Move { velocity } => {
                let mut this: Entry = space.entry(matter, id, EntityKind::Player);
                let now: units::Time = this.now(time);
                match &mut this.body {
                    Some(body) => {
                        body.bounce(velocity, now);
                    },
                    None => (),
                }
                proof {
                    let u = UID { id, kind: EntityKind::Player };
                    if space_contains(old(space).spec_contents(), u) {
                        assert(entities::spec_image_of(old(matter)@, u) is Some);
                    }
                }
                this.release(space, time, matter);
            },
        }
    }
}

impl Player {
    /// Creates a player at rest at `position`, announces its creation
    /// through its own outbox, and returns the still-open scope so the
    /// caller commits the appearance.
    pub fn new(
        space: &mut space::CollisionSpace,
        time: &mut EventQueue,
        matter: &mut EntityHeap,
        position: units::Position,
    ) -> (r: Entry)
        requires
            old(space).wf(),
            old(matter).wf(),
            old(matter)@.len() < usize::MAX,
            forall|u: UID|
                space_contains(old(space).spec_contents(), u) ==> #[trigger] heap_contains(
                    old(matter)@,
                    u,
                ),
        ensures
            final(space).wf(),
            final(matter).wf(),
            *final(space) == *old(space),
            final(time).spec_now() == old(time).spec_now(),
            final(time).spec_pending() == old(time).spec_pending(),
            r.spec_uid().kind == EntityKind::Player,
            !heap_contains(old(matter)@, r.spec_uid()),
            !space_contains(old(space).spec_contents(), r.spec_uid()),
            r.spec_before() is None,
            r.body == Some(space::Body::spec_frozen(position)),
            exists|p: Player|
                {
                    &&& final(matter)@ == old(matter)@.push((r.spec_uid(), entities::Entity::Player(p)))
                    &&& (#[trigger] p.spec_outbox()) == seq![
                        Update {
                            when: old(time).spec_now(),
                            what: UpdateData::Created { id: r.spec_uid().id, position },
                        },
                    ]
                },
    {
        let player: Player = Player::with_empty_outbox();
        let id: sulphate::EntityId = matter.add(entities::Entity::Player(player));
        let mut this: Entry = space.entry(matter, id, EntityKind::Player);

        this.body = Some(space::Body::new_frozen(position));

        let when: units::Time = time.now();
        let what: UpdateData = UpdateData::Created { id, position };
        let update: Update = Update { when, what };
        proof {
            let u = UID { id, kind: EntityKind::Player };
            assert(matter@[matter@.len() - 1].0 == u);
            assert(heap_contains(matter@, u));
        }
        let target: &mut Player = matter.get_player_mut(id).unwrap();
        target.send(update);
        proof {
            let u = UID { id, kind: EntityKind::Player };
            let m2 = matter@;
            assert(m2.len() == old(matter)@.len() + 1);
            match m2[m2.len() - 1].1 {
                entities::Entity::Player(pp) => {
                    assert(m2 =~= old(matter)@.push((u, entities::Entity::Player(pp))));
                },
            }
        }
        this
    }
}

impl Eyes for Player {
    fn update(
        matter: &mut EntityHeap,
        id: sulphate::EntityId,
        when: units::Time,
        before: Option<&space::Image>,
        after: Option<&space::Image>,
    ) {
        let before_val: Option<space::Image> = match before {
            Some(i) => Some(*i),
            None => None,
        };
        let after_val: Option<space::Image> = match after {
            Some(i) => Some(*i),
            None => None,
        };
        match matter.get_player_mut(id) {
            Some(player) => {
                let what: UpdateData = UpdateData::Vision { before: before_val, after: after_val };
                player.send(Update { when, what });
                proof {
                    let u = UID { id, kind: EntityKind::Player };
                    let w = crate::sulphate::heap_index_of(old(matter)@, u);
                    assert forall|j: int| 0 <= j < old(matter)@.len() && j != w implies old(
                        matter,
                    )@[j].0 != u by {
                        assert(old(matter)@[w].0 == u);
                    };
                }
            },
            None => (),
        }
    }
}

impl Collide for Player {
    /// A collision stops the player one unit short, so overlapping
    /// bodies come to rest just touching instead of passing through.
    fn collide(
        mut this: Entry,
        space: &mut space::CollisionSpace,
        time: &mut EventQueue,
        matter: &mut EntityHeap,
        _other: space::Image,
    ) {
        let now: units::Time = this.now(time);

        match &mut this.body {
            Some(body) => {
                let velocity: units::Velocity = body.velocity();
                let position: units::Position = body.position(now);
                let zero: units::Velocity = Default::default();
                if !(velocity == zero) {
                    let magnitude: units::Speed = velocity.magnitude();
                    if magnitude.into_bits() != 0 {
                        let new_position: units::Position = position - velocity / magnitude;
                        *body = space::Body::new_frozen(new_position);
                    }
                }
            },
            None => (),
        }
        this.release(space, time, matter);
    }

    /// Nothing special happens when contact ends.
    fn release(
        this: Entry,
        space: &mut space::CollisionSpace,
        time: &mut EventQueue,
        matter: &mut EntityHeap,
        _other: space::Image,
    ) {
        this.release(space, time, matter);
    }

    /// Nothing special happens when a touching body vanishes.
    fn disappear(
        this: Entry,
        space: &mut space::CollisionSpace,
        time: &mut EventQueue,
        matter: &mut EntityHeap,
        _other: space::Image,
    ) {
        this.release(space, time, matter);
    }
}

} // verus!
