//! The scheduled units of the engine and their staleness checks.  An
//! event carries an immutable snapshot of what it was scheduled against;
//! when it fires it compares that snapshot with fresh state and quietly
//! dies if the world has moved on.  Nothing is ever cancelled: staleness
//! is the only cancellation mechanism.

use vstd::prelude::*;

use crate::space;
use crate::space::Body;
use crate::space::in_contact_spec;
use crate::space::CollisionSpace;
use crate::space::PhysicsState;
use crate::space::body_equiv;
use crate::space::body_x_at;
use crate::space::body_y_at;
use crate::space::space_at;
use crate::space::space_contains;
use crate::sulphate::UID;
use crate::units;

verus! {

/// The snapshot a collide or release event carries for one entity:
/// enough to tell whether that entity still moves as it did when the
/// event was scheduled.
#[derive(Clone, Copy)]
pub struct ContactData {
    pub body: Body,
    pub radius: units::Distance,
    pub uid: UID,
}

/// When two snapshots describe the same entity state.
pub open spec fn contact_data_equiv(a: ContactData, b: ContactData) -> bool {
    body_equiv(a.body, b.body) && a.radius == b.radius && a.uid == b.uid
}

impl PartialEq for ContactData {
    fn eq(&self, other: &ContactData) -> (r: bool) {
        self.body == other.body && self.radius == other.radius && self.uid == other.uid
    }
}

impl vstd::std_specs::cmp::PartialEqSpecImpl for ContactData {
    open spec fn obeys_eq_spec() -> bool {
        true
    }

    open spec fn eq_spec(&self, other: &ContactData) -> bool {
        contact_data_equiv(*self, *other)
    }
}

/// Whether the difference between a current entry and a snapshot is
/// explained by a bounce: same radius and the same position at `time`,
/// only the velocity having changed.
pub open spec fn spec_is_bounce(a: ContactData, b: ContactData, time: units::Time) -> bool {
    &&& a.radius == b.radius
    &&& body_x_at(a.body, time) == body_x_at(b.body, time)
    &&& body_y_at(a.body, time) == body_y_at(b.body, time)
}

/// The snapshot the space currently holds for `uid`, with the bounce
/// time if that entry is in its post-bounce instant.
pub open spec fn spec_try_new(s: Seq<(UID, space::CollisionBody)>, uid: UID) -> Option<
    (ContactData, Option<units::Time>),
> {
    if space_contains(s, uid) {
        let c_body = space_at(s, uid);
        Some(
            (
                ContactData { body: c_body.body, radius: c_body.radius, uid },
                match c_body.physics_state {
                    PhysicsState::Bounce(t) => Some(t),
                    _ => None,
                },
            ),
        )
    } else {
        None
    }
}

impl ContactData {
    /// The snapshot the space currently holds for a tracked entity.
    pub fn new(space: &CollisionSpace, uid: UID) -> (r: ContactData)
        requires
            space.wf(),
            space_contains(space.spec_contents(), uid),
        ensures
            Some((r, spec_try_new(space.spec_contents(), uid).unwrap().1)) == spec_try_new(
                space.spec_contents(),
                uid,
            ),
    {
        let (data, _bounce): (ContactData, Option<units::Time>) = ContactData::try_new(
            space,
            uid,
        ).unwrap();
        data
    }

    /// The snapshot the space holds for `uid`, if it tracks that entity,
    /// along with the bounce time of an entry still in its post-bounce
    /// instant.
    pub fn try_new(space: &CollisionSpace, uid: UID) -> (r: Option<
        (ContactData, Option<units::Time>),
    >)
        requires
            space.wf(),
        ensures
            r == spec_try_new(space.spec_contents(), uid),
    {
        match space.get_uid(uid) {
            Some(c_body) => {
                let body: Body = c_body.body;
                let radius: units::Distance = c_body.radius;
                let bounce: Option<units::Time> = match c_body.physics_state {
                    PhysicsState::Bounce(t) => Some(t),
                    _ => None,
                };
                Some((ContactData { body, radius, uid }, bounce))
            },
            None => None,
        }
    }

    /// Whether `other` differs from this snapshot only as a bounce at
    /// `time` would explain.
    pub fn is_bounce(&self, other: &ContactData, time: units::Time) -> (r: bool)
        ensures
            r == spec_is_bounce(*self, *other, time),
    {
        let here: units::Position = self.body.position(time);
        let there: units::Position = other.body.position(time);
        self.radius == other.radius && here == there
    }
}

/// How two entities meet or part: a fresh overlap, a scheduled drifting
/// apart, or one side vanishing outright.
#[derive(Clone, Copy, PartialEq, Eq, Structural, Debug)]
pub enum ContactType {
    Collision,
    Release,
    Disappear,
}

/// A broad-phase re-check scheduled for one entity.
#[derive(Clone, Copy)]
pub struct MarchEvent {
    pub uid: UID,
}

/// A predicted first contact of a pair, with the release already known.
#[derive(Clone, Copy)]
pub struct CollideEvent {
    pub first: ContactData,
    pub second: ContactData,
    pub release_time: units::Time,
}

/// A predicted parting of a pair.
#[derive(Clone, Copy)]
pub struct ReleaseEvent {
    pub first: ContactData,
    pub second: ContactData,
}

/// A contact callback on its way to one entity, carrying the other
/// side's image as it looked when the contact was decided.
#[derive(Clone, Copy)]
pub struct ContactEvent {
    pub this_uid: UID,
    pub with: space::Image,
    pub contact_type: ContactType,
}

/// Whether a pair snapshot still matches the world: both entities still
/// tracked, and each current entry either equal to its snapshot or
/// different only by a bounce at exactly this time.
pub open spec fn spec_contact_event_relevant(
    s: Seq<(UID, space::CollisionBody)>,
    time: units::Time,
    first: ContactData,
    second: ContactData,
) -> bool {
    match (spec_try_new(s, first.uid), spec_try_new(s, second.uid)) {
        (Some((first_now, first_bounce)), Some((second_now, second_bounce))) => {
            let first_is_bounce = match first_bounce {
                Some(t) => t == time && spec_is_bounce(first_now, first, time),
                None => false,
            };
            let second_is_bounce = match second_bounce {
                Some(t) => t == time && spec_is_bounce(second_now, second, time),
                None => false,
            };
            (first_is_bounce || contact_data_equiv(first_now, first)) && (second_is_bounce
                || contact_data_equiv(second_now, second))
        },
        _ => false,
    }
}

/// Checks a collide or release event's snapshots against fresh state.
pub fn contact_event_relevant(
    space: &CollisionSpace,
    time: units::Time,
    first: &ContactData,
    second: &ContactData,
) -> (r: bool)
    requires
        space.wf(),
    ensures
        r == spec_contact_event_relevant(space.spec_contents(), time, *first, *second),
{
    let first_now: Option<(ContactData, Option<units::Time>)> = ContactData::try_new(
        space,
        first.uid,
    );
    let second_now: Option<(ContactData, Option<units::Time>)> = ContactData::try_new(
        space,
        second.uid,
    );

    match (first_now, second_now) {
        (Some((first_now, first_bounce)), Some((second_now, second_bounce))) => {
            let first_is_bounce: bool = match first_bounce {
                Some(t) => t == time && ContactData::is_bounce(&first_now, first, time),
                None => false,
            };
            let second_is_bounce: bool = match second_bounce {
                Some(t) => t == time && ContactData::is_bounce(&second_now, second, time),
                None => false,
            };
            (first_is_bounce || first_now == *first) && (second_is_bounce || second_now
                == *second)
        },
        _ => false,
    }
}

/// Whether a march event still speaks for its entry's current schedule:
/// the entry must name exactly the time the event fires at, directly for
/// a march, one instant later for a bounce re-check.
pub open spec fn spec_march_still_relevant(
    s: Seq<(UID, space::CollisionBody)>,
    uid: UID,
    exec_time: units::Time,
) -> bool {
    if space_contains(s, uid) {
        match space_at(s, uid).physics_state {
            PhysicsState::NoMarch => false,
            PhysicsState::March(march_time) => exec_time == march_time,
            PhysicsState::Bounce(bounce_time) => exec_time@ == crate::math::fix_add(
                bounce_time@,
                1,
            ),
        }
    } else {
        false
    }
}

impl MarchEvent {
    /// Checks this event against the entry's current schedule.
    pub fn still_relevant(
        &self,
        space: &CollisionSpace,
        _matter: &crate::sulphate::EntityHeap,
        _time_now: units::Time,
        exec_time: units::Time,
    ) -> (r: bool)
        requires
            space.wf(),
        ensures
            r == spec_march_still_relevant(space.spec_contents(), self.uid, exec_time),
    {
        match space.get_uid(self.uid) {
            None => false,
            Some(c_body) => match c_body.physics_state {
                PhysicsState::NoMarch => false,
                PhysicsState::March(march_time) => exec_time == march_time,
                PhysicsState::Bounce(bounce_time) => exec_time == bounce_time + units::instants(
                    1,
                ),
            },
        }
    }
}

// ---------------------------------------------------------------------------
// Firing
// ---------------------------------------------------------------------------

impl MarchEvent {
    /// Fires a march: if the entry still names exactly this moment, the
    /// pass re-derives everything from scratch and reschedules; a stale
    /// event changes nothing at all.
    pub fn invoke(
        self,
        space: &mut CollisionSpace,
        time: &mut crate::sulphate::EventQueue,
        matter: &crate::sulphate::EntityHeap,
    )
        requires
            old(space).wf(),
        ensures
            final(space).wf(),
            final(time).spec_now() == old(time).spec_now(),
            final(space).spec_contacts() == old(space).spec_contacts(),
            !spec_march_still_relevant(
                old(space).spec_contents(),
                self.uid,
                old(time).spec_now(),
            ) ==> {
                &&& final(space).spec_contents() == old(space).spec_contents()
                &&& final(time).spec_pending() == old(time).spec_pending()
            },
            spec_march_still_relevant(old(space).spec_contents(), self.uid, old(time).spec_now())
                ==> {
                let s = old(space).spec_contents();
                let n = crate::space::space_index_of(s, self.uid);
                let m = crate::space::spec_march_min(s.take(n), s[n].1, old(time).spec_now());
                let cols = crate::space::spec_collide_list(s.take(n), s[n].1, old(time).spec_now());
                let s2 = s.update(
                    n,
                    (
                        s[n].0,
                        (space::CollisionBody {
                            physics_state: crate::space::march_state(m),
                            ..s[n].1
                        }),
                    ),
                );
                &&& final(space).spec_contents() == s2
                &&& final(time).spec_pending() == old(time).spec_pending()
                    + crate::space::march_event_seq(m, self.uid) + crate::space::spec_collision_events(
                    s2,
                    old(space).spec_contacts(),
                    old(time).spec_now(),
                    self.uid,
                    cols,
                )
            },
{
        let now: units::Time = time.now();
        if self.still_relevant(space, matter, now, now) {
            crate::space::march(space, time, self.uid);
        }
    }
}

impl CollideEvent {
    /// Fires a predicted contact.  A stale event — one whose snapshots no
    /// longer speak for the world — is dropped entirely.  A live one
    /// commits the contact and announces it to both sides, unless the
    /// pair already touches, and in either live case schedules the
    /// matching release, which re-validates itself in turn.
    pub fn invoke(
        self,
        space: &mut CollisionSpace,
        time: &mut crate::sulphate::EventQueue,
        matter: &crate::sulphate::EntityHeap,
    )
        requires
            old(space).wf(),
            matter.wf(),
        ensures
            final(space).wf(),
            final(space).spec_contents() == old(space).spec_contents(),
            final(time).spec_now() == old(time).spec_now(),
            ({
                let s = old(space).spec_contents();
                let c = old(space).spec_contacts();
                let now = old(time).spec_now();
                let relevant = spec_contact_event_relevant(s, now, self.first, self.second);
                let act = relevant && !in_contact_spec(c, self.first.uid, self.second.uid);
                &&& final(space).spec_contacts() == (if act {
                    c.push((self.first.uid, self.second.uid))
                } else {
                    c
                })
                &&& final(time).spec_pending() == old(time).spec_pending() + (if act {
                    crate::space::spec_contact_notice(
                        s,
                        matter@,
                        now,
                        self.first.uid,
                        self.second.uid,
                        ContactType::Collision,
                    ) + crate::space::spec_contact_notice(
                        s,
                        matter@,
                        now,
                        self.second.uid,
                        self.first.uid,
                        ContactType::Collision,
                    )
                } else {
                    Seq::empty()
                }) + (if relevant {
                    seq![
                        (
                            self.release_time,
                            crate::sulphate::GeneralEvent::Release(
                                ReleaseEvent { first: self.first, second: self.second },
                            ),
                        ),
                    ]
                } else {
                    Seq::empty()
                })
            }),
    {
        let now: units::Time = time.now();
        if contact_event_relevant(space, now, &self.first, &self.second) {
            if !space.are_in_contact(self.first.uid, self.second.uid) {
                crate::space::perform_contact(
                    space,
                    time,
                    matter,
                    self.first.uid,
                    self.second.uid,
                    ContactType::Collision,
                );
            }

            let release_event: ReleaseEvent = ReleaseEvent {
                first: self.first,
                second: self.second,
            };
            crate::sulphate::enqueue_absolute(
                time,
                crate::sulphate::GeneralEvent::Release(release_event),
                self.release_time,
            );
        }
    }
}

impl ReleaseEvent {
    /// Fires a predicted parting: if both snapshots still speak for the
    /// world and the pair is still touching, the contact is struck out
    /// and the parting announced to both sides.
    pub fn invoke(
        self,
        space: &mut CollisionSpace,
        time: &mut crate::sulphate::EventQueue,
        matter: &crate::sulphate::EntityHeap,
    )
        requires
            old(space).wf(),
            matter.wf(),
        ensures
            final(space).wf(),
            final(space).spec_contents() == old(space).spec_contents(),
            final(time).spec_now() == old(time).spec_now(),
            ({
                let s = old(space).spec_contents();
                let c = old(space).spec_contacts();
                let now = old(time).spec_now();
                let act = spec_contact_event_relevant(s, now, self.first, self.second)
                    && in_contact_spec(c, self.first.uid, self.second.uid);
                &&& final(space).spec_contacts() == (if act {
                    crate::space::without_pair(c, self.first.uid, self.second.uid)
                } else {
                    c
                })
                &&& final(time).spec_pending() == old(time).spec_pending() + (if act {
                    crate::space::spec_contact_notice(
                        s,
                        matter@,
                        now,
                        self.first.uid,
                        self.second.uid,
                        ContactType::Release,
                    ) + crate::space::spec_contact_notice(
                        s,
                        matter@,
                        now,
                        self.second.uid,
                        self.first.uid,
                        ContactType::Release,
                    )
                } else {
                    Seq::empty()
                })
            }),
    {
        let now: units::Time = time.now();
        if contact_event_relevant(space, now, &self.first, &self.second) && space.are_in_contact(
            self.first.uid,
            self.second.uid,
        ) {
            crate::space::perform_contact(
                space,
                time,
                matter,
                self.first.uid,
                self.second.uid,
                ContactType::Release,
            );
        }
    }
}

impl ContactEvent {
    /// Delivers one queued contact callback: the target, if it still
    /// shows an image, handles the touch, parting or disappearance
    /// inside its own change-tracking scope.  A vanished target hears
    /// nothing and nothing anywhere changes.
    pub fn invoke(
        self,
        space: &mut CollisionSpace,
        time: &mut crate::sulphate::EventQueue,
        matter: &mut crate::sulphate::EntityHeap,
    )
        requires
            old(space).wf(),
            old(matter).wf(),
        ensures
            final(space).wf(),
            final(matter).wf(),
            final(time).spec_now() == old(time).spec_now(),
            crate::space::spec_uid_image(
                old(space).spec_contents(),
                old(matter)@,
                self.this_uid,
            ) is None ==> {
                &&& final(space).spec_contents() == old(space).spec_contents()
                &&& final(space).spec_contacts() == old(space).spec_contacts()
                &&& final(time).spec_pending() == old(time).spec_pending()
                &&& final(matter)@ == old(matter)@
            },
    {
        if space.get_uid_image(matter, self.this_uid).is_none() {
            return ;
        }
        let entry: crate::space::Entry = space.entry(matter, self.this_uid.id, self.this_uid.kind);
        match self.this_uid.kind {
            crate::entities::EntityKind::Player => {
                match self.contact_type {
                    ContactType::Collision => {
                        <crate::entities::Player as crate::space::Collide>::collide(
                            entry,
                            space,
                            time,
                            matter,
                            self.with,
                        );
                    },
                    ContactType::Release => {
                        <crate::entities::Player as crate::space::Collide>::release(
                            entry,
                            space,
                            time,
                            matter,
                            self.with,
                        );
                    },
                    ContactType::Disappear => {
                        <crate::entities::Player as crate::space::Collide>::disappear(
                            entry,
                            space,
                            time,
                            matter,
                            self.with,
                        );
                    },
                }
            },
        }
    }
}

} // verus!
