//! The incremental marching pass and the index update that drives it.
//!
//! A pass works on one subject entry and only the entries before it in
//! priority order, so every unordered pair is examined exactly once, by
//! whichever of its two entities joined the index later.

use vstd::prelude::*;

use crate::math::fix_add;

use crate::space::Body;
use crate::space::CollideEvent;
use crate::space::CollisionBody;
use crate::space::CollisionSpace;
use crate::space::ContactData;
use crate::space::ContactEvent;
use crate::space::ContactType;
use crate::space::Image;
use crate::space::MarchEvent;
use crate::space::MarchResult;
use crate::space::PhysicsState;
use crate::space::ReleaseEvent;
use crate::space::in_contact_spec;
use crate::space::partners_of;
use crate::space::body_equiv;
use crate::space::body_x_at;
use crate::space::body_y_at;
use crate::space::space_at;
use crate::space::space_contains;
use crate::space::spec_march_result;
use crate::space::spec_uid_image;
use crate::space::without_pair;
use crate::sulphate::EntityHeap;
use crate::sulphate::EventQueue;
use crate::sulphate::GeneralEvent;
use crate::sulphate::UID;
use crate::sulphate::enqueue_absolute;
use crate::sulphate::enqueue_relative;
use crate::units;

verus! {

/// The least march deadline the broad phase reports for the subject
/// against each of `others`, if it reports any.
pub open spec fn spec_march_min(
    others: Seq<(UID, CollisionBody)>,
    subject: CollisionBody,
    now: units::Time,
) -> Option<units::Time>
    decreases others.len(),
{
    if others.len() == 0 {
        None
    } else {
        let rest = spec_march_min(others.drop_last(), subject, now);
        match spec_march_result(subject, others.last().1, now) {
            MarchResult::March(t) => match rest {
                None => Some(t),
                Some(u) => if t@ < u@ {
                    Some(t)
                } else {
                    Some(u)
                },
            },
            _ => rest,
        }
    }
}

/// Every collide window the broad phase reports for the subject against
/// `others`, with the partner's identity, in index order.
pub open spec fn spec_collide_list(
    others: Seq<(UID, CollisionBody)>,
    subject: CollisionBody,
    now: units::Time,
) -> Seq<(units::Time, units::Time, UID)>
    decreases others.len(),
{
    if others.len() == 0 {
        Seq::empty()
    } else {
        let rest = spec_collide_list(others.drop_last(), subject, now);
        match spec_march_result(subject, others.last().1, now) {
            MarchResult::Collide(t, u) => rest.push((t, u, others.last().0)),
            _ => rest,
        }
    }
}

/// One marching pass for the entry at position `n`, against everything
/// before it: the aggregated march deadline and the collide windows.
pub fn get_march_data(space: &CollisionSpace, time_now: units::Time, n: usize) -> (r: (
    Option<units::Time>,
    Vec<(units::Time, units::Time, UID)>,
))
    requires
        space.wf(),
        n < space.spec_contents().len(),
    ensures
        r.0 == spec_march_min(
            space.spec_contents().take(n as int),
            space.spec_contents()[n as int].1,
            time_now,
        ),
        r.1@ == spec_collide_list(
            space.spec_contents().take(n as int),
            space.spec_contents()[n as int].1,
            time_now,
        ),
{
    let subject: CollisionBody = *space.entry_at(n);
    let mut march: Option<units::Time> = None;
    let mut collisions: Vec<(units::Time, units::Time, UID)> = Vec::new();

    let mut i: usize = 0;
    while i < n
        invariant
            0 <= i <= n,
            space.wf(),
            n < space.spec_contents().len(),
            subject == space.spec_contents()[n as int].1,
            march == spec_march_min(space.spec_contents().take(i as int), subject, time_now),
            collisions@ == spec_collide_list(
                space.spec_contents().take(i as int),
                subject,
                time_now,
            ),
        decreases n - i,
    {
        let other_uid: UID = space.uid_at(i);
        let other: &CollisionBody = space.entry_at(i);
        proof {
            assert(space.spec_contents().take(i + 1).drop_last() == space.spec_contents().take(
                i as int,
            ));
            assert(space.spec_contents().take(i + 1).last() == space.spec_contents()[i as int]);
        }
        match crate::space::march_result(&subject, other, time_now) {
            MarchResult::Miss => (),
            MarchResult::StableMiss => (),
            MarchResult::StableContact => (),
            MarchResult::Collide(t, u) => {
                collisions.push((t, u, other_uid));
            },
            MarchResult::March(t) => {
                march = match march {
                    None => Some(t),
                    Some(u) => {
                        if t < u {
                            Some(t)
                        } else {
                            Some(u)
                        }
                    },
                };
            },
        }
        i = i + 1;
    }
    (march, collisions)
}

/// What a relocated entry's pass concludes for the entry at position
/// `n`, against everything before it, given the identities it was in
/// contact with: the march deadline, the partners to release, the
/// collide windows, and the freshly coincident stable partners.
pub open spec fn spec_march_relocated_data(
    others: Seq<(UID, CollisionBody)>,
    subject: CollisionBody,
    now: units::Time,
    contacts: Seq<UID>,
) -> (Option<units::Time>, Seq<UID>, Seq<(units::Time, units::Time, UID)>, Seq<UID>)
    decreases others.len(),
{
    if others.len() == 0 {
        (None, Seq::empty(), Seq::empty(), Seq::empty())
    } else {
        let (march, releases, collisions, stable) = spec_march_relocated_data(
            others.drop_last(),
            subject,
            now,
            contacts,
        );
        let other_uid = others.last().0;
        match spec_march_result(subject, others.last().1, now) {
            MarchResult::Miss => if contacts.contains(other_uid) {
                (march, releases.push(other_uid), collisions, stable)
            } else {
                (march, releases, collisions, stable)
            },
            MarchResult::StableMiss => if contacts.contains(other_uid) {
                (march, releases.push(other_uid), collisions, stable)
            } else {
                (march, releases, collisions, stable)
            },
            MarchResult::StableContact => if !contacts.contains(other_uid) {
                (march, releases, collisions, stable.push(other_uid))
            } else {
                (march, releases, collisions, stable)
            },
            MarchResult::Collide(c, r) => {
                let collisions2 = collisions.push((c, r, other_uid));
                if contacts.contains(other_uid) && (now@ < c@ || r@ <= now@) {
                    (march, releases.push(other_uid), collisions2, stable)
                } else {
                    (march, releases, collisions2, stable)
                }
            },
            MarchResult::March(t) => {
                let march2 = match march {
                    None => Some(t),
                    Some(u) => if t@ < u@ {
                        Some(t)
                    } else {
                        Some(u)
                    },
                };
                if contacts.contains(other_uid) {
                    (march2, releases.push(other_uid), collisions, stable)
                } else {
                    (march2, releases, collisions, stable)
                }
            },
        }
    }
}

/// Whether a vector of identities holds this one.
fn uid_vec_contains(v: &Vec<UID>, uid: UID) -> (r: bool)
    ensures
        r == v@.contains(uid),
{
    let n: usize = v.len();
    let mut i: usize = 0;
    while i < n
        invariant
            0 <= i <= n,
            n == v@.len(),
            forall|j: int| 0 <= j < i ==> v@[j] != uid,
        decreases n - i,
    {
        if v[i] == uid {
            return true;
        }
        i = i + 1;
    }
    false
}

/// One marching pass for a relocated entry at position `n`: current
/// contacts and statically coincident pairs are reconsidered, which
/// continuous motion lets the ordinary pass ignore.
pub fn get_march_relocated_data(
    space: &CollisionSpace,
    time_now: units::Time,
    n: usize,
    contacts: Vec<UID>,
) -> (r: (
    Option<units::Time>,
    Vec<UID>,
    Vec<(units::Time, units::Time, UID)>,
    Vec<UID>,
))
    requires
        space.wf(),
        n < space.spec_contents().len(),
    ensures
        (r.0, r.1@, r.2@, r.3@) == spec_march_relocated_data(
            space.spec_contents().take(n as int),
            space.spec_contents()[n as int].1,
            time_now,
            contacts@,
        ),
{
    let subject: CollisionBody = *space.entry_at(n);
    let mut march: Option<units::Time> = None;
    let mut releases: Vec<UID> = Vec::new();
    let mut collisions: Vec<(units::Time, units::Time, UID)> = Vec::new();
    let mut stable_collisions: Vec<UID> = Vec::new();

    let mut i: usize = 0;
    while i < n
        invariant
            0 <= i <= n,
            space.wf(),
            n < space.spec_contents().len(),
            subject == space.spec_contents()[n as int].1,
            (march, releases@, collisions@, stable_collisions@) == spec_march_relocated_data(
                space.spec_contents().take(i as int),
                subject,
                time_now,
                contacts@,
            ),
        decreases n - i,
    {
        let other_uid: UID = space.uid_at(i);
        let other: &CollisionBody = space.entry_at(i);
        proof {
            assert(space.spec_contents().take(i + 1).drop_last() == space.spec_contents().take(
                i as int,
            ));
            assert(space.spec_contents().take(i + 1).last() == space.spec_contents()[i as int]);
        }
        match crate::space::march_result(&subject, other, time_now) {
            MarchResult::Miss => {
                if uid_vec_contains(&contacts, other_uid) {
                    releases.push(other_uid);
                }
            },
            MarchResult::StableMiss => {
                if uid_vec_contains(&contacts, other_uid) {
                    releases.push(other_uid);
                }
            },
            MarchResult::StableContact => {
                if !uid_vec_contains(&contacts, other_uid) {
                    stable_collisions.push(other_uid);
                }
            },
            MarchResult::Collide(c, r) => {
                collisions.push((c, r, other_uid));
                if uid_vec_contains(&contacts, other_uid) && (time_now < c || r <= time_now) {
                    releases.push(other_uid);
                }
            },
            MarchResult::March(t) => {
                march = match march {
                    None => Some(t),
                    Some(u) => {
                        if t < u {
                            Some(t)
                        } else {
                            Some(u)
                        }
                    },
                };
                if uid_vec_contains(&contacts, other_uid) {
                    releases.push(other_uid);
                }
            },
        }
        i = i + 1;
    }
    (march, releases, collisions, stable_collisions)
}

// ---------------------------------------------------------------------------
// Applying a pass's conclusions: scheduling and notification
// ---------------------------------------------------------------------------

/// The snapshot a scheduled event would carry for `uid` right now.
pub open spec fn spec_snapshot(s: Seq<(UID, CollisionBody)>, uid: UID) -> ContactData {
    ContactData { body: space_at(s, uid).body, radius: space_at(s, uid).radius, uid }
}

/// The contact notice delivered to `this_uid` about `with_uid`, when the
/// latter still shows an image; a vanished partner notifies nobody.
pub open spec fn spec_contact_notice(
    s: Seq<(UID, CollisionBody)>,
    m: Seq<(UID, crate::entities::Entity)>,
    now: units::Time,
    this_uid: UID,
    with_uid: UID,
    ty: ContactType,
) -> Seq<(units::Time, GeneralEvent)> {
    match spec_uid_image(s, m, with_uid) {
        Some(img) => seq![
            (
                now,
                GeneralEvent::Contact(
                    ContactEvent { this_uid, with: img, contact_type: ty },
                ),
            ),
        ],
        None => Seq::empty(),
    }
}

/// Records the march deadline for the entry at position `n` and, where
/// one exists, schedules the march event that will honour it.
pub fn apply_march(
    space: &mut CollisionSpace,
    time: &mut EventQueue,
    uid: UID,
    n: usize,
    march: Option<units::Time>,
)
    requires
        old(space).wf(),
        n < old(space).spec_contents().len(),
    ensures
        final(space).wf(),
        final(space).spec_contents() == old(space).spec_contents().update(
            n as int,
            (
                old(space).spec_contents()[n as int].0,
                (CollisionBody {
                    physics_state: match march {
                        Some(t) => PhysicsState::March(t),
                        None => PhysicsState::NoMarch,
                    },
                    ..old(space).spec_contents()[n as int].1
                }),
            ),
        ),
        final(space).spec_contacts() == old(space).spec_contacts(),
        final(time).spec_now() == old(time).spec_now(),
        final(time).spec_pending() == old(time).spec_pending() + (match march {
            Some(t) => seq![(t, GeneralEvent::March(MarchEvent { uid }))],
            None => Seq::empty(),
        }),
{
    match march {
        Some(march_time) => {
            let march_event: MarchEvent = MarchEvent { uid };
            enqueue_absolute(time, GeneralEvent::March(march_event), march_time);
            space.set_physics_state(n, PhysicsState::March(march_time));
        },
        None => {
            space.set_physics_state(n, PhysicsState::NoMarch);
        },
    }
}

/// The events one collide window schedules: a release for a pair already
/// in contact, a collide for one whose window has not yet closed, and
/// nothing for a window entirely in the past.
pub open spec fn spec_collision_events(
    s: Seq<(UID, CollisionBody)>,
    c: Seq<(UID, UID)>,
    now: units::Time,
    uid: UID,
    list: Seq<(units::Time, units::Time, UID)>,
) -> Seq<(units::Time, GeneralEvent)>
    decreases list.len(),
{
    if list.len() == 0 {
        Seq::empty()
    } else {
        let rest = spec_collision_events(s, c, now, uid, list.drop_last());
        let (coll_time, release_time, second_uid) = list.last();
        let first = spec_snapshot(s, uid);
        let second = spec_snapshot(s, second_uid);
        if in_contact_spec(c, uid, second_uid) {
            rest.push(
                (release_time, GeneralEvent::Release(ReleaseEvent { first, second })),
            )
        } else if now@ < release_time@ {
            rest.push(
                (
                    coll_time,
                    GeneralEvent::Collide(CollideEvent { first, second, release_time }),
                ),
            )
        } else {
            rest
        }
    }
}

/// Schedules the events that a pass's collide windows call for.
pub fn apply_collisions(
    space: &CollisionSpace,
    time: &mut EventQueue,
    uid: UID,
    collisions: &Vec<(units::Time, units::Time, UID)>,
)
    requires
        space.wf(),
        space_contains(space.spec_contents(), uid),
        forall|k: int|
            0 <= k < collisions@.len() ==> space_contains(
                space.spec_contents(),
                #[trigger] collisions@[k].2,
            ),
    ensures
        final(time).spec_now() == old(time).spec_now(),
        final(time).spec_pending() == old(time).spec_pending() + spec_collision_events(
            space.spec_contents(),
            space.spec_contacts(),
            old(time).spec_now(),
            uid,
            collisions@,
        ),
{
    let this: ContactData = ContactData::new(space, uid);
    let n: usize = collisions.len();
    let mut i: usize = 0;
    while i < n
        invariant
            0 <= i <= n,
            n == collisions@.len(),
            space.wf(),
            space_contains(space.spec_contents(), uid),
            forall|k: int|
                0 <= k < collisions@.len() ==> space_contains(
                    space.spec_contents(),
                    #[trigger] collisions@[k].2,
                ),
            this == spec_snapshot(space.spec_contents(), uid),
            time.spec_now() == old(time).spec_now(),
            time.spec_pending() == old(time).spec_pending() + spec_collision_events(
                space.spec_contents(),
                space.spec_contacts(),
                old(time).spec_now(),
                uid,
                collisions@.take(i as int),
            ),
        decreases n - i,
    {
        let (coll_time, release_time, second_uid): (units::Time, units::Time, UID) =
            collisions[i];
        let first: ContactData = this;
        let second: ContactData = ContactData::new(space, second_uid);
        proof {
            assert(collisions@.take(i + 1).drop_last() == collisions@.take(i as int));
            assert(collisions@.take(i + 1).last() == collisions@[i as int]);
        }
        if space.are_in_contact(uid, second_uid) {
            let release_event: ReleaseEvent = ReleaseEvent { first, second };
            enqueue_absolute(time, GeneralEvent::Release(release_event), release_time);
        } else if time.now() < release_time {
            let collide_event: CollideEvent = CollideEvent { first, second, release_time };
            enqueue_absolute(time, GeneralEvent::Collide(collide_event), coll_time);
        }
        i = i + 1;
    }
    proof {
        assert(collisions@.take(n as int) == collisions@);
    }
}

/// Tells `this_uid` that it touched, lost or kept `with_uid`, passing
/// the partner's current image; a partner with no image notifies nobody.
pub fn invoke_contact(
    space: &CollisionSpace,
    time: &mut EventQueue,
    matter: &EntityHeap,
    this_uid: UID,
    with_uid: UID,
    contact_type: ContactType,
)
    requires
        space.wf(),
        matter.wf(),
    ensures
        final(time).spec_now() == old(time).spec_now(),
        final(time).spec_pending() == old(time).spec_pending() + spec_contact_notice(
            space.spec_contents(),
            matter@,
            old(time).spec_now(),
            this_uid,
            with_uid,
            contact_type,
        ),
{
    match space.get_uid_image(matter, with_uid) {
        Some(with) => {
            invoke_contact_with(time, this_uid, with, contact_type);
        },
        None => (),
    }
}

/// Tells `this_uid` about a contact, with the partner's image supplied
/// by the caller: the delivery rides the queue so that it runs after the
/// index update that caused it has settled.
pub fn invoke_contact_with(
    time: &mut EventQueue,
    this_uid: UID,
    with: Image,
    contact_type: ContactType,
)
    ensures
        final(time).spec_now() == old(time).spec_now(),
        final(time).spec_pending() == old(time).spec_pending().push(
            (
                old(time).spec_now(),
                GeneralEvent::Contact((ContactEvent { this_uid, with, contact_type })),
            ),
        ),
{
    let now: units::Time = time.now();
    enqueue_absolute(
        time,
        GeneralEvent::Contact(ContactEvent { this_uid, with, contact_type }),
        now,
    );
}

/// Commits one contact change for a pair and notifies both sides: a
/// collision records the pair as touching, a release or disappearance
/// strikes it out.
pub fn perform_contact(
    space: &mut CollisionSpace,
    time: &mut EventQueue,
    matter: &EntityHeap,
    first_uid: UID,
    second_uid: UID,
    contact_type: ContactType,
)
    requires
        old(space).wf(),
        matter.wf(),
    ensures
        final(space).wf(),
        final(space).spec_contents() == old(space).spec_contents(),
        final(space).spec_contacts() == (match contact_type {
            ContactType::Collision => old(space).spec_contacts().push((first_uid, second_uid)),
            _ => without_pair(old(space).spec_contacts(), first_uid, second_uid),
        }),
        final(time).spec_now() == old(time).spec_now(),
        final(time).spec_pending() == old(time).spec_pending() + spec_contact_notice(
            old(space).spec_contents(),
            matter@,
            old(time).spec_now(),
            first_uid,
            second_uid,
            contact_type,
        ) + spec_contact_notice(
            old(space).spec_contents(),
            matter@,
            old(time).spec_now(),
            second_uid,
            first_uid,
            contact_type,
        ),
{
    match contact_type {
        ContactType::Collision => {
            space.push_contact(first_uid, second_uid);
        },
        ContactType::Release => {
            space.release_contact(first_uid, second_uid);
        },
        ContactType::Disappear => {
            space.release_contact(first_uid, second_uid);
        },
    }

    invoke_contact(space, time, matter, first_uid, second_uid, contact_type);
    invoke_contact(space, time, matter, second_uid, first_uid, contact_type);
}

/// Strikes out a pair because `first_uid` is vanishing: the vanishing
/// side hears about the survivor as it stands, the survivor receives
/// the vanished side's last known image.
pub fn perform_disappearance(
    space: &mut CollisionSpace,
    time: &mut EventQueue,
    matter: &EntityHeap,
    first_uid: UID,
    second_uid: UID,
    first_image: Image,
)
    requires
        old(space).wf(),
        matter.wf(),
    ensures
        final(space).wf(),
        final(space).spec_contents() == old(space).spec_contents(),
        final(space).spec_contacts() == without_pair(
            old(space).spec_contacts(),
            first_uid,
            second_uid,
        ),
        final(time).spec_now() == old(time).spec_now(),
        final(time).spec_pending() == old(time).spec_pending() + spec_contact_notice(
            old(space).spec_contents(),
            matter@,
            old(time).spec_now(),
            first_uid,
            second_uid,
            ContactType::Disappear,
        ) + seq![
            (
                old(time).spec_now(),
                GeneralEvent::Contact(
                    ContactEvent {
                        this_uid: second_uid,
                        with: first_image,
                        contact_type: ContactType::Disappear,
                    },
                ),
            ),
        ],
{
    space.release_contact(first_uid, second_uid);

    let contact: ContactType = ContactType::Disappear;
    invoke_contact(space, time, matter, first_uid, second_uid, contact);
    invoke_contact_with(time, second_uid, first_image, contact);
}

// ---------------------------------------------------------------------------
// Disappearances and freshly coincident pairs
// ---------------------------------------------------------------------------

/// The contact table after the pairs of `uid` with each of `others` have
/// been struck out, in order.
pub open spec fn spec_disappear_contacts(c: Seq<(UID, UID)>, uid: UID, others: Seq<UID>) -> Seq<
    (UID, UID),
>
    decreases others.len(),
{
    if others.len() == 0 {
        c
    } else {
        without_pair(spec_disappear_contacts(c, uid, others.drop_last()), uid, others.last())
    }
}

/// The notices a run of disappearances produces: for each partner, first
/// the vanishing side hears of the partner as it stands, then the partner
/// receives the vanished side's last image.
pub open spec fn spec_disappear_notices(
    s: Seq<(UID, CollisionBody)>,
    m: Seq<(UID, crate::entities::Entity)>,
    now: units::Time,
    uid: UID,
    others: Seq<UID>,
    before: Image,
) -> Seq<(units::Time, GeneralEvent)>
    decreases others.len(),
{
    if others.len() == 0 {
        Seq::empty()
    } else {
        spec_disappear_notices(s, m, now, uid, others.drop_last(), before) + spec_contact_notice(
            s,
            m,
            now,
            uid,
            others.last(),
            ContactType::Disappear,
        ) + seq![
            (
                now,
                GeneralEvent::Contact(
                    ContactEvent {
                        this_uid: others.last(),
                        with: before,
                        contact_type: ContactType::Disappear,
                    },
                ),
            ),
        ]
    }
}

/// Strikes out and announces the parting of `uid` from each of
/// `releases`, handing the survivors its last known image.
pub fn apply_disappearances(
    space: &mut CollisionSpace,
    time: &mut EventQueue,
    matter: &EntityHeap,
    uid: UID,
    releases: &Vec<UID>,
    before: &Image,
)
    requires
        old(space).wf(),
        matter.wf(),
    ensures
        final(space).wf(),
        final(space).spec_contents() == old(space).spec_contents(),
        final(space).spec_contacts() == spec_disappear_contacts(
            old(space).spec_contacts(),
            uid,
            releases@,
        ),
        final(time).spec_now() == old(time).spec_now(),
        final(time).spec_pending() == old(time).spec_pending() + spec_disappear_notices(
            old(space).spec_contents(),
            matter@,
            old(time).spec_now(),
            uid,
            releases@,
            *before,
        ),
{
    let n: usize = releases.len();
    let mut i: usize = 0;
    while i < n
        invariant
            0 <= i <= n,
            n == releases@.len(),
            space.wf(),
            matter.wf(),
            space.spec_contents() == old(space).spec_contents(),
            space.spec_contacts() == spec_disappear_contacts(
                old(space).spec_contacts(),
                uid,
                releases@.take(i as int),
            ),
            time.spec_now() == old(time).spec_now(),
            time.spec_pending() == old(time).spec_pending() + spec_disappear_notices(
                old(space).spec_contents(),
                matter@,
                old(time).spec_now(),
                uid,
                releases@.take(i as int),
                *before,
            ),
        decreases n - i,
    {
        let other: UID = releases[i];
        proof {
            assert(releases@.take(i + 1).drop_last() == releases@.take(i as int));
            assert(releases@.take(i + 1).last() == releases@[i as int]);
        }
        perform_disappearance(space, time, matter, uid, other, *before);
        i = i + 1;
    }
    proof {
        assert(releases@.take(n as int) == releases@);
    }
}

/// The pairs a run of fresh stable contacts adds to the table.
pub open spec fn spec_stable_pairs(uid: UID, others: Seq<UID>) -> Seq<(UID, UID)> {
    Seq::new(others.len(), |i: int| (uid, others[i]))
}

/// The notices a run of fresh stable contacts produces: each side hears
/// of the other as it stands.
pub open spec fn spec_stable_notices(
    s: Seq<(UID, CollisionBody)>,
    m: Seq<(UID, crate::entities::Entity)>,
    now: units::Time,
    uid: UID,
    others: Seq<UID>,
) -> Seq<(units::Time, GeneralEvent)>
    decreases others.len(),
{
    if others.len() == 0 {
        Seq::empty()
    } else {
        spec_stable_notices(s, m, now, uid, others.drop_last()) + spec_contact_notice(
            s,
            m,
            now,
            uid,
            others.last(),
            ContactType::Collision,
        ) + spec_contact_notice(s, m, now, others.last(), uid, ContactType::Collision)
    }
}

/// Establishes contact with each statically coincident partner a
/// relocation uncovered, announcing the collision to both sides.
pub fn apply_new_stable_contacts(
    space: &mut CollisionSpace,
    time: &mut EventQueue,
    matter: &EntityHeap,
    uid: UID,
    stable: &Vec<UID>,
)
    requires
        old(space).wf(),
        matter.wf(),
    ensures
        final(space).wf(),
        final(space).spec_contents() == old(space).spec_contents(),
        final(space).spec_contacts() == old(space).spec_contacts() + spec_stable_pairs(
            uid,
            stable@,
        ),
        final(time).spec_now() == old(time).spec_now(),
        final(time).spec_pending() == old(time).spec_pending() + spec_stable_notices(
            old(space).spec_contents(),
            matter@,
            old(time).spec_now(),
            uid,
            stable@,
        ),
{
    let n: usize = stable.len();
    let mut i: usize = 0;
    while i < n
        invariant
            0 <= i <= n,
            n == stable@.len(),
            space.wf(),
            matter.wf(),
            space.spec_contents() == old(space).spec_contents(),
            space.spec_contacts() == old(space).spec_contacts() + spec_stable_pairs(
                uid,
                stable@.take(i as int),
            ),
            time.spec_now() == old(time).spec_now(),
            time.spec_pending() == old(time).spec_pending() + spec_stable_notices(
                old(space).spec_contents(),
                matter@,
                old(time).spec_now(),
                uid,
                stable@.take(i as int),
            ),
        decreases n - i,
    {
        let other: UID = stable[i];
        proof {
            assert(stable@.take(i + 1).drop_last() == stable@.take(i as int));
            assert(stable@.take(i + 1).last() == stable@[i as int]);
        }
        perform_contact(space, time, matter, uid, other, ContactType::Collision);
        proof {
            assert(spec_stable_pairs(uid, stable@.take(i + 1)) =~= spec_stable_pairs(
                uid,
                stable@.take(i as int),
            ).push((uid, other)));
        }
        i = i + 1;
    }
    proof {
        assert(stable@.take(n as int) == stable@);
    }
}

// ---------------------------------------------------------------------------
// The marching passes and the index update that drives everything
// ---------------------------------------------------------------------------

/// The scheduling state a pass leaves behind.
pub open spec fn march_state(m: Option<units::Time>) -> PhysicsState {
    match m {
        Some(t) => PhysicsState::March(t),
        None => PhysicsState::NoMarch,
    }
}

/// The march event a pass schedules, if its deadline exists.
pub open spec fn march_event_seq(m: Option<units::Time>, uid: UID) -> Seq<
    (units::Time, GeneralEvent),
> {
    match m {
        Some(t) => seq![(t, GeneralEvent::March(MarchEvent { uid }))],
        None => Seq::empty(),
    }
}

/// Every partner named by a collide list is one of the examined entries.
proof fn lemma_collide_list_members(
    others: Seq<(UID, CollisionBody)>,
    subject: CollisionBody,
    now: units::Time,
)
    ensures
        forall|k: int|
            0 <= k < spec_collide_list(others, subject, now).len() ==> exists|i: int|
                0 <= i < others.len() && others[i].0 == #[trigger] spec_collide_list(
                    others,
                    subject,
                    now,
                )[k].2,
    decreases others.len(),
{
    if others.len() > 0 {
        lemma_collide_list_members(others.drop_last(), subject, now);
        assert forall|k: int|
            0 <= k < spec_collide_list(others, subject, now).len() implies exists|i: int|
            0 <= i < others.len() && others[i].0 == #[trigger] spec_collide_list(
                others,
                subject,
                now,
            )[k].2 by {
            let list = spec_collide_list(others, subject, now);
            let rest = spec_collide_list(others.drop_last(), subject, now);
            if k < rest.len() {
                let i = choose|i: int|
                    0 <= i < others.drop_last().len() && others.drop_last()[i].0 == rest[k].2;
                assert(others[i].0 == list[k].2);
            } else {
                assert(others[others.len() - 1].0 == list[k].2);
            }
        };
    }
}

/// Every partner a relocated pass names for release was in the contact
/// list handed to it.
#[verifier::rlimit(30)]
proof fn lemma_relocated_releases(
    others: Seq<(UID, CollisionBody)>,
    subject: CollisionBody,
    now: units::Time,
    contacts: Seq<UID>,
)
    ensures
        forall|k: int|
            0 <= k < spec_march_relocated_data(others, subject, now, contacts).1.len()
                ==> contacts.contains(
                #[trigger] spec_march_relocated_data(others, subject, now, contacts).1[k],
            ),
    decreases others.len(),
{
    if others.len() > 0 {
        lemma_relocated_releases(others.drop_last(), subject, now, contacts);
        let whole = spec_march_relocated_data(others, subject, now, contacts);
        let rest = spec_march_relocated_data(others.drop_last(), subject, now, contacts);
        assert forall|k: int| 0 <= k < whole.1.len() implies contacts.contains(
            #[trigger] whole.1[k],
        ) by {
            if k < rest.1.len() {
                assert(contacts.contains(rest.1[k]));
            } else {
                assert(whole.1[k] == others.last().0 && contacts.contains(others.last().0));
            }
        };
    }
}

/// Every partner named by a relocated pass's collide windows or fresh
/// stable contacts is one of the examined entries.
#[verifier::rlimit(30)]
proof fn lemma_relocated_members(
    others: Seq<(UID, CollisionBody)>,
    subject: CollisionBody,
    now: units::Time,
    contacts: Seq<UID>,
)
    ensures
        forall|k: int|
            0 <= k < spec_march_relocated_data(others, subject, now, contacts).2.len()
                ==> exists|i: int|
                0 <= i < others.len() && others[i].0 == #[trigger] spec_march_relocated_data(
                    others,
                    subject,
                    now,
                    contacts,
                ).2[k].2,
        forall|k: int|
            0 <= k < spec_march_relocated_data(others, subject, now, contacts).3.len()
                ==> exists|i: int|
                0 <= i < others.len() && others[i].0 == #[trigger] spec_march_relocated_data(
                    others,
                    subject,
                    now,
                    contacts,
                ).3[k],
    decreases others.len(),
{
    if others.len() > 0 {
        lemma_relocated_members(others.drop_last(), subject, now, contacts);
        let whole = spec_march_relocated_data(others, subject, now, contacts);
        let rest = spec_march_relocated_data(others.drop_last(), subject, now, contacts);
        assert forall|k: int| 0 <= k < whole.2.len() implies exists|i: int|
            0 <= i < others.len() && others[i].0 == #[trigger] whole.2[k].2 by {
            if k < rest.2.len() {
                let i = choose|i: int|
                    0 <= i < others.drop_last().len() && others.drop_last()[i].0 == rest.2[k].2;
                assert(others[i].0 == whole.2[k].2);
            } else {
                assert(others[others.len() - 1].0 == whole.2[k].2);
            }
        };
        assert forall|k: int| 0 <= k < whole.3.len() implies exists|i: int|
            0 <= i < others.len() && others[i].0 == #[trigger] whole.3[k] by {
            if k < rest.3.len() {
                let i = choose|i: int|
                    0 <= i < others.drop_last().len() && others.drop_last()[i].0 == rest.3[k];
                assert(others[i].0 == whole.3[k]);
            } else {
                assert(others[others.len() - 1].0 == whole.3[k]);
            }
        };
    }
}

/// One full marching pass for `uid`, from scratch: re-derives the march
/// deadline and collide windows against every higher-priority entry and
/// schedules accordingly.  An untracked identity is a benign no-op.
pub fn march(space: &mut CollisionSpace, time: &mut EventQueue, uid: UID)
    requires
        old(space).wf(),
    ensures
        final(space).wf(),
        !space_contains(old(space).spec_contents(), uid) ==> {
            &&& final(space).spec_contents() == old(space).spec_contents()
            &&& final(space).spec_contacts() == old(space).spec_contacts()
            &&& final(time).spec_now() == old(time).spec_now()
            &&& final(time).spec_pending() == old(time).spec_pending()
        },
        space_contains(old(space).spec_contents(), uid) ==> {
            let s = old(space).spec_contents();
            let n = crate::space::space_index_of(s, uid);
            let m = spec_march_min(s.take(n), s[n].1, old(time).spec_now());
            let cols = spec_collide_list(s.take(n), s[n].1, old(time).spec_now());
            let s2 = s.update(n, (s[n].0, (CollisionBody { physics_state: march_state(m), ..s[n].1 })));
            &&& final(space).spec_contents() == s2
            &&& final(space).spec_contacts() == old(space).spec_contacts()
            &&& final(time).spec_now() == old(time).spec_now()
            &&& final(time).spec_pending() == old(time).spec_pending() + march_event_seq(m, uid)
                + spec_collision_events(
                s2,
                old(space).spec_contacts(),
                old(time).spec_now(),
                uid,
                cols,
            )
        },
{
    let n: usize = match space.find_uid(uid) {
        Some(n) => n,
        None => {
            return ;
        },
    };

    let now: units::Time = time.now();
    let (march, collisions): (Option<units::Time>, Vec<(units::Time, units::Time, UID)>) =
        get_march_data(space, now, n);
    proof {
        lemma_collide_list_members(
            space.spec_contents().take(n as int),
            space.spec_contents()[n as int].1,
            now,
        );
    }
    apply_march(space, time, uid, n, march);
    proof {
        let s = old(space).spec_contents();
        let s2 = space.spec_contents();
        assert(s2[n as int].0 == uid);
        assert(space_contains(s2, uid));
        assert forall|k: int| 0 <= k < collisions@.len() implies space_contains(
            s2,
            #[trigger] collisions@[k].2,
        ) by {
            let i = choose|i: int|
                0 <= i < s.take(n as int).len() && s.take(n as int)[i].0 == collisions@[k].2;
            assert(s2[i].0 == collisions@[k].2);
        };
    }
    apply_collisions(space, time, uid, &collisions);
}

/// An optional image by value, as the specification functions take it.
pub open spec fn opt_copy(o: Option<&Image>) -> Option<Image> {
    match o {
        Some(i) => Some(*i),
        None => None,
    }
}

/// The image inside, or an arbitrary one where none was given; used only
/// where the surrounding specification also shows nothing depends on it.
pub open spec fn unwrap_or_arbitrary(o: Option<Image>) -> Image {
    match o {
        Some(i) => i,
        None => vstd::pervasive::arbitrary(),
    }
}

/// A relocated pass, whole: the index entry's new schedule, the march
/// event, the disappear-style releases, the collide and release events,
/// and the freshly coincident contacts, in the order the pass commits
/// them.
pub open spec fn spec_march_relocated(
    s: Seq<(UID, CollisionBody)>,
    c: Seq<(UID, UID)>,
    p: Seq<(units::Time, GeneralEvent)>,
    m: Seq<(UID, crate::entities::Entity)>,
    now: units::Time,
    uid: UID,
    contact: Seq<UID>,
    before: Option<Image>,
) -> (Seq<(UID, CollisionBody)>, Seq<(UID, UID)>, Seq<(units::Time, GeneralEvent)>) {
    if !space_contains(s, uid) {
        (s, c, p)
    } else {
        let n = crate::space::space_index_of(s, uid);
        let data = spec_march_relocated_data(s.take(n), s[n].1, now, contact);
        let s2 = s.update(n, (s[n].0, (CollisionBody { physics_state: march_state(data.0), ..s[n].1 })));
        let p2 = p + march_event_seq(data.0, uid);
        let c3 = spec_disappear_contacts(c, uid, data.1);
        let p3 = p2 + spec_disappear_notices(s2, m, now, uid, data.1, unwrap_or_arbitrary(before));
        let p4 = p3 + spec_collision_events(s2, c3, now, uid, data.2);
        let c5 = c3 + spec_stable_pairs(uid, data.3);
        let p5 = p4 + spec_stable_notices(s2, m, now, uid, data.3);
        (s2, c5, p5)
    }
}

/// The marching pass used when an entity's position or radius has
/// changed: current contacts and stationary pairs are reconsidered,
/// pairs no longer coincident part by the disappearance path, and newly
/// coincident ones meet at once.  An untracked identity is a benign
/// no-op.
#[verifier::rlimit(60)]
pub fn march_relocated(
    space: &mut CollisionSpace,
    time: &mut EventQueue,
    matter: &EntityHeap,
    uid: UID,
    contact: Vec<UID>,
    maybe_before: Option<&Image>,
)
    requires
        old(space).wf(),
        matter.wf(),
        ({
            let s = old(space).spec_contents();
            let n = crate::space::space_index_of(s, uid);
            space_contains(s, uid) && spec_march_relocated_data(
                s.take(n),
                s[n].1,
                old(time).spec_now(),
                contact@,
            ).1.len() > 0
        }) ==> maybe_before is Some,
    ensures
        final(space).wf(),
        final(time).spec_now() == old(time).spec_now(),
        (final(space).spec_contents(), final(space).spec_contacts(), final(time).spec_pending())
            == spec_march_relocated(
            old(space).spec_contents(),
            old(space).spec_contacts(),
            old(time).spec_pending(),
            matter@,
            old(time).spec_now(),
            uid,
            contact@,
            opt_copy(maybe_before),
        ),
{
    let n: usize = match space.find_uid(uid) {
        Some(n) => n,
        None => {
            return ;
        },
    };

    let now: units::Time = time.now();
    let (march, releases, collisions, new_stable): (
        Option<units::Time>,
        Vec<UID>,
        Vec<(units::Time, units::Time, UID)>,
        Vec<UID>,
    ) = get_march_relocated_data(space, now, n, contact);
    apply_march(space, time, uid, n, march);
    if releases.len() > 0 {
        let before: &Image = maybe_before.unwrap();
        apply_disappearances(space, time, matter, uid, &releases, before);
    }
    proof {
        let s = old(space).spec_contents();
        let s2 = space.spec_contents();
        let data = spec_march_relocated_data(
            s.take(n as int),
            s[n as int].1,
            old(time).spec_now(),
            contact@,
        );
        lemma_relocated_members(
            s.take(n as int),
            s[n as int].1,
            old(time).spec_now(),
            contact@,
        );
        assert(collisions@ == data.2);
        assert(s2[n as int].0 == uid);
        assert(space_contains(s2, uid));
        assert forall|k: int| 0 <= k < collisions@.len() implies space_contains(
            s2,
            #[trigger] collisions@[k].2,
        ) by {
            assert(exists|i: int|
                0 <= i < s.take(n as int).len() && s.take(n as int)[i].0 == data.2[k].2);
            let i = choose|i: int|
                0 <= i < s.take(n as int).len() && s.take(n as int)[i].0 == data.2[k].2;
            assert(s2[i].0 == collisions@[k].2);
        };
    }
    apply_collisions(space, time, uid, &collisions);
    apply_new_stable_contacts(space, time, matter, uid, &new_stable);
}

/// Whether a cached entry and an image agree outright: same trajectory
/// by raw value and the same radius.  Such an update changes nothing.
pub open spec fn entry_matches_image(cb: CollisionBody, img: Image) -> bool {
    body_equiv(cb.body, img.body) && cb.radius@ == img.inner_image.spec_radius()
}

/// Whether a cached entry and an image differ only as a bounce at `now`
/// would explain: same place and radius, the velocity free to change.
pub open spec fn entry_bounce_matches(cb: CollisionBody, img: Image, now: units::Time) -> bool {
    &&& body_x_at(cb.body, now) == body_x_at(img.body, now)
    &&& body_y_at(cb.body, now) == body_y_at(img.body, now)
    &&& cb.radius@ == img.inner_image.spec_radius()
}

/// The whole index update, as one function of the old state: the new
/// index, the new contact table and the new schedule.
pub open spec fn spec_update_physics(
    s: Seq<(UID, CollisionBody)>,
    c: Seq<(UID, UID)>,
    p: Seq<(units::Time, GeneralEvent)>,
    m: Seq<(UID, crate::entities::Entity)>,
    now: units::Time,
    uid: UID,
    img: Option<Image>,
    before: Option<Image>,
) -> (Seq<(UID, CollisionBody)>, Seq<(UID, UID)>, Seq<(units::Time, GeneralEvent)>) {
    let found = space_contains(s, uid);
    let n = crate::space::space_index_of(s, uid);
    if found && img is Some && entry_matches_image(s[n].1, img.unwrap()) {
        (s, c, p)
    } else {
        let bounce = found && img is Some && entry_bounce_matches(s[n].1, img.unwrap(), now);
        let partners = partners_of(c, uid);
        let c1 = if found && img is None {
            spec_disappear_contacts(c, uid, partners)
        } else {
            c
        };
        let p1 = if found && img is None {
            p + spec_disappear_notices(s, m, now, uid, partners, unwrap_or_arbitrary(before))
        } else {
            p
        };
        let s1 = if found {
            s.remove(n)
        } else {
            s
        };
        match img {
            None => (s1, c1, p1),
            Some(image) => {
                let cb = CollisionBody {
                    body: image.body,
                    speed: (crate::math::Scalar {
                        bits: crate::math::vec_magnitude(
                            image.body.spec_velocity().x@,
                            image.body.spec_velocity().y@,
                        ) as i64,
                    }),
                    radius: (crate::math::Scalar {
                        bits: image.inner_image.spec_radius() as i64,
                    }),
                    physics_state: if bounce {
                        PhysicsState::Bounce(now)
                    } else {
                        PhysicsState::NoMarch
                    },
                };
                let s2 = s1.push((uid, cb));
                if bounce {
                    (
                        s2,
                        c1,
                        p1.push(
                            (
                                (units::Time { bits: fix_add(now@, 1) as i64 }),
                                GeneralEvent::March(MarchEvent { uid }),
                            ),
                        ),
                    )
                } else {
                    spec_march_relocated(s2, c1, p1, m, now, uid, partners, before)
                }
            },
        }
    }
}

/// Keeps the collision index and contact table in step with one
/// entity's externally visible state.
///
/// An unchanged image is a no-op.  A pure velocity change at a held
/// position and radius is a bounce: the entry re-anchors, keeps its
/// contacts, and a single re-check one instant ahead replaces any full
/// pass.  A vanished image releases every contact by the disappearance
/// path and drops the entry.  Anything else is a relocation: the entry
/// moves to the back of the priority order and a full relocated pass
/// re-derives its schedule against every other entry.
#[verifier::rlimit(60)]
pub fn update_physics(
    space: &mut CollisionSpace,
    time: &mut EventQueue,
    matter: &EntityHeap,
    uid: UID,
    maybe_image: Option<&Image>,
    maybe_before: Option<&Image>,
)
    requires
        old(space).wf(),
        matter.wf(),
        (maybe_image is None && space_contains(old(space).spec_contents(), uid))
            ==> maybe_before is Some,
        (maybe_image is Some && partners_of(old(space).spec_contacts(), uid).len() > 0)
            ==> maybe_before is Some,
    ensures
        final(space).wf(),
        final(time).spec_now() == old(time).spec_now(),
        (final(space).spec_contents(), final(space).spec_contacts(), final(time).spec_pending())
            == spec_update_physics(
            old(space).spec_contents(),
            old(space).spec_contacts(),
            old(time).spec_pending(),
            matter@,
            old(time).spec_now(),
            uid,
            opt_copy(maybe_image),
            opt_copy(maybe_before),
        ),
{
    let maybe_n: Option<usize> = space.find_uid(uid);
    let mut bounce: bool = false;

    // nothing to do when the image is the same
    if let (Some(n), Some(image)) = (maybe_n, maybe_image) {
        let c_body: &CollisionBody = space.entry_at(n);

        if c_body.body == image.body && c_body.radius == image.inner_image.radius() {
            return ;
        }

        let time_now: units::Time = time.now();
        if c_body.body.position(time_now) == image.body.position(time_now) && c_body.radius
            == image.inner_image.radius() {
            bounce = true;
        }
    }

    // drop the old entry, resetting the entity's priority; a vanishing
    // entity first releases everything it touched
    if let Some(n) = maybe_n {
        if maybe_image.is_none() {
            let before: &Image = maybe_before.unwrap();
            let partners: Vec<UID> = space.get_contacts(uid);
            apply_disappearances(space, time, matter, uid, &partners, before);
        }

        space.remove_entry(n);
        proof {
            let s = old(space).spec_contents();
            let s1 = space.spec_contents();
            assert forall|i: int| 0 <= i < s1.len() implies s1[i].0 != uid by {
                if i < n as int {
                    assert(s1[i] == s[i]);
                } else {
                    assert(s1[i] == s[i + 1]);
                }
            };
        }
    }

    // append the new entry with the lowest priority: it answers for any
    // collisions with everything already present
    if let Some(image) = maybe_image {
        let body: Body = image.body;
        let speed: units::Speed = body.velocity().magnitude();
        let radius: units::Distance = image.inner_image.radius();
        let physics_state: PhysicsState = if bounce {
            PhysicsState::Bounce(time.now())
        } else {
            PhysicsState::NoMarch
        };

        let c_body: CollisionBody = CollisionBody { body, speed, radius, physics_state };
        space.push_entry(uid, c_body);

        if bounce {
            let bounce_event: MarchEvent = MarchEvent { uid };
            enqueue_relative(time, GeneralEvent::March(bounce_event), units::instants(1));
        } else {
            let contact: Vec<UID> = space.get_contacts(uid);
            proof {
                let s2 = space.spec_contents();
                assert(s2[s2.len() - 1].0 == uid);
                assert(space_contains(s2, uid));
                let n2 = crate::space::space_index_of(s2, uid);
                assert(0 <= n2 < s2.len() && s2[n2].0 == uid);
                lemma_relocated_releases(s2.take(n2), s2[n2].1, time.spec_now(), contact@);
                let data = spec_march_relocated_data(
                    s2.take(n2),
                    s2[n2].1,
                    time.spec_now(),
                    contact@,
                );
                if data.1.len() > 0 {
                    assert(contact@.contains(data.1[0]));
                    assert(contact@.len() > 0);
                }
            }
            march_relocated(space, time, matter, uid, contact, maybe_before);
        }
    }
}

// ---------------------------------------------------------------------------
// Laws
// ---------------------------------------------------------------------------

/// After any index update that hands in an image, the entry filed for
/// that identity agrees with the image: same trajectory by raw value,
/// same radius.
pub proof fn lemma_update_physics_settles(
    s: Seq<(UID, CollisionBody)>,
    c: Seq<(UID, UID)>,
    p: Seq<(units::Time, GeneralEvent)>,
    m: Seq<(UID, crate::entities::Entity)>,
    now: units::Time,
    uid: UID,
    img: Image,
    before: Option<Image>,
)
    requires
        crate::space::space_wf(s),
    ensures
        ({
            let (s1, c1, p1) = spec_update_physics(s, c, p, m, now, uid, Some(img), before);
            &&& space_contains(s1, uid)
            &&& entry_matches_image(s1[crate::space::space_index_of(s1, uid)].1, img)
        }),
{
    let found = space_contains(s, uid);
    let n = crate::space::space_index_of(s, uid);
    let (s1, c1, p1) = spec_update_physics(s, c, p, m, now, uid, Some(img), before);
    if found && entry_matches_image(s[n].1, img) {
        assert(s1 == s);
        assert(s1[n].0 == uid);
    } else {
        let base = if found {
            s.remove(n)
        } else {
            s
        };
        assert(!space_contains(base, uid)) by {
            if found {
                if space_contains(base, uid) {
                    let i = choose|i: int| 0 <= i < base.len() && base[i].0 == uid;
                    if i < n {
                        assert(s[i].0 == uid && s[n].0 == uid);
                    } else {
                        assert(s[i + 1].0 == uid && s[n].0 == uid);
                    }
                }
            }
        };
        let cb = (CollisionBody {
            body: img.body,
            speed: (crate::math::Scalar {
                bits: crate::math::vec_magnitude(
                    img.body.spec_velocity().x@,
                    img.body.spec_velocity().y@,
                ) as i64,
            }),
            radius: (crate::math::Scalar { bits: img.inner_image.spec_radius() as i64 }),
            physics_state: if found && entry_bounce_matches(s[n].1, img, now) {
                PhysicsState::Bounce(now)
            } else {
                PhysicsState::NoMarch
            },
        });
        let s2 = base.push((uid, cb));
        assert(s2[s2.len() - 1].0 == uid);
        assert(forall|i: int| 0 <= i < s2.len() && #[trigger] s2[i].0 == uid ==> i == s2.len() - 1)
            by {
            assert forall|i: int|
                0 <= i < s2.len() && #[trigger] s2[i].0 == uid implies i == s2.len() - 1 by {
                if i < s2.len() - 1 {
                    assert(base[i].0 == uid);
                }
            };
        };
        if found && entry_bounce_matches(s[n].1, img, now) {
            assert(s1 == s2);
            assert(s1[crate::space::space_index_of(s1, uid)].1 == cb);
        } else {
            let n2 = crate::space::space_index_of(s2, uid);
            assert(s2[n2].0 == uid);
            assert(n2 == s2.len() - 1);
            let data = spec_march_relocated_data(
                s2.take(n2),
                s2[n2].1,
                now,
                partners_of(c, uid),
            );
            let s3 = s2.update(
                n2,
                (s2[n2].0, (CollisionBody { physics_state: march_state(data.0), ..s2[n2].1 })),
            );
            assert(s1 == s3);
            assert(s3[n2].0 == uid);
            let n3 = crate::space::space_index_of(s3, uid);
            assert(s3[n3].0 == uid);
            assert forall|i: int|
                0 <= i < s3.len() && #[trigger] s3[i].0 == uid implies i == s3.len() - 1 by {
                if i < s3.len() - 1 {
                    assert(s2[i].0 == uid);
                }
            };
            assert(n3 == n2);
            assert(s3[n3].1.body == img.body);
            assert(crate::space::body_equiv(img.body, img.body));
        }
    }
}

/// Updating twice with one unchanged image pair schedules nothing the
/// second time: after the first call the entry already agrees with the
/// image, so the second call is the no-op case.
pub proof fn lemma_update_physics_idempotent(
    s1: Seq<(UID, CollisionBody)>,
    c1: Seq<(UID, UID)>,
    p1: Seq<(units::Time, GeneralEvent)>,
    m: Seq<(UID, crate::entities::Entity)>,
    now: units::Time,
    uid: UID,
    img: Image,
    before: Option<Image>,
)
    requires
        space_contains(s1, uid),
        entry_matches_image(s1[crate::space::space_index_of(s1, uid)].1, img),
    ensures
        spec_update_physics(s1, c1, p1, m, now, uid, Some(img), before) == (s1, c1, p1),
{
}

} // verus!
