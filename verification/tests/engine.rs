//! The collision engine end to end: appearance, marching, contact,
//! release, bounce and disappearance, driven through the event queue.

use lil_city::entities::EntityKind;
use lil_city::entities::Player;
use lil_city::entities::player::Control;
use lil_city::entities::player::UpdateData;
use lil_city::math::Coord;
use lil_city::math::Position;
use lil_city::math::Scalar;
use lil_city::math::Vector;
use lil_city::space::Body;
use lil_city::space::CollideEvent;
use lil_city::space::CollideResult;
use lil_city::space::CollisionBody;
use lil_city::space::ContactData;
use lil_city::space::Image;
use lil_city::space::MarchEvent;
use lil_city::space::PhysicsState;
use lil_city::space::collision_linear;
use lil_city::space::update_physics;
use lil_city::sulphate::EventQueue;
use lil_city::sulphate::UID;
use lil_city::sulphate::World;

fn pos(x: i32, y: i32) -> Position {
    Position::new(Coord::from(x), Coord::from(y))
}

fn vel(x: i32, y: i32) -> Vector {
    Vector::new(Scalar::from(x), Scalar::from(y))
}

fn uid_of(id: u64) -> UID {
    UID { id, kind: EntityKind::Player }
}

fn spawn(world: &mut World, time: &mut EventQueue, x: i32, y: i32) -> u64 {
    let entry = Player::new(&mut world.space, time, &mut world.matter, pos(x, y));
    let id = entry.uid.id;
    entry.release(&mut world.space, time, &mut world.matter);
    id
}

fn velocity_bits_of(world: &World, id: u64) -> (i64, i64) {
    let cb = world.space.get_uid(uid_of(id)).expect("entity should be tracked");
    let v = cb.body.velocity();
    (v.x.into_bits(), v.y.into_bits())
}

fn position_bits_of(world: &World, id: u64, now: Coord) -> (i64, i64) {
    let cb = world.space.get_uid(uid_of(id)).expect("entity should be tracked");
    let p = cb.body.position(now);
    (p.x.into_bits(), p.y.into_bits())
}

/// Two circles of radius 10 start at (0,0) and (100,0) and head at each
/// other at 50 units per unit of time: contact at separation 20 means a
/// predicted entry near t = 0.8.  Each receives the collision exactly
/// once, stops dead, and the pair separates again.
#[test]
fn head_on_collision() {
    let mut world = World::new();
    let mut time = EventQueue::new(Coord::from(0));

    let a = spawn(&mut world, &mut time, 0, 0);
    let b = spawn(&mut world, &mut time, 100, 0);

    Control::apply(
        &mut world.space,
        &mut time,
        &mut world.matter,
        a,
        Control::Move { velocity: vel(50, 0) },
    );
    Control::apply(
        &mut world.space,
        &mut time,
        &mut world.matter,
        b,
        Control::Move { velocity: vel(-50, 0) },
    );

    // nothing touches before the predicted entry
    world.simulate(&mut time, Coord::from_bits(3 * 65536 / 4), 1000);
    assert!(!world.space.are_in_contact(uid_of(a), uid_of(b)));
    assert_eq!(velocity_bits_of(&world, a), (50 * 65536, 0));
    assert_eq!(velocity_bits_of(&world, b), (-50 * 65536, 0));

    // past the entry, each has been told exactly once and stopped dead
    world.simulate(&mut time, Coord::from(2), 1000);
    assert_eq!(velocity_bits_of(&world, a), (0, 0));
    assert_eq!(velocity_bits_of(&world, b), (0, 0));
    let (ax, _) = position_bits_of(&world, a, Coord::from(2));
    let (bx, _) = position_bits_of(&world, b, Coord::from(2));
    assert!(35 * 65536 <= ax && ax <= 43 * 65536, "a stopped at bits {ax}");
    assert!(57 * 65536 <= bx && bx <= 65 * 65536, "b stopped at bits {bx}");
    assert!(!world.space.are_in_contact(uid_of(a), uid_of(b)));

    // the collision instant shows up as exactly two image changes, one
    // per body stopping, delivered to each observer at the same moment
    let updates = world
        .matter
        .get_player_mut(b)
        .expect("b should exist")
        .take_updates();
    let mut vision_whens: Vec<i64> = Vec::new();
    for u in updates.iter() {
        if let UpdateData::Vision { before: _, after: _ } = u.what {
            vision_whens.push(u.when.into_bits());
        }
    }
    let t_collision = *vision_whens.iter().max().expect("b should have seen changes");
    assert!(
        3 * 65536 / 4 < t_collision && t_collision < 9 * 65536 / 10,
        "collision seen at bits {t_collision}"
    );
    let at_collision = vision_whens.iter().filter(|w| **w == t_collision).count();
    assert_eq!(at_collision, 2);
}

/// An entity that vanishes while in contact releases the pair by the
/// disappearance path: the survivor sees exactly one image change to
/// nothing, and the contact table forgets the pair.
#[test]
fn disappearance_releases_contact() {
    let mut world = World::new();
    let mut time = EventQueue::new(Coord::from(0));

    let a = spawn(&mut world, &mut time, 0, 0);
    let b = spawn(&mut world, &mut time, 15, 0);
    world.simulate(&mut time, Coord::from(0), 100);
    assert!(world.space.are_in_contact(uid_of(a), uid_of(b)));

    // drain what b has seen so far
    world.matter.get_player_mut(b).unwrap().take_updates();

    // a vanishes
    let mut gone = world.space.entry(&world.matter, a, EntityKind::Player);
    gone.body = None;
    gone.release(&mut world.space, &mut time, &mut world.matter);
    world.simulate(&mut time, Coord::from(0), 100);

    assert!(!world.space.are_in_contact(uid_of(a), uid_of(b)));
    assert!(world.space.get_uid(uid_of(a)).is_none());

    let updates = world.matter.get_player_mut(b).unwrap().take_updates();
    let mut vanishings = 0;
    for u in updates.iter() {
        if let UpdateData::Vision { before: Some(_), after: None } = &u.what {
            vanishings += 1;
        }
    }
    assert_eq!(vanishings, 1);
}

/// A pure velocity change at a held position is a bounce: contacts
/// survive it, no full pass runs at once, and only the one-instant
/// re-check is scheduled.
#[test]
fn bounce_preserves_contacts() {
    let mut world = World::new();
    let mut time = EventQueue::new(Coord::from(0));

    let a = spawn(&mut world, &mut time, 0, 0);
    let b = spawn(&mut world, &mut time, 15, 0);
    world.simulate(&mut time, Coord::from(0), 100);
    assert!(world.space.are_in_contact(uid_of(a), uid_of(b)));

    let pending_before = time.len();
    Control::apply(
        &mut world.space,
        &mut time,
        &mut world.matter,
        a,
        Control::Move { velocity: vel(3, 0) },
    );

    // the bounce re-anchored the entry and scheduled one re-check,
    // nothing more; the contact survived untouched
    assert!(world.space.are_in_contact(uid_of(a), uid_of(b)));
    assert_eq!(time.len(), pending_before + 1);
    let cb = world.space.get_uid(uid_of(a)).unwrap();
    assert!(matches!(cb.physics_state, PhysicsState::Bounce(_)));
    assert_eq!(velocity_bits_of(&world, a), (3 * 65536, 0));

    // the deferred re-check runs one instant later and the pair is
    // still in contact
    world.simulate(&mut time, Coord::from_bits(1), 100);
    assert!(world.space.are_in_contact(uid_of(a), uid_of(b)));
}

/// A march event whose entry no longer names its exact firing time does
/// nothing: no scheduling, no notification.
#[test]
fn stale_march_event_is_ignored() {
    let mut world = World::new();
    let mut time = EventQueue::new(Coord::from(0));

    let a = spawn(&mut world, &mut time, 0, 0);
    let cb = world.space.get_uid(uid_of(a)).unwrap();
    assert!(matches!(cb.physics_state, PhysicsState::NoMarch));

    let pending_before = time.len();
    let stale = MarchEvent { uid: uid_of(a) };
    stale.invoke(&mut world.space, &mut time, &world.matter);

    assert_eq!(time.len(), pending_before);
    let cb = world.space.get_uid(uid_of(a)).unwrap();
    assert!(matches!(cb.physics_state, PhysicsState::NoMarch));
}

/// A collide event whose snapshots no longer match the world is dropped
/// entirely: no contact, no notification, and no release event either.
#[test]
fn stale_collide_event_is_dropped() {
    let mut world = World::new();
    let mut time = EventQueue::new(Coord::from(0));

    let a = spawn(&mut world, &mut time, 0, 0);
    let b = spawn(&mut world, &mut time, 100, 0);

    // snapshots that claim a was moving, which it never was
    let stale_first = ContactData {
        body: Body::new(pos(0, 0), vel(1, 0), Coord::from(0)),
        radius: Scalar::from(10),
        uid: uid_of(a),
    };
    let second = ContactData {
        body: Body::new(pos(100, 0), vel(0, 0), Coord::from(0)),
        radius: Scalar::from(10),
        uid: uid_of(b),
    };
    let stale = CollideEvent {
        first: stale_first,
        second,
        release_time: Coord::from(5),
    };

    let pending_before = time.len();
    stale.invoke(&mut world.space, &mut time, &world.matter);
    assert_eq!(time.len(), pending_before);
    assert!(!world.space.are_in_contact(uid_of(a), uid_of(b)));
}

/// The narrow phase reports the same entry and exit whichever body
/// comes first.
#[test]
fn collision_times_are_symmetric() {
    let one = CollisionBody {
        body: Body::new(pos(0, 0), vel(50, 0), Coord::from(0)),
        speed: Scalar::from(50),
        radius: Scalar::from(10),
        physics_state: PhysicsState::NoMarch,
    };
    let other = CollisionBody {
        body: Body::new(pos(100, 5), vel(-50, 0), Coord::from(0)),
        speed: Scalar::from(50),
        radius: Scalar::from(10),
        physics_state: PhysicsState::NoMarch,
    };
    let forward = collision_linear(&one, &other);
    let backward = collision_linear(&other, &one);
    match (forward, backward) {
        (CollideResult::Collision(t1, u1), CollideResult::Collision(t2, u2)) => {
            assert_eq!(t1.unwrap().into_bits(), t2.unwrap().into_bits());
            assert_eq!(u1.unwrap().into_bits(), u2.unwrap().into_bits());
        },
        (a, b) => panic!("expected collisions both ways, got {a:?} and {b:?}"),
    }
}

/// A second index update with an unchanged image pair is a no-op: no
/// duplicate scheduling, no index churn.
#[test]
fn update_physics_is_idempotent() {
    let mut world = World::new();
    let mut time = EventQueue::new(Coord::from(0));

    let a = spawn(&mut world, &mut time, 0, 0);
    let image = world
        .space
        .get_uid_image(&world.matter, uid_of(a))
        .expect("a should have an image");

    let entries_before = world.space.len();
    let pending_before = time.len();

    update_physics(
        &mut world.space,
        &mut time,
        &world.matter,
        uid_of(a),
        Some(&image),
        Some(&image),
    );

    assert_eq!(world.space.len(), entries_before);
    assert_eq!(time.len(), pending_before);
    let again: Image = world.space.get_uid_image(&world.matter, uid_of(a)).unwrap();
    assert!(again == image);
}
