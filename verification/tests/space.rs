//! The collision index, contact table and solver regimes, piece by piece.

use lil_city::entities::Entity;
use lil_city::entities::EntityKind;
use lil_city::entities::Player;
use lil_city::math::Coord;
use lil_city::math::Position;
use lil_city::math::Scalar;
use lil_city::math::Vector;
use lil_city::space::Body;
use lil_city::space::CollideResult;
use lil_city::space::CollisionBody;
use lil_city::space::CollisionSpace;
use lil_city::space::MarchResult;
use lil_city::space::PhysicsState;
use lil_city::space::collision_stationary;
use lil_city::space::march_result;
use lil_city::space::march_threshold;
use lil_city::sulphate::EntityHeap;
use lil_city::sulphate::EventQueue;
use lil_city::sulphate::UID;
use lil_city::sulphate::World;
use lil_city::sulphate::server::Interruption;

fn pos(x: i32, y: i32) -> Position {
    Position::new(Coord::from(x), Coord::from(y))
}

fn vel(x: i32, y: i32) -> Vector {
    Vector::new(Scalar::from(x), Scalar::from(y))
}

fn entry(x: i32, y: i32, vx: i32, vy: i32, radius: i32) -> CollisionBody {
    let body = Body::new(pos(x, y), vel(vx, vy), Coord::from(0));
    let speed = body.velocity().magnitude();
    CollisionBody {
        body,
        speed,
        radius: Scalar::from(radius),
        physics_state: PhysicsState::NoMarch,
    }
}

#[test]
fn march_threshold_is_five_units() {
    assert_eq!(march_threshold().into_bits(), 5 * 65536);
}

#[test]
fn stationary_pairs_compare_separation_to_radius_sum() {
    let near = collision_stationary(&entry(0, 0, 0, 0, 10), &entry(15, 0, 0, 0, 10), Coord::from(0));
    assert!(matches!(near, CollideResult::Collision(None, None)));
    let far = collision_stationary(&entry(0, 0, 0, 0, 10), &entry(25, 0, 0, 0, 10), Coord::from(0));
    assert!(matches!(far, CollideResult::Miss));
}

#[test]
fn broad_phase_regimes() {
    let now = Coord::from(0);

    // equal velocities: permanent verdicts
    let stable_touch = march_result(&entry(0, 0, 3, 0, 10), &entry(15, 0, 3, 0, 10), now);
    assert!(matches!(stable_touch, MarchResult::StableContact));
    let stable_miss = march_result(&entry(0, 0, 3, 0, 10), &entry(50, 0, 3, 0, 10), now);
    assert!(matches!(stable_miss, MarchResult::StableMiss));

    // far apart and closing: a march deadline in the future
    match march_result(&entry(0, 0, 50, 0, 10), &entry(100, 0, -50, 0, 10), now) {
        MarchResult::March(t) => {
            let bits = t.into_bits();
            assert!(
                7 * 65536 / 10 < bits && bits < 65536,
                "march deadline at bits {bits}"
            );
        },
        other => panic!("expected a march, got {other:?}"),
    }

    // close and converging: an exact collide window
    match march_result(&entry(0, 0, 50, 0, 10), &entry(22, 0, -50, 0, 10), now) {
        MarchResult::Collide(t, u) => {
            assert!(0 <= t.into_bits() && t.into_bits() < u.into_bits());
        },
        other => panic!("expected a collide window, got {other:?}"),
    }

    // close but passing wide: a miss
    let wide = march_result(&entry(0, 0, 50, 0, 10), &entry(7, 23, 49, 0, 10), now);
    assert!(matches!(wide, MarchResult::Miss), "got {wide:?}");
}

#[test]
fn contact_table_handles_either_order() {
    let mut space = CollisionSpace::new();
    let a = UID { id: 1, kind: EntityKind::Player };
    let b = UID { id: 2, kind: EntityKind::Player };
    let c = UID { id: 3, kind: EntityKind::Player };

    space.push_contact(a, b);
    space.push_contact(c, a);
    assert!(space.are_in_contact(a, b));
    assert!(space.are_in_contact(b, a));
    assert!(space.are_in_contact(a, c));
    assert!(!space.are_in_contact(b, c));

    let partners = space.get_contacts(a);
    assert_eq!(partners.len(), 2);
    assert_eq!(partners[0].id, 2);
    assert_eq!(partners[1].id, 3);

    space.release_contact(b, a);
    assert!(!space.are_in_contact(a, b));
    assert!(space.are_in_contact(a, c));
}

#[test]
fn entity_heap_files_and_unfiles() {
    let mut matter = EntityHeap::new();
    let id = matter.add(Entity::Player(Player::with_empty_outbox()));
    let uid = UID { id, kind: EntityKind::Player };
    assert!(matter.get(uid).is_some());
    assert!(matter.get_player(id).is_some());

    let second = matter.add(Entity::Player(Player::with_empty_outbox()));
    assert_ne!(id, second);

    let removed = matter.remove(uid);
    assert!(removed.is_some());
    assert!(matter.get(uid).is_none());
    assert!(matter.remove(uid).is_none());
}

#[test]
fn scope_reads_what_it_would_commit() {
    let mut world = World::new();
    let mut time = EventQueue::new(Coord::from(0));
    let spawned = Player::new(&mut world.space, &mut time, &mut world.matter, pos(4, 4));
    let id = spawned.uid.id;
    spawned.release(&mut world.space, &mut time, &mut world.matter);

    let scope = world.space.entry(&world.matter, id, EntityKind::Player);
    assert!(scope.get(&world.matter).is_some());
    assert_eq!(scope.now(&time).into_bits(), 0);
    let image = scope.image(&world.matter).expect("a tracked player has an image");
    assert_eq!(image.inner_image.radius().into_bits(), 10 * 65536);
    assert_eq!(image.body.position(Coord::from(0)).x.into_bits(), 4 * 65536);
    assert!(scope.get_mut(&mut world.matter).is_some());
    scope.release(&mut world.space, &mut time, &mut world.matter);

    // an unchanged scope commits nothing new
    assert_eq!(time.len(), 0);
}

#[test]
fn kill_server_interruption_stops_the_loop() {
    let mut world = World::new();
    let mut time = EventQueue::new(Coord::from(0));
    assert!(Interruption::KillServer.update(&mut time, &mut world));

    let spawned = Player::new(&mut world.space, &mut time, &mut world.matter, pos(0, 0));
    let id = spawned.uid.id;
    spawned.release(&mut world.space, &mut time, &mut world.matter);
    let go = Interruption::PlayerUpdate {
        id,
        control: lil_city::entities::player::Control::Move { velocity: vel(1, 0) },
    };
    assert!(!go.update(&mut time, &mut world));
    let cb = world.space.get_uid(UID { id, kind: EntityKind::Player }).unwrap();
    assert_eq!(cb.body.velocity().x.into_bits(), 65536);
}
