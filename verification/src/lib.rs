//! A continuous-time collision and contact-notification engine for a
//! discrete-event simulation of moving, circular, kinematic bodies.
//!
//! Bodies are described by a position, a velocity and the time at which that
//! pair was last anchored; positions at other times come from linear
//! extrapolation, never from stepped simulation.  A collision index keeps a
//! cached entry per tracked entity, a contact table remembers which pairs of
//! circles currently overlap, and an event queue carries march, collide and
//! release events that re-validate themselves against fresh state when they
//! fire.

pub mod entities;
pub mod math;
pub mod space;
pub mod sulphate;
pub mod units;
