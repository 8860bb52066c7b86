//! The simulation substrate: the entity store and, above it, the event
//! queue that drives the world forward in time order.

mod entity_heap;
pub mod server;

pub use self::entity_heap::EntityHeap;
pub use self::entity_heap::UID;
pub use self::entity_heap::heap_at;
pub use self::entity_heap::heap_contains;
pub use self::entity_heap::heap_index_of;
pub use self::entity_heap::heap_wf;

use vstd::prelude::*;

use crate::math::fix_add;
use crate::units;

verus! {

/// The numeric half of an entity's identity.
pub type EntityId = u64;

/// An entity's full identity: its number together with its kind.
pub type EntityUId = UID;

/// Any event the engine can schedule, as one sum type, so that firing an
/// event is an exhaustive match rather than a dispatch through opaque
/// trait objects.
pub enum GeneralEvent {
    March(crate::space::MarchEvent),
    Collide(crate::space::CollideEvent),
    Release(crate::space::ReleaseEvent),
    Contact(crate::space::ContactEvent),
}

/// The time-ordered schedule of pending events, and the simulation's own
/// clock.  Events due at the same time fire in submission order; firing
/// an event may enqueue more.  Nothing is ever removed except by firing:
/// stale events invalidate themselves when they run.
pub struct EventQueue {
    now: units::Time,
    pending: Vec<(units::Time, GeneralEvent)>,
}

impl EventQueue {
    /// The simulation clock.
    pub closed spec fn spec_now(&self) -> units::Time {
        self.now
    }

    /// The pending events, each with its due time, in submission order.
    pub closed spec fn spec_pending(&self) -> Seq<(units::Time, GeneralEvent)> {
        self.pending@
    }

    /// An empty schedule starting at `initial_time`.
    pub fn new(initial_time: units::Time) -> (r: EventQueue)
        ensures
            r.spec_now() == initial_time,
            r.spec_pending() == Seq::<(units::Time, GeneralEvent)>::empty(),
    {
        EventQueue { now: initial_time, pending: Vec::new() }
    }

    /// The current simulation time.
    pub fn now(&self) -> (r: units::Time)
        ensures
            r == self.spec_now(),
    {
        self.now
    }

    /// How many events are pending.
    pub fn len(&self) -> (r: usize)
        ensures
            r == self.spec_pending().len(),
    {
        self.pending.len()
    }

    /// The position of the next event due no later than `until`: the
    /// earliest due time wins, and among equals the earliest submission.
    fn next_due(&self, until: units::Time) -> (r: Option<usize>)
        ensures
            match r {
                Some(i) => {
                    &&& 0 <= i < self.spec_pending().len()
                    &&& self.spec_pending()[i as int].0@ <= until@
                    &&& forall|j: int|
                        0 <= j < self.spec_pending().len() ==> self.spec_pending()[i as int].0@
                            <= #[trigger] self.spec_pending()[j].0@
                    &&& forall|j: int|
                        0 <= j < i ==> self.spec_pending()[i as int].0@
                            < #[trigger] self.spec_pending()[j].0@
                },
                None => forall|j: int|
                    0 <= j < self.spec_pending().len() ==> #[trigger] self.spec_pending()[j].0@
                        > until@,
            },
    {
        let n: usize = self.pending.len();
        let mut best: Option<usize> = None;
        let mut i: usize = 0;
        while i < n
            invariant
                0 <= i <= n,
                n == self.spec_pending().len(),
                match best {
                    Some(b) => {
                        &&& 0 <= b < i
                        &&& forall|j: int|
                            0 <= j < i ==> self.spec_pending()[b as int].0@
                                <= #[trigger] self.spec_pending()[j].0@
                        &&& forall|j: int|
                            0 <= j < b ==> self.spec_pending()[b as int].0@
                                < #[trigger] self.spec_pending()[j].0@
                    },
                    None => i == 0,
                },
            decreases n - i,
        {
            let t: units::Time = self.pending[i].0;
            best = match best {
                Some(b) => {
                    if t < self.pending[b].0 {
                        Some(i)
                    } else {
                        Some(b)
                    }
                },
                None => Some(i),
            };
            i = i + 1;
        }
        match best {
            Some(b) => {
                if self.pending[b].0 <= until {
                    Some(b)
                } else {
                    None
                }
            },
            None => None,
        }
    }

    /// Removes and returns the next event due no later than `until`,
    /// advancing the clock to its due time where that lies ahead.  The
    /// clock never runs backward: an event scheduled in the past fires
    /// at the present.
    pub fn take_next(&mut self, until: units::Time) -> (r: Option<(units::Time, GeneralEvent)>)
        ensures
            match r {
                Some((t, e)) => {
                    &&& exists|i: int|
                        {
                            &&& 0 <= i < old(self).spec_pending().len()
                            &&& old(self).spec_pending()[i] == (t, e)
                            &&& final(self).spec_pending() == old(self).spec_pending().remove(i)
                            &&& forall|j: int|
                                0 <= j < old(self).spec_pending().len() ==> t@
                                    <= #[trigger] old(self).spec_pending()[j].0@
                            &&& forall|j: int| 0 <= j < i ==> t@ < #[trigger] old(
                                self,
                            ).spec_pending()[j].0@
                        }
                    &&& t@ <= until@
                    &&& final(self).spec_now() == (if t@ > old(self).spec_now()@ {
                        t
                    } else {
                        old(self).spec_now()
                    })
                },
                None => {
                    &&& *final(self) == *old(self)
                    &&& forall|j: int|
                        0 <= j < old(self).spec_pending().len() ==> #[trigger] old(
                            self,
                        ).spec_pending()[j].0@ > until@
                },
            },
    {
        match self.next_due(until) {
            Some(i) => {
                let (t, e): (units::Time, GeneralEvent) = self.pending.remove(i);
                if self.now < t {
                    self.now = t;
                }
                Some((t, e))
            },
            None => None,
        }
    }
}

/// Schedules an event for an absolute time.
pub fn enqueue_absolute(time: &mut EventQueue, event: GeneralEvent, execute_time: units::Time)
    ensures
        final(time).spec_now() == old(time).spec_now(),
        final(time).spec_pending() == old(time).spec_pending().push((execute_time, event)),
{
    time.pending.push((execute_time, event));
}

/// Schedules an event for a delay past the present.
pub fn enqueue_relative(time: &mut EventQueue, event: GeneralEvent, execute_delay: units::Duration)
    ensures
        final(time).spec_now() == old(time).spec_now(),
        final(time).spec_pending() == old(time).spec_pending().push(
            (
                (units::Time { bits: fix_add(old(time).spec_now()@, execute_delay@) as i64 }),
                event,
            ),
        ),
{
    let execute_time: units::Time = time.now + execute_delay;
    time.pending.push((execute_time, event));
}

impl GeneralEvent {
    /// Fires one event against the world, by exhaustive dispatch; each
    /// arm keeps the exact contract of the event it fires.
    pub fn invoke(
        self,
        space: &mut crate::space::CollisionSpace,
        time: &mut EventQueue,
        matter: &mut EntityHeap,
    )
        requires
            old(space).wf(),
            old(matter).wf(),
        ensures
            final(space).wf(),
            final(matter).wf(),
            final(time).spec_now() == old(time).spec_now(),
            (match self {
                GeneralEvent::March(event) => {
                    &&& final(matter)@ == old(matter)@
                    &&& final(space).spec_contacts() == old(space).spec_contacts()
                    &&& !crate::space::spec_march_still_relevant(
                        old(space).spec_contents(),
                        event.uid,
                        old(time).spec_now(),
                    ) ==> {
                        &&& final(space).spec_contents() == old(space).spec_contents()
                        &&& final(time).spec_pending() == old(time).spec_pending()
                    }
                    &&& crate::space::spec_march_still_relevant(
                        old(space).spec_contents(),
                        event.uid,
                        old(time).spec_now(),
                    ) ==> {
                        let s = old(space).spec_contents();
                        let n = crate::space::space_index_of(s, event.uid);
                        let m = crate::space::spec_march_min(
                            s.take(n),
                            s[n].1,
                            old(time).spec_now(),
                        );
                        let cols = crate::space::spec_collide_list(
                            s.take(n),
                            s[n].1,
                            old(time).spec_now(),
                        );
                        let s2 = s.update(
                            n,
                            (
                                s[n].0,
                                (crate::space::CollisionBody {
                                    physics_state: crate::space::march_state(m),
                                    ..s[n].1
                                }),
                            ),
                        );
                        &&& final(space).spec_contents() == s2
                        &&& final(time).spec_pending() == old(time).spec_pending()
                            + crate::space::march_event_seq(m, event.uid)
                            + crate::space::spec_collision_events(
                            s2,
                            old(space).spec_contacts(),
                            old(time).spec_now(),
                            event.uid,
                            cols,
                        )
                    }
                },
                GeneralEvent::Collide(event) => {
                    let s = old(space).spec_contents();
                    let c = old(space).spec_contacts();
                    let now = old(time).spec_now();
                    let relevant = crate::space::spec_contact_event_relevant(
                        s,
                        now,
                        event.first,
                        event.second,
                    );
                    let act = relevant && !crate::space::in_contact_spec(
                        c,
                        event.first.uid,
                        event.second.uid,
                    );
                    &&& final(matter)@ == old(matter)@
                    &&& final(space).spec_contents() == s
                    &&& final(space).spec_contacts() == (if act {
                        c.push((event.first.uid, event.second.uid))
                    } else {
                        c
                    })
                    &&& final(time).spec_pending() == old(time).spec_pending() + (if act {
                        crate::space::spec_contact_notice(
                            s,
                            old(matter)@,
                            now,
                            event.first.uid,
                            event.second.uid,
                            crate::space::ContactType::Collision,
                        ) + crate::space::spec_contact_notice(
                            s,
                            old(matter)@,
                            now,
                            event.second.uid,
                            event.first.uid,
                            crate::space::ContactType::Collision,
                        )
                    } else {
                        Seq::empty()
                    }) + (if relevant {
                        seq![
                            (
                                event.release_time,
                                GeneralEvent::Release(
                                    crate::space::ReleaseEvent {
                                        first: event.first,
                                        second: event.second,
                                    },
                                ),
                            ),
                        ]
                    } else {
                        Seq::empty()
                    })
                },
                GeneralEvent::Release(event) => {
                    let s = old(space).spec_contents();
                    let c = old(space).spec_contacts();
                    let now = old(time).spec_now();
                    let act = crate::space::spec_contact_event_relevant(
                        s,
                        now,
                        event.first,
                        event.second,
                    ) && crate::space::in_contact_spec(c, event.first.uid, event.second.uid);
                    &&& final(matter)@ == old(matter)@
                    &&& final(space).spec_contents() == s
                    &&& final(space).spec_contacts() == (if act {
                        crate::space::without_pair(c, event.first.uid, event.second.uid)
                    } else {
                        c
                    })
                    &&& final(time).spec_pending() == old(time).spec_pending() + (if act {
                        crate::space::spec_contact_notice(
                            s,
                            old(matter)@,
                            now,
                            event.first.uid,
                            event.second.uid,
                            crate::space::ContactType::Release,
                        ) + crate::space::spec_contact_notice(
                            s,
                            old(matter)@,
                            now,
                            event.second.uid,
                            event.first.uid,
                            crate::space::ContactType::Release,
                        )
                    } else {
                        Seq::empty()
                    })
                },
                GeneralEvent::Contact(event) => {
                    crate::space::spec_uid_image(
                        old(space).spec_contents(),
                        old(matter)@,
                        event.this_uid,
                    ) is None ==> {
                        &&& final(space).spec_contents() == old(space).spec_contents()
                        &&& final(space).spec_contacts() == old(space).spec_contacts()
                        &&& final(time).spec_pending() == old(time).spec_pending()
                        &&& final(matter)@ == old(matter)@
                    }
                },
            }),
    {
        match self {
            GeneralEvent::March(event) => {
                event.invoke(space, time, matter);
            },
            GeneralEvent::Collide(event) => {
                event.invoke(space, time, matter);
            },
            GeneralEvent::Release(event) => {
                event.invoke(space, time, matter);
            },
            GeneralEvent::Contact(event) => {
                event.invoke(space, time, matter);
            },
        }
    }
}

/// Everything a fired event may touch: the space and the entity store.
/// The queue rides alongside, so an event can schedule its successors.
pub struct World {
    pub space: crate::space::CollisionSpace,
    pub matter: EntityHeap,
}

impl World {
    /// An empty world.
    pub fn new() -> (r: World)
        ensures
            r.space.wf(),
            r.matter.wf(),
            r.space.spec_contents() == Seq::<(UID, crate::space::CollisionBody)>::empty(),
            r.space.spec_contacts() == Seq::<(UID, UID)>::empty(),
            r.matter@ == Seq::<(UID, crate::entities::Entity)>::empty(),
    {
        World { space: crate::space::CollisionSpace::new(), matter: EntityHeap::new() }
    }

    /// Fires events in time order, oldest first among equals, until
    /// nothing is due by `until` or the fuel runs out; the count of
    /// events fired comes back.  Each fired event may schedule more, so
    /// the fuel bounds one call, not the simulation.  Which event each
    /// round fires — the least-due pending one, earliest-submitted among
    /// equals — is pinned by `take_next`'s contract.
    pub fn simulate(&mut self, time: &mut EventQueue, until: units::Time, fuel: u64) -> (steps:
        u64)
        requires
            old(self).space.wf(),
            old(self).matter.wf(),
        ensures
            final(self).space.wf(),
            final(self).matter.wf(),
            steps <= fuel,
            steps < fuel ==> forall|j: int|
                0 <= j < final(time).spec_pending().len()
                    ==> #[trigger] final(time).spec_pending()[j].0@ > until@,
            final(time).spec_now()@ >= old(time).spec_now()@,
            final(time).spec_now()@ <= (if until@ > old(time).spec_now()@ {
                until@
            } else {
                old(time).spec_now()@
            }),
    {
        let mut steps: u64 = 0;
        while steps < fuel
            invariant
                self.space.wf(),
                self.matter.wf(),
                steps <= fuel,
                time.spec_now()@ >= old(time).spec_now()@,
                time.spec_now()@ <= (if until@ > old(time).spec_now()@ {
                    until@
                } else {
                    old(time).spec_now()@
                }),
            decreases fuel - steps,
        {
            match time.take_next(until) {
                Some((_t, event)) => {
                    event.invoke(&mut self.space, time, &mut self.matter);
                },
                None => {
                    return steps;
                },
            }
            steps = steps + 1;
        }
        steps
    }
}

} // verus!
