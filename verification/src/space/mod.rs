//! The medium through which entities meet: a collision index of cached
//! kinematic bodies, a contact table of touching pairs, and the update
//! routine that keeps both honest as entities appear, move and vanish.

mod body;
mod events;
mod eyes;
mod update;

pub use self::body::Body;
pub use self::body::CollideResult;
pub use self::body::CollisionBody;
pub use self::body::MarchResult;
pub use self::body::PhysicsState;
pub use self::body::body_equiv;
pub use self::body::body_x_at;
pub use self::body::body_y_at;
pub use self::body::collision_linear;
pub use self::body::lemma_body_equality;
pub use self::body::lemma_collision_linear_symmetric;
pub use self::body::lemma_constant_velocity_interpolation;
pub use self::body::collision_stationary;
pub use self::body::march_result;
pub use self::body::march_threshold;
pub use self::body::pos_at;
pub use self::body::spec_collision_linear;
pub use self::body::spec_march_result;
pub use self::body::spec_ref_time;
pub use self::body::spec_rel_vel_squared;
pub use self::body::spec_touching_at;
pub use self::events::CollideEvent;
pub use self::events::ContactData;
pub use self::events::ContactEvent;
pub use self::events::ContactType;
pub use self::events::MarchEvent;
pub use self::events::ReleaseEvent;
pub use self::events::contact_data_equiv;
pub use self::events::contact_event_relevant;
pub use self::events::spec_contact_event_relevant;
pub use self::events::spec_is_bounce;
pub use self::events::spec_march_still_relevant;
pub use self::events::spec_try_new;
pub use self::eyes::Collide;
pub use self::eyes::Entry;
pub use self::eyes::Eyes;
pub use self::eyes::EyesId;
pub use self::eyes::Image;
pub use self::eyes::as_eyes;
pub use self::eyes::notified_entry;
pub use self::eyes::spec_entry_image;
pub use self::eyes::spec_eyes_ids;
pub use self::eyes::update;
pub use self::update::apply_collisions;
pub use self::update::apply_disappearances;
pub use self::update::apply_march;
pub use self::update::apply_new_stable_contacts;
pub use self::update::entry_bounce_matches;
pub use self::update::entry_matches_image;
pub use self::update::get_march_data;
pub use self::update::get_march_relocated_data;
pub use self::update::spec_collide_list;
pub use self::update::spec_march_min;
pub use self::update::lemma_update_physics_idempotent;
pub use self::update::lemma_update_physics_settles;
pub use self::update::march;
pub use self::update::march_event_seq;
pub use self::update::march_relocated;
pub use self::update::march_state;
pub use self::update::opt_copy;
pub use self::update::perform_contact;
pub use self::update::perform_disappearance;
pub use self::update::invoke_contact;
pub use self::update::invoke_contact_with;
pub use self::update::spec_collision_events;
pub use self::update::spec_contact_notice;
pub use self::update::spec_disappear_contacts;
pub use self::update::spec_disappear_notices;
pub use self::update::spec_march_relocated;
pub use self::update::spec_march_relocated_data;
pub use self::update::spec_snapshot;
pub use self::update::spec_stable_notices;
pub use self::update::spec_stable_pairs;
pub use self::update::spec_update_physics;
pub use self::update::unwrap_or_arbitrary;
pub use self::update::update_physics;
pub use self::eyes::image_equiv;
pub use self::eyes::image_opt_eq;
pub use self::eyes::opt_image_equiv;

use vstd::prelude::*;

use crate::sulphate::UID;

verus! {

/// One entry per identity: the collision index's structural invariant.
pub open spec fn space_wf(s: Seq<(UID, CollisionBody)>) -> bool {
    forall|i: int, j: int| 0 <= i < j < s.len() ==> s[i].0 != s[j].0
}

/// Whether the index tracks this identity.
pub open spec fn space_contains(s: Seq<(UID, CollisionBody)>, uid: UID) -> bool {
    exists|i: int| 0 <= i < s.len() && s[i].0 == uid
}

/// The position of this identity in the index; meaningful where the
/// index is well formed and the identity tracked.
pub open spec fn space_index_of(s: Seq<(UID, CollisionBody)>, uid: UID) -> int {
    choose|i: int| 0 <= i < s.len() && s[i].0 == uid
}

/// The entry cached for this identity.
pub open spec fn space_at(s: Seq<(UID, CollisionBody)>, uid: UID) -> CollisionBody {
    s[space_index_of(s, uid)].1
}

/// Whether a stored pair is the unordered pair `{a, b}`.
pub open spec fn pair_matches(p: (UID, UID), a: UID, b: UID) -> bool {
    (p.0 == a && p.1 == b) || (p.0 == b && p.1 == a)
}

/// Whether the contact table holds the unordered pair `{a, b}`.
pub open spec fn in_contact_spec(c: Seq<(UID, UID)>, a: UID, b: UID) -> bool {
    exists|i: int| 0 <= i < c.len() && pair_matches(c[i], a, b)
}

/// Every identity paired with `uid` in the table, in table order.
pub open spec fn partners_of(c: Seq<(UID, UID)>, uid: UID) -> Seq<UID>
    decreases c.len(),
{
    if c.len() == 0 {
        Seq::empty()
    } else {
        let rest = partners_of(c.drop_last(), uid);
        let p = c.last();
        if p.0 == uid {
            rest.push(p.1)
        } else if p.1 == uid {
            rest.push(p.0)
        } else {
            rest
        }
    }
}

/// The table with every copy of the unordered pair `{a, b}` removed.
pub open spec fn without_pair(c: Seq<(UID, UID)>, a: UID, b: UID) -> Seq<(UID, UID)>
    decreases c.len(),
{
    if c.len() == 0 {
        Seq::empty()
    } else {
        let rest = without_pair(c.drop_last(), a, b);
        if pair_matches(c.last(), a, b) {
            rest
        } else {
            rest.push(c.last())
        }
    }
}

/// A space is a collection of entities with some kind of location
/// allocation: the medium through which entities interact pseudonymously.
/// Order in the index is priority: a later entry is the one responsible
/// for detecting collisions against every earlier one.
pub struct CollisionSpace {
    contents: Vec<(UID, CollisionBody)>,
    in_contact: Vec<(UID, UID)>,
}

impl CollisionSpace {
    /// The collision index, in priority order.
    pub closed spec fn spec_contents(&self) -> Seq<(UID, CollisionBody)> {
        self.contents@
    }

    /// The contact table.
    pub closed spec fn spec_contacts(&self) -> Seq<(UID, UID)> {
        self.in_contact@
    }

    /// Structural invariant: one index entry per identity.
    pub open spec fn wf(&self) -> bool {
        space_wf(self.spec_contents())
    }

    /// An empty space.
    pub fn new() -> (r: CollisionSpace)
        ensures
            r.spec_contents() == Seq::<(UID, CollisionBody)>::empty(),
            r.spec_contacts() == Seq::<(UID, UID)>::empty(),
            r.wf(),
    {
        let contents: Vec<(UID, CollisionBody)> = Vec::new();
        let in_contact: Vec<(UID, UID)> = Vec::new();
        CollisionSpace { contents, in_contact }
    }

    /// How many entities the index tracks.
    pub fn len(&self) -> (r: usize)
        ensures
            r == self.spec_contents().len(),
    {
        self.contents.len()
    }

    /// The identity at a position of the index.
    pub fn uid_at(&self, n: usize) -> (r: UID)
        requires
            n < self.spec_contents().len(),
        ensures
            r == self.spec_contents()[n as int].0,
    {
        self.contents[n].0
    }

    /// The entry at a position of the index.
    pub fn entry_at(&self, n: usize) -> (r: &CollisionBody)
        requires
            n < self.spec_contents().len(),
        ensures
            *r == self.spec_contents()[n as int].1,
    {
        &self.contents[n].1
    }

    /// Where the index tracks this identity, if anywhere.
    pub fn find_uid(&self, uid: UID) -> (r: Option<usize>)
        requires
            self.wf(),
        ensures
            match r {
                Some(n) => {
                    &&& 0 <= n < self.spec_contents().len()
                    &&& self.spec_contents()[n as int].0 == uid
                    &&& n == space_index_of(self.spec_contents(), uid)
                },
                None => !space_contains(self.spec_contents(), uid),
            },
    {
        let n: usize = self.contents.len();
        let mut i: usize = 0;
        while i < n
            invariant
                0 <= i <= n,
                n == self.spec_contents().len(),
                self.wf(),
                forall|j: int| 0 <= j < i ==> self.spec_contents()[j].0 != uid,
            decreases n - i,
        {
            if self.contents[i].0 == uid {
                proof {
                    let w = space_index_of(self.spec_contents(), uid);
                    assert(self.spec_contents()[i as int].0 == uid);
                    if w != i {
                        assert(self.spec_contents()[w].0 == uid);
                    }
                }
                return Some(i);
            }
            i = i + 1;
        }
        None
    }

    /// Where the index tracks this identity, given by number and kind.
    pub fn find(&self, id: crate::sulphate::EntityId, kind: crate::entities::EntityKind) -> (r:
        Option<usize>)
        requires
            self.wf(),
        ensures
            match r {
                Some(n) => {
                    &&& 0 <= n < self.spec_contents().len()
                    &&& self.spec_contents()[n as int].0 == (UID { id, kind })
                    &&& n == space_index_of(self.spec_contents(), UID { id, kind })
                },
                None => !space_contains(self.spec_contents(), UID { id, kind }),
            },
    {
        self.find_uid(UID { id, kind })
    }

    /// The entry cached for this identity, if it is tracked.
    pub fn get_uid(&self, uid: UID) -> (r: Option<&CollisionBody>)
        requires
            self.wf(),
        ensures
            match r {
                Some(cb) => space_contains(self.spec_contents(), uid) && *cb == space_at(
                    self.spec_contents(),
                    uid,
                ),
                None => !space_contains(self.spec_contents(), uid),
            },
    {
        match self.find_uid(uid) {
            Some(n) => Some(&self.contents[n].1),
            None => None,
        }
    }

    /// The entry cached for this identity, given by number and kind.
    pub fn get(&self, id: crate::sulphate::EntityId, kind: crate::entities::EntityKind) -> (r:
        Option<&CollisionBody>)
        requires
            self.wf(),
        ensures
            match r {
                Some(cb) => space_contains(self.spec_contents(), UID { id, kind }) && *cb
                    == space_at(self.spec_contents(), UID { id, kind }),
                None => !space_contains(self.spec_contents(), UID { id, kind }),
            },
    {
        self.get_uid(UID { id, kind })
    }

    /// The image of a tracked entity: its displayable shape from the
    /// entity store over the body cached here.  Nothing when either half
    /// is missing.
    pub fn get_uid_image(&self, matter: &crate::sulphate::EntityHeap, uid: UID) -> (r: Option<
        Image,
    >)
        requires
            self.wf(),
            matter.wf(),
        ensures
            r == spec_uid_image(self.spec_contents(), matter@, uid),
    {
        let body: Option<Body> = match self.get_uid(uid) {
            Some(c_body) => Some(c_body.body),
            None => None,
        };
        let image: Option<crate::entities::Image> = crate::entities::image_of(matter, uid);
        match (body, image) {
            (Some(body), Some(inner_image)) => Some(Image { inner_image, body }),
            _ => None,
        }
    }

    /// Whether the contact table holds the unordered pair `{first, second}`.
    pub fn are_in_contact(&self, first: UID, second: UID) -> (r: bool)
        ensures
            r == in_contact_spec(self.spec_contacts(), first, second),
    {
        let n: usize = self.in_contact.len();
        let mut i: usize = 0;
        while i < n
            invariant
                0 <= i <= n,
                n == self.spec_contacts().len(),
                forall|j: int| 0 <= j < i ==> !pair_matches(self.spec_contacts()[j], first, second),
            decreases n - i,
        {
            let (x, y): (UID, UID) = self.in_contact[i];
            if first == x && second == y || first == y && second == x {
                return true;
            }
            i = i + 1;
        }
        false
    }

    /// Drops every copy of the unordered pair `{first, second}` from the
    /// contact table.
    pub fn release_contact(&mut self, first: UID, second: UID)
        ensures
            final(self).spec_contents() == old(self).spec_contents(),
            final(self).spec_contacts() == without_pair(old(self).spec_contacts(), first, second),
    {
        let n: usize = self.in_contact.len();
        let mut kept: Vec<(UID, UID)> = Vec::new();
        let mut i: usize = 0;
        while i < n
            invariant
                0 <= i <= n,
                n == self.in_contact@.len(),
                kept@ == without_pair(self.in_contact@.take(i as int), first, second),
            decreases n - i,
        {
            let (x, y): (UID, UID) = self.in_contact[i];
            proof {
                assert(self.in_contact@.take(i + 1).drop_last() == self.in_contact@.take(i as int));
                assert(self.in_contact@.take(i + 1).last() == self.in_contact@[i as int]);
            }
            if !(first == x && second == y || first == y && second == x) {
                kept.push((x, y));
            }
            i = i + 1;
        }
        proof {
            assert(self.in_contact@.take(n as int) == self.in_contact@);
        }
        self.in_contact = kept;
    }

    /// Records the unordered pair `{first, second}` as touching.
    pub fn push_contact(&mut self, first: UID, second: UID)
        ensures
            final(self).spec_contents() == old(self).spec_contents(),
            final(self).spec_contacts() == old(self).spec_contacts().push((first, second)),
    {
        self.in_contact.push((first, second));
    }

    /// Every identity the table pairs with `uid`, in table order.
    pub fn get_contacts(&self, uid: UID) -> (r: Vec<UID>)
        ensures
            r@ == partners_of(self.spec_contacts(), uid),
    {
        let n: usize = self.in_contact.len();
        let mut found: Vec<UID> = Vec::new();
        let mut i: usize = 0;
        while i < n
            invariant
                0 <= i <= n,
                n == self.spec_contacts().len(),
                found@ == partners_of(self.spec_contacts().take(i as int), uid),
            decreases n - i,
        {
            let (first, second): (UID, UID) = self.in_contact[i];
            proof {
                assert(self.spec_contacts().take(i + 1).drop_last() == self.spec_contacts().take(
                    i as int,
                ));
                assert(self.spec_contacts().take(i + 1).last() == self.spec_contacts()[i as int]);
            }
            if uid == first {
                found.push(second);
            } else if uid == second {
                found.push(first);
            }
            i = i + 1;
        }
        proof {
            assert(self.spec_contacts().take(n as int) == self.spec_contacts());
        }
        found
    }

    /// Removes the index entry at a position, keeping the order of the
    /// rest; contacts are untouched.
    pub fn remove_entry(&mut self, n: usize) -> (r: (UID, CollisionBody))
        requires
            old(self).wf(),
            n < old(self).spec_contents().len(),
        ensures
            final(self).wf(),
            r == old(self).spec_contents()[n as int],
            final(self).spec_contents() == old(self).spec_contents().remove(n as int),
            final(self).spec_contacts() == old(self).spec_contacts(),
    {
        self.contents.remove(n)
    }

    /// Appends an entry for an identity the index does not yet track,
    /// giving it the lowest priority.
    pub fn push_entry(&mut self, uid: UID, c_body: CollisionBody)
        requires
            old(self).wf(),
            !space_contains(old(self).spec_contents(), uid),
        ensures
            final(self).wf(),
            final(self).spec_contents() == old(self).spec_contents().push((uid, c_body)),
            final(self).spec_contacts() == old(self).spec_contacts(),
    {
        self.contents.push((uid, c_body));
        proof {
            assert forall|i: int, j: int| 0 <= i < j < self.spec_contents().len() implies self
                .spec_contents()[i].0 != self.spec_contents()[j].0 by {
                if j == self.spec_contents().len() - 1 {
                    assert(old(self).spec_contents()[i].0 == self.spec_contents()[i].0);
                }
            };
        }
    }

    /// Rewrites the physics-scheduling state of the entry at a position.
    pub fn set_physics_state(&mut self, n: usize, state: PhysicsState)
        requires
            old(self).wf(),
            n < old(self).spec_contents().len(),
        ensures
            final(self).wf(),
            final(self).spec_contents() == old(self).spec_contents().update(
                n as int,
                (
                    old(self).spec_contents()[n as int].0,
                    (CollisionBody {
                        physics_state: state,
                        ..old(self).spec_contents()[n as int].1
                    }),
                ),
            ),
            final(self).spec_contacts() == old(self).spec_contacts(),
    {
        let pair: (UID, CollisionBody) = self.contents[n];
        let updated: CollisionBody = CollisionBody { physics_state: state, ..pair.1 };
        self.contents.set(n, (pair.0, updated));
        proof {
            assert forall|i: int, j: int| 0 <= i < j < self.spec_contents().len() implies self
                .spec_contents()[i].0 != self.spec_contents()[j].0 by {
                assert(old(self).spec_contents()[i].0 == self.spec_contents()[i].0);
                assert(old(self).spec_contents()[j].0 == self.spec_contents()[j].0);
            };
        }
    }
}

/// The image the space shows for `uid`: the store's shape over the
/// cached body, when both exist.
pub open spec fn spec_uid_image(
    s: Seq<(UID, CollisionBody)>,
    m: Seq<(UID, crate::entities::Entity)>,
    uid: UID,
) -> Option<Image> {
    if space_contains(s, uid) && crate::entities::spec_image_of(m, uid) is Some {
        Some(
            Image {
                inner_image: crate::entities::spec_image_of(m, uid).unwrap(),
                body: space_at(s, uid).body,
            },
        )
    } else {
        None
    }
}

} // verus!
