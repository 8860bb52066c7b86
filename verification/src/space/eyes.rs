//! What the world sees of an entity, and the guarded scope through which
//! gameplay code changes one.
//!
//! A scope captures the entity's image on acquisition; releasing it
//! recomputes the image, drives the collision index update, and, when
//! the image changed, tells every observer-capable entity exactly once.

use vstd::prelude::*;

use crate::entities;
use crate::entities::Entity;
use crate::entities::EntityKind;
use crate::entities::Player;
use crate::entities::player::Update;
use crate::entities::player::UpdateData;
use crate::space;
use crate::space::CollisionBody;
use crate::space::CollisionSpace;
use crate::space::space_contains;
use crate::space::spec_uid_image;
use crate::space::update_physics;
use crate::sulphate::EntityHeap;
use crate::sulphate::EntityId;
use crate::sulphate::EventQueue;
use crate::sulphate::UID;
use crate::sulphate::heap_contains;
use crate::sulphate::heap_index_of;
use crate::units;

verus! {

/// An entity's externally observable snapshot: its displayable shape and
/// the kinematic body it travels with.  Images drive both change
/// detection and the payload observers receive.
#[derive(Clone, Copy)]
pub struct Image {
    pub inner_image: entities::Image,
    pub body: space::Body,
}

/// When two images show the same thing: equal shapes over equivalent
/// trajectories.
pub open spec fn image_equiv(a: Image, b: Image) -> bool {
    a.inner_image == b.inner_image && space::body_equiv(a.body, b.body)
}

/// Equivalence of optional images: both absent, or both present and alike.
pub open spec fn opt_image_equiv(a: Option<Image>, b: Option<Image>) -> bool {
    match (a, b) {
        (Option::None, Option::None) => true,
        (Option::Some(x), Option::Some(y)) => image_equiv(x, y),
        _ => false,
    }
}

impl PartialEq for Image {
    fn eq(&self, other: &Image) -> (r: bool) {
        self.inner_image == other.inner_image && self.body == other.body
    }
}

impl vstd::std_specs::cmp::PartialEqSpecImpl for Image {
    open spec fn obeys_eq_spec() -> bool {
        true
    }

    open spec fn eq_spec(&self, other: &Image) -> bool {
        image_equiv(*self, *other)
    }
}

/// Compares two optional images for equivalence.
pub fn image_opt_eq(a: &Option<Image>, b: &Option<Image>) -> (r: bool)
    ensures
        r == opt_image_equiv(*a, *b),
{
    match (a, b) {
        (Option::None, Option::None) => true,
        (Option::Some(x), Option::Some(y)) => x == y,
        _ => false,
    }
}

// ---------------------------------------------------------------------------
// The change-tracking scope
// ---------------------------------------------------------------------------

/// A guarded scope over one entity's externally visible state.  It holds
/// the image captured at acquisition and a working copy of the cached
/// body; gameplay mutates the copy, and `release` commits everything at
/// once, on every exit path the caller writes.
pub struct Entry {
    pub uid: UID,
    pub before: Option<Image>,
    pub body: Option<space::Body>,
}

/// The image a scope would commit on release: its working body under the
/// entity's current displayable shape.
pub open spec fn spec_entry_image(e: Entry, m: Seq<(UID, Entity)>) -> Option<Image> {
    match e.body {
        Some(b) => match entities::spec_image_of(m, e.spec_uid()) {
            Some(inner) => Some(Image { inner_image: inner, body: b }),
            None => None,
        },
        None => None,
    }
}

impl CollisionSpace {
    /// Opens a change-tracking scope for one entity: captures its image
    /// and hands out a working copy of its cached body.
    pub fn entry(&self, matter: &EntityHeap, id: EntityId, kind: EntityKind) -> (r: Entry)
        requires
            self.wf(),
            matter.wf(),
        ensures
            r.spec_uid() == (UID { id, kind }),
            r.spec_before() == spec_uid_image(self.spec_contents(), matter@, UID { id, kind }),
            r.spec_before() == spec_entry_image(r, matter@),
            r.body == (if space_contains(self.spec_contents(), UID { id, kind }) {
                Some(crate::space::space_at(self.spec_contents(), UID { id, kind }).body)
            } else {
                Option::<space::Body>::None
            }),
    {
        let uid: UID = UID { id, kind };
        let body: Option<space::Body> = match self.get_uid(uid) {
            Some(c_body) => Some(c_body.body),
            None => None,
        };
        let before: Option<Image> = self.get_uid_image(matter, uid);
        Entry { uid, before, body }
    }
}

/// That one store entry gained exactly one update in its outbox, and
/// nothing else about it changed.
pub open spec fn notified_entry(
    was: (UID, Entity),
    now_is: (UID, Entity),
    upd: Update,
) -> bool {
    exists|p: Player, p2: Player|
        {
            &&& was.1 == Entity::Player(p)
            &&& now_is == (was.0, Entity::Player(p2))
            &&& p2.spec_outbox() == p.spec_outbox().push(upd)
        }
}

/// The observer-capable identities in the index, in priority order.
pub open spec fn spec_eyes_ids(s: Seq<(UID, CollisionBody)>) -> Seq<EntityId>
    decreases s.len(),
{
    if s.len() == 0 {
        Seq::empty()
    } else {
        let rest = spec_eyes_ids(s.drop_last());
        match s.last().0.kind {
            EntityKind::Player => rest.push(s.last().0.id),
        }
    }
}

/// In a well formed index the observer list repeats nobody, and it names
/// exactly the tracked player identities.
proof fn lemma_eyes_ids_props(s: Seq<(UID, CollisionBody)>)
    requires
        crate::space::space_wf(s),
    ensures
        forall|id: EntityId| #[trigger]
            spec_eyes_ids(s).contains(id) <==> space_contains(
                s,
                UID { id, kind: EntityKind::Player },
            ),
        spec_eyes_ids(s).no_duplicates(),
    decreases s.len(),
{
    if s.len() > 0 {
        let prefix = s.drop_last();
        assert(crate::space::space_wf(prefix)) by {
            assert forall|i: int, j: int| 0 <= i < j < prefix.len() implies prefix[i].0
                != prefix[j].0 by {
                assert(s[i].0 != s[j].0);
            };
        };
        lemma_eyes_ids_props(prefix);
        let ids = spec_eyes_ids(s);
        let rest = spec_eyes_ids(prefix);
        let last_id = s.last().0.id;
        assert(ids == rest.push(last_id));
        assert forall|id: EntityId| #[trigger] ids.contains(id) implies space_contains(
            s,
            UID { id, kind: EntityKind::Player },
        ) by {
            let k = choose|k: int| 0 <= k < ids.len() && ids[k] == id;
            if k < rest.len() {
                assert(rest.contains(id));
                let i = choose|i: int|
                    0 <= i < prefix.len() && prefix[i].0 == (UID {
                        id,
                        kind: EntityKind::Player,
                    });
                assert(s[i].0 == (UID { id, kind: EntityKind::Player }));
            } else {
                assert(s[s.len() - 1].0 == (UID { id, kind: EntityKind::Player }));
            }
        };
        assert forall|id: EntityId| space_contains(
            s,
            UID { id, kind: EntityKind::Player },
        ) implies #[trigger] ids.contains(id) by {
            let i = choose|i: int|
                0 <= i < s.len() && s[i].0 == (UID { id, kind: EntityKind::Player });
            if i < s.len() - 1 {
                assert(prefix[i].0 == (UID { id, kind: EntityKind::Player }));
                assert(rest.contains(id));
                let k = choose|k: int| 0 <= k < rest.len() && rest[k] == id;
                assert(ids[k] == id);
            } else {
                assert(ids[ids.len() - 1] == id);
            }
        };
        assert(ids.no_duplicates()) by {
            assert forall|k1: int, k2: int| 0 <= k1 < k2 < ids.len() implies ids[k1]
                != ids[k2] by {
                if k2 == ids.len() - 1 {
                    if ids[k1] == last_id {
                        assert(rest.contains(last_id));
                        let i = choose|i: int|
                            0 <= i < prefix.len() && prefix[i].0 == (UID {
                                id: last_id,
                                kind: EntityKind::Player,
                            });
                        assert(s[i].0 == s[s.len() - 1].0);
                    }
                }
            };
        };
    }
}

/// A handle on one observer-capable entity.
pub enum EyesId {
    Player(EntityId),
}

/// The observer handle for an identity, if its kind can watch.
pub fn as_eyes(uid: UID) -> (r: Option<EyesId>)
    ensures
        match uid.kind {
            EntityKind::Player => r == Some(EyesId::Player(uid.id)),
        },
{
    match uid.kind {
        EntityKind::Player => Some(EyesId::Player(uid.id)),
    }
}

/// The observer capability: the hook an entity kind implements to learn
/// whenever any entity's image changes.
pub trait Eyes {
    /// Delivers one before-and-after image pair to the observer stored
    /// under `id`, which queues exactly one update; an absent observer
    /// hears nothing.
    fn update(
        matter: &mut EntityHeap,
        id: EntityId,
        when: units::Time,
        before: Option<&Image>,
        after: Option<&Image>,
    )
        requires
            old(matter).wf(),
        ensures
            final(matter).wf(),
            final(matter)@.len() == old(matter)@.len(),
            forall|j: int|
                0 <= j < old(matter)@.len() ==> {
                    if old(matter)@[j].0 == (UID { id, kind: EntityKind::Player })
                        && heap_contains(old(matter)@, UID { id, kind: EntityKind::Player }) {
                        notified_entry(
                            old(matter)@[j],
                            #[trigger] final(matter)@[j],
                            Update {
                                when,
                                what: UpdateData::Vision {
                                    before: crate::space::opt_copy(before),
                                    after: crate::space::opt_copy(after),
                                },
                            },
                        )
                    } else {
                        final(matter)@[j] == old(matter)@[j]
                    }
                },
    ;
}

/// Routes a notification to one observer by its handle.
pub fn update(
    id: EyesId,
    time: &EventQueue,
    matter: &mut EntityHeap,
    before: Option<&Image>,
    after: Option<&Image>,
)
    requires
        old(matter).wf(),
    ensures
        final(matter).wf(),
        final(matter)@.len() == old(matter)@.len(),
        match id {
            EyesId::Player(pid) => forall|j: int|
                0 <= j < old(matter)@.len() ==> {
                    if old(matter)@[j].0 == (UID { id: pid, kind: EntityKind::Player })
                        && heap_contains(old(matter)@, UID { id: pid, kind: EntityKind::Player }) {
                        notified_entry(
                            old(matter)@[j],
                            #[trigger] final(matter)@[j],
                            Update {
                                when: time.spec_now(),
                                what: UpdateData::Vision {
                                    before: crate::space::opt_copy(before),
                                    after: crate::space::opt_copy(after),
                                },
                            },
                        )
                    } else {
                        final(matter)@[j] == old(matter)@[j]
                    }
                },
        },
{
    match id {
        EyesId::Player(pid) => {
            let when: units::Time = time.now();
            <Player as Eyes>::update(matter, pid, when, before, after);
        },
    }
}

impl Entry {
    /// The identity this scope is bound to.
    pub open spec fn spec_uid(&self) -> UID {
        self.uid
    }

    /// The image captured when the scope was opened.
    pub open spec fn spec_before(&self) -> Option<Image> {
        self.before
    }

    /// The entity this scope is bound to, if it lives in the store.
    pub fn get<'a>(&self, matter: &'a EntityHeap) -> (r: Option<&'a Player>)
        requires
            matter.wf(),
        ensures
            match r {
                Some(p) => heap_contains(matter@, self.spec_uid()) && Entity::Player(*p)
                    == crate::sulphate::heap_at(matter@, self.spec_uid()),
                None => !heap_contains(matter@, self.spec_uid()),
            },
    {
        match self.uid.kind {
            EntityKind::Player => matter.get_player(self.uid.id),
        }
    }

    /// Mutable access to the entity this scope is bound to.
    pub fn get_mut<'a>(&self, matter: &'a mut EntityHeap) -> (r: Option<&'a mut Player>)
        requires
            old(matter).wf(),
        ensures
            match r {
                Some(p) => {
                    &&& heap_contains(old(matter)@, self.spec_uid())
                    &&& Entity::Player(*p) == crate::sulphate::heap_at(
                        old(matter)@,
                        self.spec_uid(),
                    )
                    &&& final(matter)@ == old(matter)@.update(
                        heap_index_of(old(matter)@, self.spec_uid()),
                        (self.spec_uid(), Entity::Player(*final(p))),
                    )
                    &&& final(matter).wf()
                },
                None => {
                    &&& final(matter)@ == old(matter)@
                    &&& !heap_contains(old(matter)@, self.spec_uid())
                    &&& final(matter).wf()
                },
            },
    {
        match self.uid.kind {
            EntityKind::Player => matter.get_player_mut(self.uid.id),
        }
    }

    /// The current simulation time, for code holding the scope.
    pub fn now(&self, time: &EventQueue) -> (r: units::Time)
        ensures
            r == time.spec_now(),
    {
        time.now()
    }

    /// The image this scope would commit if released now.
    pub fn image(&self, matter: &EntityHeap) -> (r: Option<Image>)
        requires
            matter.wf(),
        ensures
            r == spec_entry_image(*self, matter@),
    {
        match self.body {
            Some(body) => match crate::entities::image_of(matter, self.uid) {
                Some(inner_image) => Some(Image { inner_image, body }),
                None => None,
            },
            None => None,
        }
    }

    /// Closes the scope: recomputes the image, drives the index update,
    /// and, when the image changed, notifies every observer exactly
    /// once.  This is the sole path by which the collision index and the
    /// event schedule change on behalf of gameplay.
    pub fn release(self, space: &mut CollisionSpace, time: &mut EventQueue, matter: &mut EntityHeap)
        requires
            old(space).wf(),
            old(matter).wf(),
            (space_contains(old(space).spec_contents(), self.spec_uid()) || crate::space::partners_of(
                old(space).spec_contacts(),
                self.spec_uid(),
            ).len() > 0) ==> self.spec_before() is Some,
        ensures
            final(space).wf(),
            final(matter).wf(),
            final(time).spec_now() == old(time).spec_now(),
            (
                final(space).spec_contents(),
                final(space).spec_contacts(),
                final(time).spec_pending(),
            ) == crate::space::spec_update_physics(
                old(space).spec_contents(),
                old(space).spec_contacts(),
                old(time).spec_pending(),
                old(matter)@,
                old(time).spec_now(),
                self.spec_uid(),
                spec_entry_image(self, old(matter)@),
                self.spec_before(),
            ),
            opt_image_equiv(self.spec_before(), spec_entry_image(self, old(matter)@))
                ==> final(matter)@ == old(matter)@,
            !opt_image_equiv(self.spec_before(), spec_entry_image(self, old(matter)@)) ==> {
                &&& final(matter)@.len() == old(matter)@.len()
                &&& forall|j: int|
                    0 <= j < old(matter)@.len() ==> {
                        if old(matter)@[j].0.kind == EntityKind::Player && space_contains(
                            final(space).spec_contents(),
                            old(matter)@[j].0,
                        ) {
                            notified_entry(
                                old(matter)@[j],
                                #[trigger] final(matter)@[j],
                                Update {
                                    when: old(time).spec_now(),
                                    what: UpdateData::Vision {
                                        before: self.spec_before(),
                                        after: spec_entry_image(self, old(matter)@),
                                    },
                                },
                            )
                        } else {
                            final(matter)@[j] == old(matter)@[j]
                        }
                    }
            },
    {
        let after: Option<Image> = self.image(matter);
        update_physics(space, time, matter, self.uid, after.as_ref(), self.before.as_ref());

        if !image_opt_eq(&self.before, &after) {
            let before_ref: Option<&Image> = self.before.as_ref();
            let after_ref: Option<&Image> = after.as_ref();
            let ghost base: Seq<(UID, Entity)> = matter@;
            let ghost upd: Update = Update {
                when: time.spec_now(),
                what: UpdateData::Vision { before: self.before, after },
            };
            proof {
                lemma_eyes_ids_props(space.spec_contents());
                assert(crate::space::opt_copy(before_ref) == self.before);
                assert(crate::space::opt_copy(after_ref) == after);
            }

            let n: usize = space.len();
            let mut vision_ids: Vec<EntityId> = Vec::new();
            let mut i: usize = 0;
            while i < n
                invariant
                    0 <= i <= n,
                    space.wf(),
                    n == space.spec_contents().len(),
                    vision_ids@ == spec_eyes_ids(space.spec_contents().take(i as int)),
                decreases n - i,
            {
                let entry_uid: UID = space.uid_at(i);
                proof {
                    assert(space.spec_contents().take(i + 1).drop_last()
                        == space.spec_contents().take(i as int));
                    assert(space.spec_contents().take(i + 1).last()
                        == space.spec_contents()[i as int]);
                }
                match as_eyes(entry_uid) {
                    Some(EyesId::Player(pid)) => {
                        vision_ids.push(pid);
                    },
                    None => (),
                }
                i = i + 1;
            }
            proof {
                assert(space.spec_contents().take(n as int) == space.spec_contents());
            }

            let m: usize = vision_ids.len();
            let mut k: usize = 0;
            while k < m
                invariant
                    0 <= k <= m,
                    matter.wf(),
                    m == vision_ids@.len(),
                    vision_ids@ == spec_eyes_ids(space.spec_contents()),
                    vision_ids@.no_duplicates(),
                    forall|id: EntityId| #[trigger]
                        spec_eyes_ids(space.spec_contents()).contains(id) <==> space_contains(
                            space.spec_contents(),
                            UID { id, kind: EntityKind::Player },
                        ),
                    time.spec_now() == upd.when,
                    crate::space::opt_copy(before_ref) == self.before,
                    crate::space::opt_copy(after_ref) == after,
                    upd.what == (UpdateData::Vision { before: self.before, after }),
                    matter@.len() == base.len(),
                    forall|j: int|
                        0 <= j < base.len() ==> {
                            if base[j].0.kind == EntityKind::Player && vision_ids@.take(
                                k as int,
                            ).contains(base[j].0.id) {
                                notified_entry(base[j], #[trigger] matter@[j], upd)
                            } else {
                                matter@[j] == base[j]
                            }
                        },
                decreases m - k,
            {
                let pid: EntityId = vision_ids[k];
                let ghost prev: Seq<(UID, Entity)> = matter@;
                update(EyesId::Player(pid), time, matter, before_ref, after_ref);
                proof {
                    let tuid = UID { id: pid, kind: EntityKind::Player };
                    assert(vision_ids@.take(k + 1).drop_last() == vision_ids@.take(k as int));
                    assert(vision_ids@.take(k + 1).last() == vision_ids@[k as int]);
                    assert(!vision_ids@.take(k as int).contains(pid)) by {
                        if vision_ids@.take(k as int).contains(pid) {
                            let k0 = choose|k0: int|
                                0 <= k0 < k && vision_ids@.take(k as int)[k0] == pid;
                            assert(vision_ids@[k0] == pid && vision_ids@[k as int] == pid);
                        }
                    };
                    assert forall|j: int| 0 <= j < base.len() implies {
                        if base[j].0.kind == EntityKind::Player && vision_ids@.take(
                            k + 1,
                        ).contains(base[j].0.id) {
                            notified_entry(base[j], #[trigger] matter@[j], upd)
                        } else {
                            matter@[j] == base[j]
                        }
                    } by {
                        let jid = base[j].0.id;
                        assert(vision_ids@.take(k + 1).contains(jid) == (vision_ids@.take(
                            k as int,
                        ).contains(jid) || jid == pid)) by {
                            if vision_ids@.take(k as int).contains(jid) {
                                let k0 = choose|k0: int|
                                    0 <= k0 < k && vision_ids@.take(k as int)[k0] == jid;
                                assert(vision_ids@.take(k + 1)[k0] == jid);
                            }
                            if jid == pid {
                                assert(vision_ids@.take(k + 1)[k as int] == jid);
                            }
                            let taken = vision_ids@.take(k + 1);
                            if taken.contains(jid) {
                                let k0 = choose|k0: int| 0 <= k0 < taken.len() && taken[k0] == jid;
                                if k0 < k {
                                    assert(vision_ids@.take(k as int)[k0] == jid);
                                } else {
                                    assert(jid == pid);
                                }
                            }
                        };
                        assert(prev[j].0 == base[j].0);
                        if prev[j].0 == tuid && heap_contains(prev, tuid) {
                            assert(prev[j] == base[j]);
                            let upd2 = Update {
                                when: time.spec_now(),
                                what: UpdateData::Vision {
                                    before: crate::space::opt_copy(before_ref),
                                    after: crate::space::opt_copy(after_ref),
                                },
                            };
                            assert(notified_entry(prev[j], matter@[j], upd2));
                            assert(upd2 == upd);
                            assert(notified_entry(base[j], matter@[j], upd));
                        } else {
                            assert(matter@[j] == prev[j]);
                            if base[j].0.kind == EntityKind::Player && vision_ids@.take(
                                k as int,
                            ).contains(jid) {
                            } else {
                                assert(prev[j] == base[j]);
                                if base[j].0.kind == EntityKind::Player && jid == pid {
                                    assert(prev[j].0 == tuid);
                                    assert(heap_contains(prev, tuid));
                                }
                            }
                        }
                    };
                }
                k = k + 1;
            }
            proof {
                assert(vision_ids@.take(m as int) == vision_ids@);
            }
        }
    }
}

/// The collision capability: the hooks an entity kind implements to be
/// told when another body moves into it, out of it, or vanishes while
/// touching it.  Each hook owns the scope it is handed and must release
/// it before returning.
pub trait Collide {
    /// Another body moved or appeared into this entity.
    fn collide(
        this: Entry,
        space: &mut CollisionSpace,
        time: &mut EventQueue,
        matter: &mut EntityHeap,
        other: Image,
    )
        requires
            old(space).wf(),
            old(matter).wf(),
            this.spec_before() is Some,
        ensures
            final(space).wf(),
            final(matter).wf(),
            final(time).spec_now() == old(time).spec_now(),
    ;

    /// Another body moved out of this entity.
    fn release(
        this: Entry,
        space: &mut CollisionSpace,
        time: &mut EventQueue,
        matter: &mut EntityHeap,
        other: Image,
    )
        requires
            old(space).wf(),
            old(matter).wf(),
            this.spec_before() is Some,
        ensures
            final(space).wf(),
            final(matter).wf(),
            final(time).spec_now() == old(time).spec_now(),
    ;

    /// Another body vanished while touching this entity.
    fn disappear(
        this: Entry,
        space: &mut CollisionSpace,
        time: &mut EventQueue,
        matter: &mut EntityHeap,
        other: Image,
    )
        requires
            old(space).wf(),
            old(matter).wf(),
            this.spec_before() is Some,
        ensures
            final(space).wf(),
            final(matter).wf(),
            final(time).spec_now() == old(time).spec_now(),
    ;
}

} // verus!
