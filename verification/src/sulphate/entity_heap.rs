use vstd::prelude::*;

use crate::entities::Entity;
use crate::entities::EntityKind;
use crate::entities::Player;
use crate::entities::kind_of;

verus! {

/// An entity's full identity: its number together with its kind tag.
#[derive(Clone, Copy, PartialEq, Eq, Structural, Hash, Debug)]
pub struct UID {
    pub id: u64,
    pub kind: EntityKind,
}

/// Whether some entry of the association list carries this identity.
pub open spec fn heap_contains(s: Seq<(UID, Entity)>, uid: UID) -> bool {
    exists|i: int| 0 <= i < s.len() && s[i].0 == uid
}

/// The position of this identity in the list; meaningful only where the
/// list is well formed and the identity present.
pub open spec fn heap_index_of(s: Seq<(UID, Entity)>, uid: UID) -> int {
    choose|i: int| 0 <= i < s.len() && s[i].0 == uid
}

/// The entity stored under this identity; meaningful only where the list
/// is well formed and the identity present.
pub open spec fn heap_at(s: Seq<(UID, Entity)>, uid: UID) -> Entity {
    s[heap_index_of(s, uid)].1
}

/// Well-formedness of the store: one entry per identity, each entity filed
/// under its own kind.
pub open spec fn heap_wf(s: Seq<(UID, Entity)>) -> bool {
    &&& forall|i: int, j: int| 0 <= i < j < s.len() ==> s[i].0 != s[j].0
    &&& forall|i: int| 0 <= i < s.len() ==> s[i].0.kind == kind_of(#[trigger] s[i].1)
}

/// Owns every live entity, keyed by identity.  A heap in the memory sense,
/// not the queue sense.
pub struct EntityHeap {
    content: Vec<(UID, Entity)>,
}

/// Relies on rand::random: an arbitrary unsigned 64-bit value, used only
/// to seed the search for an unused entity number.
#[verifier::external_body]
fn random_u64() -> u64 {
    rand::random::<u64>()
}

impl View for EntityHeap {
    type V = Seq<(UID, Entity)>;

    closed spec fn view(&self) -> Seq<(UID, Entity)> {
        self.content@
    }
}

impl EntityHeap {
    /// Whether the store is well formed; every operation preserves this.
    pub open spec fn wf(&self) -> bool {
        heap_wf(self@)
    }

    /// An empty store.
    pub fn new() -> (r: EntityHeap)
        ensures
            r@ == Seq::<(UID, Entity)>::empty(),
            r.wf(),
    {
        EntityHeap { content: Vec::new() }
    }

    /// The position of an identity in the store, if it is present.
    fn position_of(&self, uid: UID) -> (r: Option<usize>)
        requires
            self.wf(),
        ensures
            match r {
                Some(i) => 0 <= i < self@.len() && self@[i as int].0 == uid,
                None => !heap_contains(self@, uid),
            },
    {
        let n: usize = self.content.len();
        let mut i: usize = 0;
        while i < n
            invariant
                0 <= i <= n,
                n == self@.len(),
                forall|j: int| 0 <= j < i ==> self@[j].0 != uid,
            decreases n - i,
        {
            if self.content[i].0 == uid {
                return Some(i);
            }
            i = i + 1;
        }
        None
    }

    /// The entity filed under this identity, if any.
    pub fn get(&self, uid: UID) -> (r: Option<&Entity>)
        requires
            self.wf(),
        ensures
            match r {
                Some(e) => heap_contains(self@, uid) && *e == heap_at(self@, uid),
                None => !heap_contains(self@, uid),
            },
    {
        match self.position_of(uid) {
            Some(i) => Some(&self.content[i].1),
            None => None,
        }
    }

    /// An unused entity number of the given kind.  The search starts from
    /// a random seed and probes upward; among `len + 1` distinct
    /// candidates at least one must be free.
    fn fresh_id(&self, kind: EntityKind, seed: u64) -> (id: u64)
        requires
            self.wf(),
            self@.len() < usize::MAX,
        ensures
            !heap_contains(self@, UID { id, kind }),
    {
        let n: usize = self.content.len();
        let mut i: usize = 0;
        while i <= n
            invariant
                0 <= i <= n + 1,
                n == self@.len(),
                n < usize::MAX,
                self.wf(),
                forall|j: int| 0 <= j < i ==> #[trigger] heap_contains(
                    self@,
                    UID { id: vstd::wrapping::u64_specs::wrapping_add(seed, j as u64), kind },
                ),
            decreases n + 1 - i,
        {
            let cand: u64 = seed.wrapping_add(i as u64);
            if self.position_of(UID { id: cand, kind }).is_none() {
                return cand;
            }
            i = i + 1;
        }
        proof {
            let s = self@;
            let ni: int = n as int;
            let cand = |j: int|
                UID { id: vstd::wrapping::u64_specs::wrapping_add(seed, j as u64), kind };
            let idx = Seq::new(
                (ni + 1) as nat,
                |j: int| choose|i: int| 0 <= i < s.len() && s[i].0 == cand(j),
            );
            assert forall|j: int| 0 <= j <= ni implies 0 <= #[trigger] idx[j] < ni && s[idx[j]].0
                == cand(j) by {
                assert(heap_contains(s, cand(j)));
            };
            assert forall|j1: int, j2: int| 0 <= j1 < j2 <= ni implies idx[j1] != idx[j2] by {
                assert(cand(j1).id != cand(j2).id);
                assert(s[idx[j1]].0 == cand(j1) && s[idx[j2]].0 == cand(j2));
            };
            assert(idx.no_duplicates());
            idx.unique_seq_to_set();
            let range = vstd::set_lib::set_int_range(0, ni);
            vstd::set_lib::lemma_int_range(0, ni);
            assert(idx.to_set().subset_of(range)) by {
                assert forall|v: int| idx.to_set().contains(v) implies range.contains(v) by {
                    let j = choose|j: int| 0 <= j < idx.len() && idx[j] == v;
                    assert(0 <= idx[j] < ni);
                };
            };
            vstd::set_lib::lemma_len_subset(idx.to_set(), range);
        }
        vstd::pervasive::unreached()
    }

    /// Files a new entity under a fresh identity of its own kind and
    /// returns the number chosen for it.
    pub fn add(&mut self, v: Entity) -> (id: u64)
        requires
            old(self).wf(),
            old(self)@.len() < usize::MAX,
        ensures
            final(self).wf(),
            !heap_contains(old(self)@, UID { id, kind: kind_of(v) }),
            final(self)@ == old(self)@.push((UID { id, kind: kind_of(v) }, v)),
    {
        let kind: EntityKind = crate::entities::kind_of_entity(&v);
        let seed: u64 = random_u64();
        let id: u64 = self.fresh_id(kind, seed);
        let uid: UID = UID { id, kind };
        self.content.push((uid, v));
        proof {
            assert forall|i: int, j: int| 0 <= i < j < self@.len() implies self@[i].0
                != self@[j].0 by {
                if j == self@.len() - 1 {
                    assert(heap_contains(old(self)@, self@[i].0) || !heap_contains(
                        old(self)@,
                        self@[j].0,
                    ));
                }
            };
        }
        id
    }


    /// The player stored under this number, if one is.
    pub fn get_player(&self, id: u64) -> (r: Option<&Player>)
        requires
            self.wf(),
        ensures
            match r {
                Some(p) => {
                    &&& heap_contains(self@, UID { id, kind: EntityKind::Player })
                    &&& Entity::Player(*p) == heap_at(self@, UID { id, kind: EntityKind::Player })
                },
                None => !heap_contains(self@, UID { id, kind: EntityKind::Player }),
            },
    {
        match self.get(UID { id, kind: EntityKind::Player }) {
            Some(e) => match e {
                Entity::Player(p) => Some(p),
            },
            None => None,
        }
    }

    /// Mutable access to the player stored under this number, if one is.
    /// Whatever the caller writes through the reference, the store keeps
    /// its shape: same identities, only this player's state changed.
    pub fn get_player_mut(&mut self, id: u64) -> (r: Option<&mut Player>)
        requires
            old(self).wf(),
        ensures
            match r {
                Some(p) => {
                    &&& heap_contains(old(self)@, UID { id, kind: EntityKind::Player })
                    &&& Entity::Player(*p) == heap_at(
                        old(self)@,
                        UID { id, kind: EntityKind::Player },
                    )
                    &&& final(self)@ == old(self)@.update(
                        heap_index_of(old(self)@, UID { id, kind: EntityKind::Player }),
                        (UID { id, kind: EntityKind::Player }, Entity::Player(*final(p))),
                    )
                    &&& final(self).wf()
                },
                None => {
                    &&& final(self)@ == old(self)@
                    &&& !heap_contains(old(self)@, UID { id, kind: EntityKind::Player })
                    &&& final(self).wf()
                },
            },
    {
        let uid: UID = UID { id, kind: EntityKind::Player };
        match self.position_of(uid) {
            Some(i) => {
                proof {
                    let w = heap_index_of(self@, uid);
                    assert(self@[i as int].0 == uid);
                    if w != i {
                        assert(self@[w].0 == uid);
                    }
                }
                let entry: &mut (UID, Entity) = &mut self.content[i];
                match &mut entry.1 {
                    Entity::Player(p) => Some(p),
                }
            },
            None => None,
        }
    }

    /// Unfiles and returns the entity under this identity, if any.
    pub fn remove(&mut self, uid: UID) -> (r: Option<Entity>)
        requires
            old(self).wf(),
        ensures
            final(self).wf(),
            match r {
                Some(e) => {
                    &&& heap_contains(old(self)@, uid)
                    &&& e == heap_at(old(self)@, uid)
                    &&& exists|i: int|
                        {
                            &&& 0 <= i < old(self)@.len()
                            &&& old(self)@[i].0 == uid
                            &&& final(self)@ == old(self)@.remove(i)
                        }
                },
                None => final(self)@ == old(self)@ && !heap_contains(old(self)@, uid),
            },
    {
        match self.position_of(uid) {
            Some(i) => {
                let pair: (UID, Entity) = self.content.remove(i);
                proof {
                    let s = old(self)@;
                    assert(heap_at(s, uid) == pair.1) by {
                        let w = choose|k: int| 0 <= k < s.len() && s[k].0 == uid;
                        assert(s[w].0 == uid && s[i as int].0 == uid);
                    };
                }
                Some(pair.1)
            },
            None => None,
        }
    }
}

} // verus!
