use vstd::prelude::*;

use crate::graphics::camera::Camera;
use crate::graphics::mesh::Mesh;

verus! {

broadcast use vstd::seq_lib::group_seq_properties;

/// A 128-bit object identifier: 64 random bits drawn when the object is
/// inserted, and a 64-bit sequence number. The sequence number alone makes
/// every identifier a scene ever mints distinct — it is never reused, not
/// even after a removal; the random half keeps identifiers of different
/// scenes and different runs apart in practice.
#[derive(Clone, Copy, Debug, PartialEq, Eq, Structural, Hash)]
pub struct Identifier {
    pub entropy: u64,
    pub seq: u64,
}

/// Anything a scene may hold and have drawn.
pub trait SceneObject {

}

impl SceneObject for Mesh {

}

/// Fresh randomness for the entropy half of an identifier. Uniqueness never
/// rests on it — the sequence half alone guarantees that — so nothing is
/// assumed about the value.
/// Relies on uuid::Uuid::new_v4, which draws a fresh random UUID; the leading
/// 64 bits are kept.
#[verifier::external_body]
fn fresh_entropy() -> u64 {
    uuid::Uuid::new_v4().as_u64_pair().0
}

/// The identifiers of an association list, in storage order.
pub open spec fn ids_of<T>(s: Seq<(Identifier, T)>) -> Seq<Identifier> {
    s.map_values(|p: (Identifier, T)| p.0)
}

/// The position of the entry carrying `id`; meaningful when the identifiers
/// are distinct and `id` is among them.
pub open spec fn key_index_of<T>(s: Seq<(Identifier, T)>, id: Identifier) -> int {
    choose|k: int| 0 <= k < s.len() && s[k].0 == id
}

/// The association list read as a map from identifier to object.
pub open spec fn registry_of<T>(s: Seq<(Identifier, T)>) -> Map<Identifier, T> {
    Map::new(|id: Identifier| ids_of(s).contains(id), |id: Identifier| s[key_index_of(s, id)].1)
}

/// An identity-keyed registry of drawable objects together with the one
/// camera the scene is rendered through. Identifiers are minted fresh at
/// insertion and never reused: each carries the scene's strictly increasing
/// sequence counter.
pub struct Scene<T: SceneObject> {
    objects: Vec<(Identifier, T)>,
    camera: Camera,
    next_seq: u64,
}

impl<T: SceneObject> Scene<T> {
    /// The stored identifiers, oldest first.
    pub closed spec fn ids(self) -> Seq<Identifier> {
        ids_of(self.objects@)
    }

    /// The registry: which object each live identifier names.
    pub closed spec fn registry(self) -> Map<Identifier, T> {
        registry_of(self.objects@)
    }

    /// The sequence counter the next minted identifier will carry.
    pub closed spec fn counter(self) -> u64 {
        self.next_seq
    }

    /// The scene's camera.
    pub closed spec fn spec_camera(self) -> Camera {
        self.camera
    }

    /// Every stored identifier is distinct and carries a sequence number the
    /// counter has already passed, so no future identifier can collide.
    #[verifier::type_invariant]
    closed spec fn wf(self) -> bool {
        &&& self.ids().no_duplicates()
        &&& forall|k: int| 0 <= k < self.ids().len() ==> (#[trigger] self.ids()[k]).seq
            < self.next_seq
    }

    /// An empty scene rendered through `camera`.
    pub fn new(camera: Camera) -> (s: Scene<T>)
        ensures
            s.registry() == Map::<Identifier, T>::empty(),
            s.ids() == Seq::<Identifier>::empty(),
            s.counter() == 0,
            s.spec_camera() == camera,
    {
        let s = Scene { objects: Vec::new(), camera, next_seq: 0 };
        proof {
            assert(s.ids() =~= Seq::<Identifier>::empty());
            assert(s.registry() =~= Map::<Identifier, T>::empty());
        }
        s
    }

    /// Whether another object can still be inserted: the sequence counter has
    /// not been exhausted. Unverified hosts test this before `add_object`.
    pub fn can_add(&self) -> (b: bool)
        ensures
            b <==> self.counter() < u64::MAX,
    {
        self.next_seq < u64::MAX
    }

    /// Stores `obj` under a freshly minted identifier and returns the
    /// identifier. The identifier was not in the registry before the call,
    /// its sequence half is the scene's counter, and the counter moves past
    /// it, so no later insertion can return it again.
    pub fn add_object(&mut self, obj: T) -> (id: Identifier)
        requires
            old(self).counter() < u64::MAX,
        ensures
            id.seq == old(self).counter(),
            !old(self).registry().dom().contains(id),
            final(self).registry() == old(self).registry().insert(id, obj),
            final(self).ids() == old(self).ids().push(id),
            final(self).counter() == old(self).counter() + 1,
            final(self).spec_camera() == old(self).spec_camera(),
    {
        proof {
            use_type_invariant(&*self);
        }
        let id = Identifier { entropy: fresh_entropy(), seq: self.next_seq };
        proof {
            assert(!old(self).ids().contains(id)) by {
                if old(self).ids().contains(id) {
                    let k = choose|k: int|
                        0 <= k < old(self).ids().len() && old(self).ids()[k] == id;
                }
            }
            assert(!old(self).registry().dom().contains(id));
        }
        let ghost pre = self.objects@;
        let mut objects: Vec<(Identifier, T)> = Vec::new();
        core::mem::swap(&mut objects, &mut self.objects);
        proof {
            assert(self.ids() =~= Seq::<Identifier>::empty());
        }
        objects.push((id, obj));
        self.next_seq = self.next_seq + 1;
        proof {
            lemma_registry_push(pre, id, obj);
        }
        self.objects = objects;
        id
    }

    /// Removes and returns the object `id` names, or reports absence — a
    /// normal outcome, not an error. The rest of the registry, the camera and
    /// the counter stay as they were, so a removed identifier is never minted
    /// again.
    pub fn remove_object(&mut self, id: &Identifier) -> (r: Option<T>)
        ensures
            old(self).registry().dom().contains(*id) ==> (r matches Some(obj)
                && obj == old(self).registry()[*id]),
            !old(self).registry().dom().contains(*id) ==> r is None,
            final(self).registry() == old(self).registry().remove(*id),
            final(self).counter() == old(self).counter(),
            final(self).spec_camera() == old(self).spec_camera(),
    {
        proof {
            use_type_invariant(&*self);
        }
        let ghost pre = self.objects@;
        let mut j: usize = 0;
        while j < self.objects.len()
            invariant
                j <= self.objects@.len(),
                self.objects@ == pre,
                pre == old(self).objects@,
                self.camera == old(self).camera,
                self.next_seq == old(self).next_seq,
                forall|k: int| 0 <= k < j ==> (#[trigger] pre[k]).0 != *id,
            decreases self.objects@.len() - j,
        {
            if self.objects[j].0 == *id {
                proof {
                    use_type_invariant(&*self);
                }
                let mut objects: Vec<(Identifier, T)> = Vec::new();
                core::mem::swap(&mut objects, &mut self.objects);
                let entry = objects.remove(j);
                proof {
                    lemma_registry_remove(pre, j as int, *id);
                    let ids2 = ids_of(pre).remove(j as int);
                    assert forall|k: int| 0 <= k < ids2.len() implies (#[trigger] ids2[k]).seq
                        < self.next_seq by {
                        if k < j {
                            assert(ids2[k] == ids_of(pre)[k]);
                        } else {
                            assert(ids2[k] == ids_of(pre)[k + 1]);
                        }
                    }
                }
                self.objects = objects;
                return Some(entry.1);
            }
            j = j + 1;
        }
        proof {
            assert(!ids_of(pre).contains(*id)) by {
                if ids_of(pre).contains(*id) {
                    let k = choose|k: int| 0 <= k < ids_of(pre).len() && ids_of(pre)[k] == *id;
                    assert(pre[k].0 == *id);
                }
            }
            assert(!old(self).registry().dom().contains(*id));
            assert(self.registry() =~= old(self).registry().remove(*id));
        }
        None
    }

    /// Borrows the object `id` names, when the registry holds it.
    pub fn get(&self, id: &Identifier) -> (r: Option<&T>)
        ensures
            self.registry().dom().contains(*id) ==> (r matches Some(obj) && *obj
                == self.registry()[*id]),
            !self.registry().dom().contains(*id) ==> r is None,
    {
        proof {
            use_type_invariant(&*self);
        }
        let mut j: usize = 0;
        while j < self.objects.len()
            invariant
                j <= self.objects@.len(),
                forall|k: int| 0 <= k < j ==> (#[trigger] self.objects@[k]).0 != *id,
            decreases self.objects@.len() - j,
        {
            if self.objects[j].0 == *id {
                proof {
                    use_type_invariant(&*self);
                    lemma_registry_at(self.objects@, j as int);
                }
                return Some(&self.objects[j].1);
            }
            j = j + 1;
        }
        proof {
            assert(!ids_of(self.objects@).contains(*id)) by {
                if ids_of(self.objects@).contains(*id) {
                    let k = choose|k: int|
                        0 <= k < ids_of(self.objects@).len() && ids_of(self.objects@)[k] == *id;
                    assert(self.objects@[k].0 == *id);
                }
            }
        }
        None
    }

    /// How many objects the registry holds.
    pub fn len(&self) -> (n: usize)
        ensures
            n == self.ids().len(),
    {
        self.objects.len()
    }

    /// Borrows the object at storage position `k`; rendering hosts walk the
    /// registry with it. The walk order carries no meaning.
    pub fn object_at(&self, k: usize) -> (r: &T)
        requires
            k < self.ids().len(),
        ensures
            *r == self.registry()[self.ids()[k as int]],
    {
        proof {
            use_type_invariant(&*self);
            lemma_registry_at(self.objects@, k as int);
        }
        &self.objects[k].1
    }

    /// Borrows the camera the scene is rendered through.
    pub fn camera(&self) -> (c: &Camera)
        ensures
            *c == self.spec_camera(),
    {
        &self.camera
    }
}

/// Pushing an entry with a fresh identifier inserts it into the registry map.
proof fn lemma_registry_push<T>(s: Seq<(Identifier, T)>, id: Identifier, obj: T)
    requires
        ids_of(s).no_duplicates(),
        !ids_of(s).contains(id),
    ensures
        ids_of(s.push((id, obj))) == ids_of(s).push(id),
        registry_of(s.push((id, obj))) == registry_of(s).insert(id, obj),
{
    let s2 = s.push((id, obj));
    assert(ids_of(s2) =~= ids_of(s).push(id));
    assert forall|x: Identifier| #[trigger]
        registry_of(s2).dom().contains(x) == registry_of(s).insert(id, obj).dom().contains(
        x,
    ) by {
        assert(ids_of(s2).contains(x) <==> ids_of(s).contains(x) || x == id);
    }
    assert forall|x: Identifier| registry_of(s2).dom().contains(x) implies registry_of(s2)[x]
        == registry_of(s).insert(id, obj)[x] by {
        let k = key_index_of(s2, x);
        assert(ids_of(s2).contains(x));
        assert(0 <= k < s2.len() && s2[k].0 == x) by {
            let w = choose|w: int| 0 <= w < ids_of(s2).len() && ids_of(s2)[w] == x;
            assert(s2[w].0 == x);
        }
        if x == id {
            assert(k == s.len()) by {
                if k < s.len() {
                    assert(ids_of(s)[k] == x);
                    assert(ids_of(s).contains(id));
                }
            }
            assert(registry_of(s2)[x] == obj);
        } else {
            assert(k < s.len());
            assert(ids_of(s).contains(x)) by {
                assert(ids_of(s)[k] == x);
            }
            let k1 = key_index_of(s, x);
            assert(0 <= k1 < s.len() && s[k1].0 == x) by {
                let w = choose|w: int| 0 <= w < ids_of(s).len() && ids_of(s)[w] == x;
                assert(s[w].0 == x);
            }
            assert(k == k1) by {
                assert(ids_of(s)[k] == x && ids_of(s)[k1] == x);
            }
        }
    }
    assert(registry_of(s2) =~= registry_of(s).insert(id, obj));
}

/// With distinct identifiers, the entry at a position is what the registry
/// map yields for its identifier.
proof fn lemma_registry_at<T>(s: Seq<(Identifier, T)>, j: int)
    requires
        ids_of(s).no_duplicates(),
        0 <= j < s.len(),
    ensures
        registry_of(s).dom().contains(s[j].0),
        registry_of(s)[s[j].0] == s[j].1,
{
    let id = s[j].0;
    assert(ids_of(s)[j] == id);
    assert(ids_of(s).contains(id));
    let k = key_index_of(s, id);
    assert(0 <= k < s.len() && s[k].0 == id) by {
        let w = choose|w: int| 0 <= w < ids_of(s).len() && ids_of(s)[w] == id;
        assert(s[w].0 == id);
    }
    assert(k == j) by {
        assert(ids_of(s)[k] == id && ids_of(s)[j] == id);
    }
}

/// Removing the entry that carries `id` removes exactly `id` from the
/// registry map.
proof fn lemma_registry_remove<T>(s: Seq<(Identifier, T)>, j: int, id: Identifier)
    requires
        ids_of(s).no_duplicates(),
        0 <= j < s.len(),
        s[j].0 == id,
    ensures
        ids_of(s.remove(j)) == ids_of(s).remove(j),
        ids_of(s.remove(j)).no_duplicates(),
        registry_of(s.remove(j)) == registry_of(s).remove(id),
        registry_of(s).dom().contains(id),
        registry_of(s)[id] == s[j].1,
{
    lemma_registry_at(s, j);
    let s2 = s.remove(j);
    assert(ids_of(s2) =~= ids_of(s).remove(j));
    assert(ids_of(s).remove(j).no_duplicates());
    assert forall|x: Identifier| #[trigger]
        registry_of(s2).dom().contains(x) == registry_of(s).remove(id).dom().contains(x) by {
        if x == id {
            assert(!ids_of(s2).contains(x)) by {
                if ids_of(s2).contains(x) {
                    let w = choose|w: int| 0 <= w < ids_of(s2).len() && ids_of(s2)[w] == x;
                    let worig = if w < j {
                        w
                    } else {
                        w + 1
                    };
                    assert(ids_of(s)[worig] == x);
                    assert(ids_of(s)[j] == id);
                }
            }
        } else {
            assert(ids_of(s2).contains(x) <==> ids_of(s).contains(x)) by {
                if ids_of(s2).contains(x) {
                    let w = choose|w: int| 0 <= w < ids_of(s2).len() && ids_of(s2)[w] == x;
                    let worig = if w < j {
                        w
                    } else {
                        w + 1
                    };
                    assert(ids_of(s)[worig] == x);
                }
                if ids_of(s).contains(x) {
                    let w = choose|w: int| 0 <= w < ids_of(s).len() && ids_of(s)[w] == x;
                    assert(w != j);
                    let wnew = if w < j {
                        w
                    } else {
                        w - 1
                    };
                    assert(ids_of(s2)[wnew] == x);
                }
            }
        }
    }
    assert forall|x: Identifier| registry_of(s2).dom().contains(x) implies registry_of(s2)[x]
        == registry_of(s).remove(id)[x] by {
        let k = key_index_of(s2, x);
        assert(ids_of(s2).contains(x));
        assert(0 <= k < s2.len() && s2[k].0 == x) by {
            let w = choose|w: int| 0 <= w < ids_of(s2).len() && ids_of(s2)[w] == x;
            assert(s2[w].0 == x);
        }
        let korig = if k < j {
            k
        } else {
            k + 1
        };
        assert(s[korig] == s2[k]);
        assert(ids_of(s).contains(x)) by {
            assert(ids_of(s)[korig] == x);
        }
        let k1 = key_index_of(s, x);
        assert(0 <= k1 < s.len() && s[k1].0 == x) by {
            let w = choose|w: int| 0 <= w < ids_of(s).len() && ids_of(s)[w] == x;
            assert(s[w].0 == x);
        }
        assert(k1 == korig) by {
            assert(ids_of(s)[k1] == x && ids_of(s)[korig] == x);
        }
    }
    assert(registry_of(s2) =~= registry_of(s).remove(id));
}

/// Remove-then-draw is a no-op: once `remove_object` has taken an identifier
/// out of the registry, the registry no longer resolves it, so a later
/// single-object draw of that identifier finds nothing and draws nothing.
pub proof fn lemma_remove_then_get<T: SceneObject>(pre: Scene<T>, post: Scene<T>, id: Identifier)
    requires
        post.registry() == pre.registry().remove(id),
    ensures
        !post.registry().dom().contains(id),
{
}

/// Identifier uniqueness: every identifier `add_object` returns carries the
/// scene's sequence counter, the counter grows past each one, and no scene
/// operation ever lowers it — so the identifiers returned by any sequence of
/// insertions, with any other operations in between, are pairwise distinct.
/// `ids` are the returned identifiers in call order and `counters` the
/// scene's counter at each call.
pub proof fn lemma_identifier_uniqueness(ids: Seq<Identifier>, counters: Seq<u64>)
    requires
        ids.len() == counters.len(),
        forall|i: int| 0 <= i < ids.len() ==> (#[trigger] ids[i]).seq == counters[i],
        forall|i: int| 0 <= i < ids.len() - 1 ==> (#[trigger] counters[i]) < counters[i + 1],
    ensures
        forall|i: int, j: int| 0 <= i < j < ids.len() ==> ids[i] != ids[j],
{
    assert forall|i: int, j: int| 0 <= i < j < ids.len() implies ids[i] != ids[j] by {
        lemma_counters_increase(counters, i, j);
    }
}

/// A chain of strictly increasing adjacent counters is strictly increasing
/// overall.
proof fn lemma_counters_increase(counters: Seq<u64>, i: int, j: int)
    requires
        forall|k: int| 0 <= k < counters.len() - 1 ==> (#[trigger] counters[k]) < counters[k + 1],
        0 <= i < j < counters.len(),
    ensures
        counters[i] < counters[j],
    decreases j - i,
{
    if i + 1 < j {
        lemma_counters_increase(counters, i, j - 1);
    }
}

} // verus!
