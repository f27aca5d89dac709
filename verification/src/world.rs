//! The entity store: owns all gameplay objects, hands out identifiers in
//! creation order, and defers structural mutation (creation and deletion) to
//! a single maintain barrier per frame, so that systems may iterate and
//! request changes freely within a frame. Despawn markers are attached
//! directly by the judging systems, first writer wins.

use vstd::prelude::*;
use crate::components::{
    Circle, CircleHitRating, DespawnObject, DespawnObjectReason, GamePos, HitSound, Lifetime,
    Slider, SliderState,
};

verus! {

/// One gameplay object with its attached components. `circle` and `slider`
/// are mutually exclusive marks of the object's kind.
#[derive(Copy, Clone, Debug)]
pub struct GameObject {
    pub id: u64,
    pub pos: GamePos,
    pub lifetime: Lifetime,
    pub rating: CircleHitRating,
    pub hit_sound: HitSound,
    pub circle: Option<Circle>,
    pub slider: Option<Slider>,
    pub despawn: Option<DespawnObject>,
}

impl GameObject {
    pub open spec fn is_circle(self) -> bool {
        self.circle matches Some(_)
    }

    pub open spec fn is_slider(self) -> bool {
        self.slider matches Some(_)
    }

    pub open spec fn has_marker(self) -> bool {
        self.despawn matches Some(_)
    }

    /// Validity of the object at a given total elapsed time. A slider is
    /// never despawned while still dragging, and markers carry timestamps
    /// from the past.
    pub open spec fn wf(self, elapsed_us: int) -> bool {
        &&& self.pos.wf()
        &&& self.lifetime.wf(elapsed_us)
        &&& !(self.is_circle() && self.is_slider())
        &&& match self.slider {
            Some(s) => s.wf(elapsed_us),
            None => true,
        }
        &&& match self.despawn {
            Some(d) => {
                &&& !(d.reason matches DespawnObjectReason::SliderEnd(SliderState::DRAGGING(_)))
                &&& 0 <= d.despawned_at <= elapsed_us
            },
            None => true,
        }
    }
}

/// All objects of a sequence are valid at the given elapsed time.
pub open spec fn spec_objects_wf(s: Seq<GameObject>, elapsed_us: int) -> bool {
    forall|i: int| 0 <= i < s.len() ==> (#[trigger] s[i]).wf(elapsed_us)
}

/// Identifiers are strictly increasing along the sequence.
pub open spec fn spec_ids_increasing(s: Seq<GameObject>) -> bool {
    forall|i: int, j: int| 0 <= i < j < s.len() ==> s[i].id < s[j].id
}

/// All identifiers lie below the next one to be handed out.
pub open spec fn spec_ids_below(s: Seq<GameObject>, next_id: int) -> bool {
    forall|i: int| 0 <= i < s.len() ==> (#[trigger] s[i]).id < next_id
}

/// The live objects with every object whose identifier is queued for
/// deletion removed, in order.
pub open spec fn spec_retain(s: Seq<GameObject>, dels: Seq<u64>) -> Seq<GameObject>
    decreases s.len(),
{
    if s.len() == 0 {
        Seq::empty()
    } else if dels.contains(s[0].id) {
        spec_retain(s.drop_first(), dels)
    } else {
        seq![s[0]] + spec_retain(s.drop_first(), dels)
    }
}

/// `spec_retain` over one more trailing element keeps the prefix and
/// appends the element exactly when it is not queued for deletion.
pub proof fn lemma_retain_push(s: Seq<GameObject>, dels: Seq<u64>, x: GameObject)
    ensures
        spec_retain(s.push(x), dels) == if dels.contains(x.id) {
            spec_retain(s, dels)
        } else {
            spec_retain(s, dels).push(x)
        },
    decreases s.len(),
{
    if s.len() == 0 {
        assert(s.push(x)[0] == x);
        assert(s.push(x).drop_first() =~= s);
        if dels.contains(x.id) {
        } else {
            assert(spec_retain(s.push(x), dels) =~= spec_retain(s, dels).push(x));
        }
    } else {
        assert(s.push(x)[0] == s[0]);
        assert(s.push(x).drop_first() =~= s.drop_first().push(x));
        lemma_retain_push(s.drop_first(), dels, x);
        if dels.contains(s[0].id) {
        } else {
            if dels.contains(x.id) {
            } else {
                assert(seq![s[0]] + spec_retain(s.drop_first(), dels).push(x) =~= (seq![s[0]]
                    + spec_retain(s.drop_first(), dels)).push(x));
            }
        }
    }
}

/// Every object that survives `spec_retain` was in the original sequence.
pub proof fn lemma_retain_contains(s: Seq<GameObject>, dels: Seq<u64>, o: GameObject)
    requires
        spec_retain(s, dels).contains(o),
    ensures
        s.contains(o),
    decreases s.len(),
{
    if s.len() == 0 {
    } else if dels.contains(s[0].id) {
        lemma_retain_contains(s.drop_first(), dels, o);
        let j = choose|j: int| 0 <= j < s.drop_first().len() && s.drop_first()[j] == o;
        assert(s[j + 1] == o);
    } else {
        let r = spec_retain(s, dels);
        let j = choose|j: int| 0 <= j < r.len() && r[j] == o;
        if j == 0 {
            assert(s[0] == o);
        } else {
            assert(spec_retain(s.drop_first(), dels)[j - 1] == o);
            assert(spec_retain(s.drop_first(), dels).contains(o));
            lemma_retain_contains(s.drop_first(), dels, o);
            let k = choose|k: int|
                0 <= k < s.drop_first().len() && s.drop_first()[k] == o;
            assert(s[k + 1] == o);
        }
    }
}

/// Mid-frame validity of an object, between the clock update and the
/// lifetime decrement of a frame: the remaining lifetime is still bounded
/// by the previous frame's elapsed time, while slider states and markers
/// written this frame are bounded by the current one.
pub open spec fn spec_object_mid_wf(o: GameObject, e_prev: int, e_now: int) -> bool {
    &&& o.pos.wf()
    &&& o.lifetime.wf(e_prev)
    &&& !(o.is_circle() && o.is_slider())
    &&& match o.slider {
        Some(s) => s.wf(e_now),
        None => true,
    }
    &&& match o.despawn {
        Some(d) => {
            &&& !(d.reason matches DespawnObjectReason::SliderEnd(SliderState::DRAGGING(_)))
            &&& 0 <= d.despawned_at <= e_now
        },
        None => true,
    }
}

pub open spec fn spec_objects_mid_wf(s: Seq<GameObject>, e_prev: int, e_now: int) -> bool {
    forall|i: int| 0 <= i < s.len() ==> spec_object_mid_wf(#[trigger] s[i], e_prev, e_now)
}

/// The stronger entry form of mid-frame validity that hit detection needs:
/// slider hold states are still bounded by the previous frame's time (the
/// hold judging pass is the only place a drag advances, once per frame).
pub open spec fn spec_object_hit_pre(o: GameObject, e_prev: int, e_now: int) -> bool {
    &&& spec_object_mid_wf(o, e_prev, e_now)
    &&& match o.slider {
        Some(s) => crate::components::spec_state_wf(s.state, s.duration_in_us as int, e_prev),
        None => true,
    }
}

pub open spec fn spec_objects_hit_pre(s: Seq<GameObject>, e_prev: int, e_now: int) -> bool {
    forall|i: int| 0 <= i < s.len() ==> spec_object_hit_pre(#[trigger] s[i], e_prev, e_now)
}

/// An object valid at the end of the previous frame meets the hit pass's
/// entry form for the new frame.
pub proof fn lemma_wf_to_hit_pre(o: GameObject, e_prev: int, e_now: int)
    requires
        o.wf(e_prev),
        e_prev <= e_now,
    ensures
        spec_object_hit_pre(o, e_prev, e_now),
        spec_object_mid_wf(o, e_prev, e_now),
{
}

/// Deletion keeps the remaining objects in creation order.
pub proof fn lemma_retain_sorted(s: Seq<GameObject>, dels: Seq<u64>)
    requires
        spec_ids_increasing(s),
    ensures
        spec_ids_increasing(spec_retain(s, dels)),
    decreases s.len(),
{
    if s.len() == 0 {
    } else {
        assert forall|p: int, q: int|
            0 <= p < q < s.drop_first().len() implies s.drop_first()[p].id < s.drop_first()[
        q].id by {
            assert(s[p + 1].id < s[q + 1].id);
        }
        lemma_retain_sorted(s.drop_first(), dels);
        if dels.contains(s[0].id) {
        } else {
            let r = spec_retain(s, dels);
            let rr = spec_retain(s.drop_first(), dels);
            assert forall|p: int, q: int| 0 <= p < q < r.len() implies r[p].id < r[q].id by {
                if p == 0 {
                    assert(r[q] == rr[q - 1]);
                    assert(rr.contains(rr[q - 1]));
                    lemma_retain_contains(s.drop_first(), dels, rr[q - 1]);
                    let k = choose|k: int|
                        0 <= k < s.drop_first().len() && s.drop_first()[k] == rr[q - 1];
                    assert(s[k + 1] == rr[q - 1]);
                    assert(s[0].id < s[k + 1].id);
                } else {
                    assert(r[p] == rr[p - 1] && r[q] == rr[q - 1]);
                }
            }
        }
    }
}

/// The entity store: live objects in creation order, plus the deferred
/// creations and deletions of the running frame.
#[derive(Debug)]
pub struct GameWorld {
    pub objects: Vec<GameObject>,
    pub pending_spawn: Vec<GameObject>,
    pub pending_delete: Vec<u64>,
    pub next_id: u64,
}

impl GameWorld {
    /// Live and pending objects together, in creation order.
    pub open spec fn all_objects(self) -> Seq<GameObject> {
        self.objects@ + self.pending_spawn@
    }

    /// Structural validity: identifiers are unique (strictly increasing in
    /// creation order) and below the next one to be handed out.
    pub open spec fn wf_ids(self) -> bool {
        &&& spec_ids_increasing(self.all_objects())
        &&& spec_ids_below(self.all_objects(), self.next_id as int)
    }

    /// Validity of every object at the given elapsed time.
    pub open spec fn wf_objects(self, elapsed_us: int) -> bool {
        spec_objects_wf(self.all_objects(), elapsed_us)
    }

    pub open spec fn wf(self, elapsed_us: int) -> bool {
        &&& self.wf_ids()
        &&& self.wf_objects(elapsed_us)
    }

    pub fn new() -> (w: GameWorld)
        ensures
            w.objects@.len() == 0,
            w.pending_spawn@.len() == 0,
            w.pending_delete@.len() == 0,
            w.next_id == 0,
            forall|e: int| w.wf(e),
    {
        GameWorld {
            objects: Vec::new(),
            pending_spawn: Vec::new(),
            pending_delete: Vec::new(),
            next_id: 0,
        }
    }

    /// Requests the creation of an object; it becomes live at the next
    /// maintain barrier, under a fresh identifier. The identifier carried
    /// by `obj` is ignored.
    pub fn queue_spawn(&mut self, obj: GameObject) -> (id: u64)
        requires
            old(self).wf_ids(),
            old(self).next_id < u64::MAX,
        ensures
            final(self).wf_ids(),
            id == old(self).next_id,
            final(self).objects == old(self).objects,
            final(self).pending_delete == old(self).pending_delete,
            final(self).pending_spawn@ == old(self).pending_spawn@.push(
                GameObject { id: old(self).next_id, ..obj },
            ),
            final(self).next_id == old(self).next_id + 1,
    {
        let id = self.next_id;
        let mut obj = obj;
        obj.id = id;
        self.pending_spawn.push(obj);
        self.next_id = id + 1;
        proof {
            let all = final(self).all_objects();
            let prev = old(self).all_objects();
            assert(all =~= prev.push(final(self).pending_spawn@.last()));
            assert(forall|i: int| 0 <= i < prev.len() ==> all[i] == prev[i]);
        }
        id
    }

    /// Requests the deletion of an object; it is removed at the next
    /// maintain barrier.
    pub fn queue_remove(&mut self, id: u64)
        ensures
            final(self).objects == old(self).objects,
            final(self).pending_spawn == old(self).pending_spawn,
            final(self).next_id == old(self).next_id,
            final(self).pending_delete@ == old(self).pending_delete@.push(id),
    {
        self.pending_delete.push(id);
    }

    /// The maintain barrier: applies all queued deletions, then all queued
    /// creations, atomically at the end of the frame.
    pub fn maintain(&mut self)
        ensures
            final(self).objects@ == spec_retain(old(self).objects@, old(self).pending_delete@)
                + old(self).pending_spawn@,
            final(self).pending_spawn@.len() == 0,
            final(self).pending_delete@.len() == 0,
            final(self).next_id == old(self).next_id,
    {
        let n: usize = self.objects.len();
        let ghost orig = self.objects@;
        let ghost dels = self.pending_delete@;
        let mut i: usize = 0;
        let mut k: usize = 0;
        proof {
            assert(orig.subrange(0, 0) =~= Seq::<GameObject>::empty());
            assert(orig.subrange(0, orig.len() as int) =~= orig);
            assert(self.objects@ =~= spec_retain(orig.subrange(0, 0), dels) + orig.subrange(
                0,
                orig.len() as int,
            ));
        }
        while k < n
            invariant
                n == orig.len(),
                self.pending_delete@ == dels,
                self.pending_spawn@ == old(self).pending_spawn@,
                self.next_id == old(self).next_id,
                0 <= k <= orig.len(),
                i as int == spec_retain(orig.subrange(0, k as int), dels).len(),
                i <= k,
                self.objects@ == spec_retain(orig.subrange(0, k as int), dels) + orig.subrange(
                    k as int,
                    orig.len() as int,
                ),
            decreases orig.len() - k,
        {
            proof {
                assert(orig.subrange(0, k as int + 1) =~= orig.subrange(0, k as int).push(
                    orig[k as int],
                ));
                lemma_retain_push(orig.subrange(0, k as int), dels, orig[k as int]);
            }
            let del = vec_contains_id(&self.pending_delete, self.objects[i].id);
            proof {
                assert(self.objects@[i as int] == orig[k as int]);
            }
            if del {
                self.objects.remove(i);
                proof {
                    assert(self.objects@ =~= spec_retain(orig.subrange(0, k as int + 1), dels)
                        + orig.subrange(k as int + 1, orig.len() as int));
                }
            } else {
                proof {
                    assert(i < self.objects@.len());
                }
                i = i + 1;
                proof {
                    assert(self.objects@ =~= spec_retain(orig.subrange(0, k as int + 1), dels)
                        + orig.subrange(k as int + 1, orig.len() as int));
                }
            }
            k = k + 1;
        }
        proof {
            assert(orig.subrange(orig.len() as int, orig.len() as int)
                =~= Seq::<GameObject>::empty());
            assert(self.objects@ =~= spec_retain(orig, dels));
        }
        self.objects.append(&mut self.pending_spawn);
        self.pending_delete.clear();
    }
}

fn vec_contains_id(v: &Vec<u64>, id: u64) -> (r: bool)
    ensures
        r == v@.contains(id),
{
    let mut i: usize = 0;
    while i < v.len()
        invariant
            0 <= i <= v@.len(),
            forall|j: int| 0 <= j < i ==> v@[j] != id,
        decreases v@.len() - i,
    {
        if v[i] == id {
            return true;
        }
        i = i + 1;
    }
    false
}

} // verus!
