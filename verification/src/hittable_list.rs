//! The aggregate surface: a list of primitives that reports the nearest
//! hit among its children by shrinking the upper parameter bound to the
//! best hit found so far.
use vstd::prelude::*;

use crate::aabb::{Bb, fmax, fmin, surrounding_box, vmax3, vmin3};
use crate::fx::{Fx, sabs};
use crate::hittable::{
    HitRecord, Surface, surface_box, surface_cand_t, surface_mat, surface_rec, swf,
};
use crate::ray::{Ray, RayM};
use crate::rect::in_range;
use crate::vec3::{V3, vbounded};

verus! {

/// The aggregate of surfaces a scene is made of.
pub struct HittableList {
    pub objects: Vec<Surface>,
}

/// Every object of the list is well-formed.
pub open spec fn list_wf(objs: Seq<Surface>) -> bool {
    forall|i: int| 0 <= i < objs.len() ==> swf(#[trigger] objs[i])
}

/// The parameter of the hit the aggregate reports: each object in turn is
/// asked for a hit below the best parameter found so far, exactly as the
/// sequential narrowing loop proceeds.
pub open spec fn best_t(objs: Seq<Surface>, rm: RayM, t_min: int, t_max: int) -> Option<int>
    decreases objs.len(),
{
    if objs.len() == 0 {
        None
    } else {
        let prev = best_t(objs.drop_last(), rm, t_min, t_max);
        let cur_max = match prev {
            Some(t) => t,
            None => t_max,
        };
        match in_range(surface_cand_t(objs.last(), rm, t_min), cur_max) {
            Some(t) => Some(t),
            None => prev,
        }
    }
}

/// The aggregate's hit is the minimum-parameter hit among the children
/// that individually report one in range: when the aggregate reports `t`,
/// some child's candidate equals `t`, and no child's candidate within the
/// range lies below it; when it reports nothing, no child hits in range.
pub proof fn lemma_best_t_is_min(objs: Seq<Surface>, rm: RayM, t_min: int, t_max: int)
    ensures
        match best_t(objs, rm, t_min, t_max) {
            Some(t) => t <= t_max && (exists|i: int|
                0 <= i < objs.len() && surface_cand_t(#[trigger] objs[i], rm, t_min) == Some(t))
                && (forall|i: int|
                0 <= i < objs.len() ==> match surface_cand_t(#[trigger] objs[i], rm, t_min) {
                    Some(tc) => tc > t_max || t <= tc,
                    None => true,
                }),
            None => forall|i: int|
                0 <= i < objs.len() ==> in_range(
                    surface_cand_t(#[trigger] objs[i], rm, t_min),
                    t_max,
                ) is None,
        },
    decreases objs.len(),
{
    if objs.len() > 0 {
        lemma_best_t_is_min(objs.drop_last(), rm, t_min, t_max);
        assert(forall|i: int|
            0 <= i < objs.len() - 1 ==> objs.drop_last()[i] == #[trigger] objs[i]);
        assert(objs.last() == objs[objs.len() - 1]);
    }
}

/// Adding an object that reports no hit in the range never changes the
/// parameter the aggregate reports.
pub proof fn lemma_best_t_push(objs: Seq<Surface>, o: Surface, rm: RayM, t_min: int, t_max: int)
    requires
        in_range(surface_cand_t(o, rm, t_min), t_max) is None,
    ensures
        best_t(objs.push(o), rm, t_min, t_max) == best_t(objs, rm, t_min, t_max),
{
    lemma_best_t_is_min(objs, rm, t_min, t_max);
    assert(objs.push(o).drop_last() =~= objs);
    assert(objs.push(o).last() == o);
}

/// The corners of the union of the objects' boxes, folded in list order.
pub open spec fn boxes_union(objs: Seq<Surface>) -> (V3, V3)
    decreases objs.len(),
{
    if objs.len() <= 1 {
        surface_box(objs[0])
    } else {
        let prev = boxes_union(objs.drop_last());
        let cur = surface_box(objs.last());
        (vmin3(prev.0, cur.0), vmax3(prev.1, cur.1))
    }
}

impl HittableList {
    /// The empty aggregate.
    pub fn new() -> (r: HittableList)
        ensures
            r.objects@.len() == 0,
    {
        HittableList { objects: Vec::new() }
    }

    /// Appends an object to the aggregate.
    pub fn add(&mut self, object: Surface)
        ensures
            final(self).objects@ == old(self).objects@.push(object),
    {
        self.objects.push(object);
    }

    /// Removes every object.
    pub fn clear(&mut self)
        ensures
            final(self).objects@.len() == 0,
    {
        while self.objects.len() > 0
            decreases self.objects@.len(),
        {
            self.objects.pop();
        }
    }

    /// Whether every object of the aggregate is well-formed; callers
    /// outside the verified world use it to establish `list_wf`.
    pub fn wf_check(&self) -> (r: bool)
        ensures
            r == list_wf(self.objects@),
    {
        let n = self.objects.len();
        let mut i: usize = 0;
        while i < n
            invariant
                n == self.objects@.len(),
                i <= n,
                forall|j: int| 0 <= j < i ==> swf(#[trigger] self.objects@[j]),
            decreases n - i,
        {
            if !self.objects[i].wf_check() {
                return false;
            }
            i = i + 1;
        }
        true
    }

    /// The nearest hit among the objects: each child is queried with the
    /// upper bound narrowed to the best parameter so far, so the reported
    /// hit carries the globally smallest parameter in range.
    pub fn hit<'a>(&'a self, r: &Ray, t_min: Fx, t_max: Fx) -> (res: Option<HitRecord<'a>>)
        requires
            list_wf(self.objects@),
            vbounded(r@.orig, 0x100_0000),
            vbounded(r@.dir, 0x100_0000),
            sabs(t_min.0 as int) <= 0x100_0000,
            sabs(t_max.0 as int) <= 0x100_0000,
        ensures
            match res {
                Some(rec) => best_t(self.objects@, r@, t_min.0 as int, t_max.0 as int) == Some(
                    rec@.t,
                ) && (exists|i: int|
                    0 <= i < self.objects@.len() && surface_cand_t(
                        #[trigger] self.objects@[i],
                        r@,
                        t_min.0 as int,
                    ) == Some(rec@.t) && rec@ == surface_rec(self.objects@[i], r@, rec@.t)
                        && *rec.mat == surface_mat(self.objects@[i])),
                None => best_t(self.objects@, r@, t_min.0 as int, t_max.0 as int) is None,
            },
    {
        let mut result: Option<HitRecord<'a>> = None;
        let mut closest = t_max;
        let n = self.objects.len();
        let mut i: usize = 0;
        while i < n
            invariant
                n == self.objects@.len(),
                i <= n,
                list_wf(self.objects@),
                vbounded(r@.orig, 0x100_0000),
                vbounded(r@.dir, 0x100_0000),
                sabs(t_min.0 as int) <= 0x100_0000,
                sabs(t_max.0 as int) <= 0x100_0000,
                sabs(closest.0 as int) <= 0x100_0000,
                match result {
                    Some(rec) => closest.0 == rec@.t && best_t(
                        self.objects@.take(i as int),
                        r@,
                        t_min.0 as int,
                        t_max.0 as int,
                    ) == Some(rec@.t) && (exists|j: int|
                        0 <= j < i && surface_cand_t(
                            #[trigger] self.objects@[j],
                            r@,
                            t_min.0 as int,
                        ) == Some(rec@.t) && rec@ == surface_rec(self.objects@[j], r@, rec@.t)
                            && *rec.mat == surface_mat(self.objects@[j])),
                    None => closest.0 == t_max.0 && best_t(
                        self.objects@.take(i as int),
                        r@,
                        t_min.0 as int,
                        t_max.0 as int,
                    ) is None,
                },
            decreases n - i,
        {
            let ghost prefix = self.objects@.take(i as int);
            match self.objects[i].hit(r, t_min, closest) {
                Some(rec2) => {
                    closest = rec2.t;
                    result = Some(rec2);
                },
                None => {},
            }
            proof {
                assert(self.objects@.take(i as int + 1).drop_last() =~= prefix);
                assert(self.objects@.take(i as int + 1).last() == self.objects@[i as int]);
            }
            i = i + 1;
        }
        proof {
            assert(self.objects@.take(n as int) =~= self.objects@);
        }
        result
    }

    /// The box enclosing every object, the union of their boxes; absent
    /// only for the empty aggregate.
    pub fn bounding_box(&self, time0: Fx, time1: Fx, output_box: &mut Bb) -> (res: bool)
        requires
            list_wf(self.objects@),
        ensures
            res == (self.objects@.len() > 0),
            res ==> final(output_box).spec_min() == boxes_union(self.objects@).0,
            res ==> final(output_box).spec_max() == boxes_union(self.objects@).1,
    {
        let n = self.objects.len();
        if n == 0 {
            return false;
        }
        let mut temp_box = Bb::new();
        self.objects[0].bounding_box(time0, time1, &mut temp_box);
        *output_box = temp_box;
        let mut i: usize = 1;
        while i < n
            invariant
                n == self.objects@.len(),
                1 <= i <= n,
                list_wf(self.objects@),
                output_box.spec_min() == boxes_union(self.objects@.take(i as int)).0,
                output_box.spec_max() == boxes_union(self.objects@.take(i as int)).1,
            decreases n - i,
        {
            let ghost prefix = self.objects@.take(i as int);
            let mut tb = Bb::new();
            self.objects[i].bounding_box(time0, time1, &mut tb);
            *output_box = surrounding_box(output_box, &tb);
            proof {
                assert(self.objects@.take(i as int + 1).drop_last() =~= prefix);
                assert(self.objects@.take(i as int + 1).last() == self.objects@[i as int]);
            }
            i = i + 1;
        }
        proof {
            assert(self.objects@.take(n as int) =~= self.objects@);
        }
        true
    }
}

} // verus!
