//! The scene and its nearest hit.

use crate::geo::{Scalar, Vec3};
use crate::obj::{within, Hit, HitRecord, Plane, PlaneCut, Sphere, SphereCut};
use crate::par::par_collect;
use rayon::iter::{IntoParallelIterator, ParallelIterator};
use vstd::prelude::*;

verus! {

/// The nearer of two hits. No hit loses to any hit; of two hits the one
/// with the strictly smaller distance wins, and the second where neither
/// distance is smaller.
pub open spec fn nearer(hr1: Option<HitRecord>, hr2: Option<HitRecord>) -> Option<HitRecord> {
    match (hr1, hr2) {
        (Some(a), Some(b)) => Some(
            if a.t.lt(b.t) {
                a
            } else {
                b
            },
        ),
        (Some(a), None) => Some(a),
        (None, _) => hr2,
    }
}

/// The nearest hit of a sequence: `nearer` folded over it from the left.
pub open spec fn nearest(hits: Seq<Option<HitRecord>>) -> Option<HitRecord>
    decreases hits.len(),
{
    if hits.len() == 0 {
        None
    } else {
        nearer(nearest(hits.drop_last()), hits.last())
    }
}

/// Whether the distance of every hit in the sequence is a number.
pub open spec fn measured(hits: Seq<Option<HitRecord>>) -> bool {
    forall|i: int| 0 <= i < hits.len() ==> (#[trigger] hits[i] matches Some(h) ==> h.t@ is Some)
}

/// What each primitive reports of its cut, in the order of the primitives.
/// A primitive without a cut, and a cut without a primitive, are left out.
pub open spec fn reports<T: Hit>(v: Seq<T>, cuts: Seq<T::Cut>, tm: (Scalar, Scalar)) -> Seq<
    Option<HitRecord>,
> {
    Seq::new(
        if v.len() <= cuts.len() {
            v.len()
        } else {
            cuts.len()
        },
        |i: int| v[i].hit_spec(&cuts[i], tm),
    )
}

/// `nearer` has no hit as its identity on both sides.
pub proof fn lemma_nearer_identity(hr: Option<HitRecord>)
    ensures
        nearer(None, hr) == hr,
        nearer(hr, None) == hr,
{
}

/// `nearer` is associative on hits whose distances are numbers.
pub proof fn lemma_nearer_associative(
    hr1: Option<HitRecord>,
    hr2: Option<HitRecord>,
    hr3: Option<HitRecord>,
)
    requires
        hr1 matches Some(h) ==> h.t@ is Some,
        hr2 matches Some(h) ==> h.t@ is Some,
        hr3 matches Some(h) ==> h.t@ is Some,
    ensures
        nearer(nearer(hr1, hr2), hr3) == nearer(hr1, nearer(hr2, hr3)),
{
}

/// `nearer` gives the same distance whichever hit comes first, and the same
/// hit where the two distances differ.
pub proof fn lemma_nearer_commutative(hr1: Option<HitRecord>, hr2: Option<HitRecord>)
    requires
        hr1 matches Some(h) ==> h.t@ is Some,
        hr2 matches Some(h) ==> h.t@ is Some,
    ensures
        nearer(hr1, hr2) is Some <==> nearer(hr2, hr1) is Some,
        nearer(hr1, hr2) is Some ==> nearer(hr1, hr2)->0.t@ == nearer(hr2, hr1)->0.t@,
        !(hr1 is Some && hr2 is Some && hr1->0.t@ == hr2->0.t@) ==> nearer(hr1, hr2) == nearer(
            hr2,
            hr1,
        ),
{
}

/// The nearest hit of a sequence cut in two is the nearer of the nearest
/// hits of the parts: the sequence may be split anywhere and the parts
/// reduced apart.
pub proof fn lemma_nearest_split(a: Seq<Option<HitRecord>>, b: Seq<Option<HitRecord>>)
    requires
        measured(a),
        measured(b),
    ensures
        nearest(a + b) == nearer(nearest(a), nearest(b)),
        measured(a + b),
    decreases b.len(),
{
    if b.len() == 0 {
        assert(a + b =~= a);
    } else {
        let b0 = b.drop_last();
        assert((a + b).drop_last() =~= a + b0);
        assert((a + b).last() == b.last());
        assert(measured(b0)) by {
            assert forall|i: int| 0 <= i < b0.len() implies (#[trigger] b0[i] matches Some(h)
                ==> h.t@ is Some) by {
                assert(b0[i] == b[i]);
            }
        }
        lemma_nearest_split(a, b0);
        lemma_nearest_measured(a);
        lemma_nearest_measured(b0);
        assert(b[b.len() - 1] == b.last());
        lemma_nearer_associative(nearest(a), nearest(b0), b.last());
    }
    assert forall|i: int| 0 <= i < (a + b).len() implies (#[trigger] (a + b)[i] matches Some(h)
        ==> h.t@ is Some) by {
        if i < a.len() {
            assert((a + b)[i] == a[i]);
        } else {
            assert((a + b)[i] == b[i - a.len()]);
        }
    }
}

/// The nearest hit of a sequence is one of its hits.
pub proof fn lemma_nearest_measured(hits: Seq<Option<HitRecord>>)
    requires
        measured(hits),
    ensures
        nearest(hits) matches Some(h) ==> h.t@ is Some,
        nearest(hits) is Some ==> exists|i: int| 0 <= i < hits.len() && hits[i] == nearest(hits),
    decreases hits.len(),
{
    if hits.len() > 0 {
        let front = hits.drop_last();
        assert forall|i: int| 0 <= i < front.len() implies (#[trigger] front[i] matches Some(h)
            ==> h.t@ is Some) by {
            assert(front[i] == hits[i]);
        }
        lemma_nearest_measured(front);
        assert(hits[hits.len() - 1] == hits.last());
        if nearest(hits) is Some {
            if nearest(hits) == hits.last() {
                assert(hits[hits.len() - 1] == nearest(hits));
            } else {
                let i = choose|i: int| 0 <= i < front.len() && front[i] == nearest(front);
                assert(hits[i] == front[i]);
            }
        }
    }
}

/// Whether the hit at index `k` leads the sequence: no hit of the sequence
/// is strictly nearer, and every hit after it is strictly farther.
pub open spec fn leads(hits: Seq<Option<HitRecord>>, k: int) -> bool {
    &&& 0 <= k < hits.len()
    &&& hits[k] is Some
    &&& forall|i: int|
        0 <= i < hits.len() ==> (#[trigger] hits[i] matches Some(h) ==> !h.t.lt(hits[k]->0.t))
    &&& forall|i: int|
        k < i < hits.len() ==> (#[trigger] hits[i] matches Some(h) ==> hits[k]->0.t.lt(h.t))
}

/// The nearest hit of a sequence is no hit exactly where the sequence holds
/// none. Else it is the hit that leads the sequence: no hit is strictly
/// nearer, and of the hits at its distance it is the last.
pub proof fn lemma_nearest_is_minimum(hits: Seq<Option<HitRecord>>)
    requires
        measured(hits),
    ensures
        nearest(hits) is None <==> forall|i: int| 0 <= i < hits.len() ==> hits[i] is None,
        nearest(hits) is Some ==> exists|k: int| leads(hits, k) && hits[k] == nearest(hits),
    decreases hits.len(),
{
    if hits.len() > 0 {
        let front = hits.drop_last();
        let n = hits.len() - 1;
        assert forall|i: int| 0 <= i < front.len() implies (#[trigger] front[i] matches Some(h)
            ==> h.t@ is Some) by {
            assert(front[i] == hits[i]);
        }
        lemma_nearest_is_minimum(front);
        assert(hits[n] == hits.last());
        assert(forall|i: int| 0 <= i < n ==> front[i] == hits[i]);
        if nearest(hits) is None {
            assert(nearest(front) is None && hits.last() is None);
            assert forall|i: int| 0 <= i < hits.len() implies hits[i] is None by {
                if i < n {
                    assert(front[i] is None);
                }
            }
        } else if nearest(hits) == hits.last() && (nearest(front) is None || !nearest(
            front,
        )->0.t.lt(hits.last()->0.t)) {
            // the last hit wins
            assert forall|i: int| 0 <= i < hits.len() implies (#[trigger] hits[i] matches Some(h)
                ==> !h.t.lt(hits[n]->0.t)) by {
                if i < n {
                    assert(front[i] == hits[i]);
                    if nearest(front) is Some {
                        let k = choose|k: int| leads(front, k) && front[k] == nearest(front);
                        assert(front[i] matches Some(h) ==> !h.t.lt(front[k]->0.t));
                    } else {
                        assert(front[i] is None);
                    }
                }
            }
            assert(leads(hits, n));
        } else {
            // the earlier winner stays
            let k = choose|k: int| leads(front, k) && front[k] == nearest(front);
            assert(hits[k] == front[k]);
            assert(nearest(hits) == nearest(front));
            assert forall|i: int| 0 <= i < hits.len() implies (#[trigger] hits[i] matches Some(h)
                ==> !h.t.lt(hits[k]->0.t)) by {
                if i < n {
                    assert(front[i] == hits[i]);
                }
            }
            assert forall|i: int| k < i < hits.len() implies (#[trigger] hits[i] matches Some(h)
                ==> hits[k]->0.t.lt(h.t)) by {
                if i < n {
                    assert(front[i] == hits[i]);
                }
            }
            assert(leads(hits, k));
        }
    }
}

/// The nearer of two hits.
pub fn compare_hitrecord(hr1: Option<HitRecord>, hr2: Option<HitRecord>) -> (r: Option<HitRecord>)
    ensures
        r == nearer(hr1, hr2),
{
    match hr1 {
        Some(a) => match hr2 {
            Some(b) => Some(
                if a.t < b.t {
                    a
                } else {
                    b
                },
            ),
            None => Some(a),
        },
        None => hr2,
    }
}

/// `rayon`'s `reduce` over a vector, with no hit as the identity and
/// `compare_hitrecord` as the operation. It combines neighbouring items in
/// their order, grouped as it pleases; the operation is associative on hits
/// whose distances are numbers and has no hit as its identity
/// (`lemma_nearer_associative`, `lemma_nearer_identity`), so every grouping
/// gives what the fold from the left gives.
#[verifier::external_body]
fn reduce_hits(hits: Vec<Option<HitRecord>>) -> (r: Option<HitRecord>)
    requires
        measured(hits@),
    ensures
        r == nearest(hits@),
{
    hits.into_par_iter().reduce(|| None, compare_hitrecord)
}

/// Whether `cuts` holds a cut for each primitive of `v`, in their order,
/// each one a cut that `cut_of` may return for its primitive.
pub open spec fn cuts_of<T: Hit, F: Fn(&T) -> T::Cut>(v: Seq<T>, cut_of: &F, cuts: Seq<T::Cut>) -> bool {
    &&& cuts.len() == v.len()
    &&& forall|i: int| 0 <= i < v.len() ==> cut_of.ensures((&#[trigger] v[i],), cuts[i])
}

/// Whether `hit` can be what the primitive reports of the ray: what it
/// reports of a cut that `cut_of` may return for it.
pub open spec fn looked<T: Hit, F: Fn(&T) -> T::Cut>(
    primitive: &T,
    cut_of: &F,
    tm: (Scalar, Scalar),
    hit: Option<HitRecord>,
) -> bool {
    exists|cut: T::Cut|
        {
            &&& cut_of.ensures((primitive,), cut)
            &&& hit == primitive.hit_spec(&cut, tm)
            &&& hit matches Some(h) ==> within(h.t, tm)
        }
}

/// What one primitive reports of the ray whose cut with it `cut_of`
/// computes.
pub fn look<T: Hit, F: Fn(&T) -> T::Cut>(primitive: &T, cut_of: &F, tm: (Scalar, Scalar)) -> (r:
    Option<HitRecord>)
    requires
        cut_of.requires((primitive,)),
    ensures
        looked(primitive, cut_of, tm, r),
{
    let cut = cut_of(primitive);
    primitive.hit(&cut, tm)
}

/// The nearest of the hits that the primitives of `v` report, each of the
/// cut that `cut_of` computes for it. Every primitive is looked at.
pub fn calc_hit<T: Hit + Sync, F: Fn(&T) -> T::Cut + Sync>(
    v: &Vec<T>,
    cut_of: &F,
    tm: (Scalar, Scalar),
) -> (r: Option<HitRecord>)
    requires
        forall|p: &T| cut_of.requires((p,)),
    ensures
        exists|cuts: Seq<T::Cut>|
            cuts_of(v@, cut_of, cuts) && measured(reports(v@, cuts, tm)) && r == nearest(
                reports(v@, cuts, tm),
            ),
        r matches Some(h) ==> within(h.t, tm),
{
    let at = |i: usize| -> (hit: Option<HitRecord>)
        requires
            i < v.len(),
        ensures
            looked(&v[i as int], cut_of, tm, hit),
        { look(&v[i], cut_of, tm) };
    let hits = par_collect(v.len(), &at);
    proof {
        let cuts = Seq::new(
            v.len() as nat,
            |i: int|
                choose|cut: T::Cut|
                    {
                        &&& cut_of.ensures((&v[i],), cut)
                        &&& hits[i] == v[i].hit_spec(&cut, tm)
                        &&& hits[i] matches Some(h) ==> within(h.t, tm)
                    },
        );
        assert forall|i: int| 0 <= i < v.len() implies cut_of.ensures((&#[trigger] v[i],), cuts[i])
            && hits[i] == v[i].hit_spec(&cuts[i], tm) && (hits[i] matches Some(h) ==> within(
            h.t,
            tm,
        )) by {
            assert(looked(&v[i], cut_of, tm, hits@[i]));
        }
        assert(hits@ =~= reports(v@, cuts, tm));
        assert(cuts_of(v@, cut_of, cuts));
        lemma_nearest_measured(hits@);
    }
    reduce_hits(hits)
}

/// A pinhole camera. The three axes are fixed when the camera is made:
/// `we` is the unit vector from `focus` to `position`, `ue` the unit vector
/// along the cross product of `upside` and `we`, and `ve` the cross product
/// of `we` and `ue`.
#[derive(Clone, Copy, Debug)]
pub struct Camera {
    pub position: Vec3,
    /// The point that the camera looks at.
    pub focus: Vec3,
    /// The direction that is up in the image.
    pub upside: Vec3,
    /// The field of view, in radians.
    pub fov: Scalar,
    /// The axis against the view.
    pub we: Vec3,
    /// The axis to the right.
    pub ue: Vec3,
    /// The axis upwards.
    pub ve: Vec3,
    /// The interval of distances along a ray at which a hit counts.
    pub tm: (Scalar, Scalar),
}

/// The primitives of a scene: collections of different kinds side by side.
pub struct Scene {
    pub spheres: Vec<Sphere>,
    pub planes: Vec<Plane>,
}

impl Scene {
    /// A scene of the given primitives.
    pub fn new(spheres: Vec<Sphere>, planes: Vec<Plane>) -> (r: Scene)
        ensures
            r.spheres == spheres,
            r.planes == planes,
    {
        Scene { spheres, planes }
    }

    /// What each primitive of the scene reports of its cut: the spheres
    /// first, then the planes.
    pub open spec fn reports(
        &self,
        spheres: Seq<SphereCut>,
        planes: Seq<PlaneCut>,
        tm: (Scalar, Scalar),
    ) -> Seq<Option<HitRecord>> {
        reports(self.spheres@, spheres, tm) + reports(self.planes@, planes, tm)
    }

    /// The nearest hit of a ray over all primitives of the scene, inside
    /// the interval `tm`. `sphere_cut` and `plane_cut` compute the cut of the
    /// ray with one primitive; each primitive of the scene is cut once.
    pub fn hit<FS: Fn(&Sphere) -> SphereCut + Sync, FP: Fn(&Plane) -> PlaneCut + Sync>(
        &self,
        sphere_cut: FS,
        plane_cut: FP,
        tm: (Scalar, Scalar),
    ) -> (r: Option<HitRecord>)
        requires
            forall|s: &Sphere| sphere_cut.requires((s,)),
            forall|p: &Plane| plane_cut.requires((p,)),
        ensures
            exists|spheres: Seq<SphereCut>, planes: Seq<PlaneCut>|
                cuts_of(self.spheres@, &sphere_cut, spheres) && cuts_of(
                    self.planes@,
                    &plane_cut,
                    planes,
                ) && r == nearest(self.reports(spheres, planes, tm)),
            r matches Some(h) ==> within(h.t, tm),
    {
        let s = calc_hit(&self.spheres, &sphere_cut, tm);
        let p = calc_hit(&self.planes, &plane_cut, tm);
        let mut both: Vec<Option<HitRecord>> = Vec::new();
        both.push(s);
        both.push(p);
        proof {
            let spheres = choose|cuts: Seq<SphereCut>|
                cuts_of(self.spheres@, &sphere_cut, cuts) && measured(
                    reports(self.spheres@, cuts, tm),
                ) && s == nearest(reports(self.spheres@, cuts, tm));
            let planes = choose|cuts: Seq<PlaneCut>|
                cuts_of(self.planes@, &plane_cut, cuts) && measured(
                    reports(self.planes@, cuts, tm),
                ) && p == nearest(reports(self.planes@, cuts, tm));
            lemma_nearest_split(
                reports(self.spheres@, spheres, tm),
                reports(self.planes@, planes, tm),
            );
            assert(both@.drop_last() =~= seq![s]);
            assert(seq![s].drop_last() =~= Seq::<Option<HitRecord>>::empty());
            reveal_with_fuel(nearest, 3);
            assert(nearest(both@) == nearer(s, p));
            assert(nearer(s, p) == nearest(self.reports(spheres, planes, tm)));
        }
        reduce_hits(both)
    }
}

/// Every hit that a primitive of a scene reports lies inside the interval,
/// so its distance is a number.
pub proof fn lemma_scene_reports_measured(
    scene: Scene,
    spheres: Seq<SphereCut>,
    planes: Seq<PlaneCut>,
    tm: (Scalar, Scalar),
)
    ensures
        measured(scene.reports(spheres, planes, tm)),
        forall|i: int|
            0 <= i < scene.reports(spheres, planes, tm).len() ==> (#[trigger] scene.reports(
                spheres,
                planes,
                tm,
            )[i] matches Some(h) ==> within(h.t, tm)),
{
    let a = reports(scene.spheres@, spheres, tm);
    let b = reports(scene.planes@, planes, tm);
    assert forall|i: int| 0 <= i < (a + b).len() implies (#[trigger] (a + b)[i] matches Some(h)
        ==> within(h.t, tm)) by {
        if i < a.len() {
            assert((a + b)[i] == a[i]);
        } else {
            assert((a + b)[i] == b[i - a.len()]);
        }
    }
}

/// The nearest hit of a scene is no hit exactly where no primitive reports
/// one. Else it is a hit that a primitive reports, and no primitive
/// reports a hit at a strictly smaller distance.
pub proof fn lemma_scene_hit_is_nearest(
    scene: Scene,
    spheres: Seq<SphereCut>,
    planes: Seq<PlaneCut>,
    tm: (Scalar, Scalar),
)
    ensures
        nearest(scene.reports(spheres, planes, tm)) is None <==> forall|i: int|
            0 <= i < scene.reports(spheres, planes, tm).len() ==> scene.reports(
                spheres,
                planes,
                tm,
            )[i] is None,
        nearest(scene.reports(spheres, planes, tm)) is Some ==> exists|k: int|
            leads(scene.reports(spheres, planes, tm), k) && scene.reports(spheres, planes, tm)[k]
                == nearest(scene.reports(spheres, planes, tm)),
{
    lemma_scene_reports_measured(scene, spheres, planes, tm);
    lemma_nearest_is_minimum(scene.reports(spheres, planes, tm));
}

/// The nearest hit of a scene has the material, the reflectance and the
/// emission of one of the scene's primitives, and lies inside the interval.
pub proof fn lemma_hit_of_scene(
    scene: Scene,
    spheres: Seq<SphereCut>,
    planes: Seq<PlaneCut>,
    tm: (Scalar, Scalar),
)
    ensures
        nearest(scene.reports(spheres, planes, tm)) matches Some(h) ==> {
            &&& within(h.t, tm)
            &&& {
                ||| exists|i: int|
                    0 <= i < scene.spheres@.len() && h.material == (#[trigger] scene.spheres@[i]).material
                        && h.reflectance == scene.spheres@[i].reflectance && h.le
                        == scene.spheres@[i].le
                ||| exists|i: int|
                    0 <= i < scene.planes@.len() && h.material == (#[trigger] scene.planes@[i]).material
                        && h.reflectance == scene.planes@[i].reflectance && h.le
                        == scene.planes@[i].le
            }
        },
{
    let a = reports(scene.spheres@, spheres, tm);
    let b = reports(scene.planes@, planes, tm);
    let all = scene.reports(spheres, planes, tm);
    lemma_scene_reports_measured(scene, spheres, planes, tm);
    lemma_nearest_measured(all);
    if nearest(all) is Some {
        let k = choose|k: int| 0 <= k < all.len() && all[k] == nearest(all);
        if k < a.len() {
            assert(all[k] == a[k]);
            assert(scene.spheres@[k].material == nearest(all)->0.material);
        } else {
            assert(all[k] == b[k - a.len()]);
            assert(scene.planes@[k - a.len()].material == nearest(all)->0.material);
        }
    }
}

/// In a scene where no primitive emits light, the nearest hit emits none.
pub proof fn lemma_dark_scene(
    scene: Scene,
    spheres: Seq<SphereCut>,
    planes: Seq<PlaneCut>,
    tm: (Scalar, Scalar),
)
    requires
        forall|i: int| 0 <= i < scene.spheres@.len() ==> (#[trigger] scene.spheres@[i]).le.same(Vec3::zero()),
        forall|i: int| 0 <= i < scene.planes@.len() ==> (#[trigger] scene.planes@[i]).le.same(Vec3::zero()),
    ensures
        nearest(scene.reports(spheres, planes, tm)) matches Some(h) ==> h.le.same(Vec3::zero()),
{
    lemma_hit_of_scene(scene, spheres, planes, tm);
}

} // verus!
