//! Materials, primitives, and the hit of a ray on each primitive.
//!
//! The caller solves the equations of a ray and a primitive and hands in what
//! they gave, a cut. The primitive decides from the cut and from the interval
//! of valid distances whether there is a hit, and makes its record.

use crate::geo::{New, Scalar, Vec3};
use vstd::prelude::*;

verus! {

/// How a surface scatters light.
#[derive(Clone, Copy, Debug)]
pub enum Material {
    /// An ideal matte surface.
    Diffuse,
    /// A perfect mirror.
    Mirror,
    /// A clear dielectric with the given index of refraction.
    Fresnel(Scalar),
}

/// A hit of a ray on a primitive.
#[derive(Clone, Copy, Debug)]
pub struct HitRecord {
    /// The distance along the ray.
    pub t: Scalar,
    /// The point that was hit.
    pub point: Vec3,
    /// The unit normal of the surface there. It may point either way.
    pub normal: Vec3,
    /// The part of the light that the surface passes on, channel by channel.
    pub reflectance: Vec3,
    /// The light that the surface emits.
    pub le: Vec3,
    pub material: Material,
}

/// A point where a ray meets the surface of a primitive.
#[derive(Clone, Copy, Debug)]
pub struct Crossing {
    /// The distance along the ray.
    pub t: Scalar,
    /// The point, origin plus `t` times direction.
    pub point: Vec3,
    /// The unit normal of the surface at the point.
    pub normal: Vec3,
}

/// Whether `t` lies strictly inside the interval `tm`.
pub open spec fn within(t: Scalar, tm: (Scalar, Scalar)) -> bool {
    tm.0.lt(t) && t.lt(tm.1)
}

/// The record of a hit at `at` on a surface with the given properties.
pub open spec fn record(at: Crossing, material: Material, reflectance: Vec3, le: Vec3) -> HitRecord {
    HitRecord { t: at.t, point: at.point, normal: at.normal, reflectance, le, material }
}

fn inside(t: Scalar, tm: (Scalar, Scalar)) -> (r: bool)
    ensures
        r == within(t, tm),
{
    tm.0 < t && t < tm.1
}

fn make_record(at: &Crossing, material: Material, reflectance: Vec3, le: Vec3) -> (r: HitRecord)
    ensures
        r == record(*at, material, reflectance, le),
{
    HitRecord { t: at.t, point: at.point, normal: at.normal, reflectance, le, material }
}

/// A primitive that a ray can hit.
pub trait Hit {
    /// What the equation of a ray and this kind of primitive gives.
    type Cut;

    /// The hit that `hit` reports.
    spec fn hit_spec(&self, cut: &Self::Cut, tm: (Scalar, Scalar)) -> Option<HitRecord>;

    /// The nearest hit with a distance strictly inside `tm`, if there is one.
    fn hit(&self, cut: &Self::Cut, tm: (Scalar, Scalar)) -> (r: Option<HitRecord>)
        ensures
            r == self.hit_spec(cut, tm),
            r matches Some(h) ==> within(h.t, tm),
    ;
}

/// A sphere.
#[derive(Clone, Copy, Debug)]
pub struct Sphere {
    /// The centre.
    pub point: Vec3,
    pub radius: Scalar,
    pub material: Material,
    pub reflectance: Vec3,
    pub le: Vec3,
}

/// The roots of the quadratic of a ray and a sphere. With `op` the vector
/// from the ray's origin to the centre and `b` its product with the ray's
/// direction, `det` is `b * b - op * op + radius * radius`, and the roots lie
/// at `b` minus and `b` plus the square root of `det`.
#[derive(Clone, Copy, Debug)]
pub struct SphereCut {
    /// The discriminant.
    pub det: Scalar,
    /// The crossing at the smaller root.
    pub near: Crossing,
    /// The crossing at the larger root.
    pub far: Crossing,
}

impl Hit for Sphere {
    type Cut = SphereCut;

    /// No hit where the discriminant is negative or no number. Else the
    /// crossing at the smaller root where that lies inside the interval, else
    /// the one at the larger root where that does.
    open spec fn hit_spec(&self, cut: &SphereCut, tm: (Scalar, Scalar)) -> Option<HitRecord> {
        if !cut.det.ge(Scalar::zero()) {
            None
        } else if within(cut.near.t, tm) {
            Some(record(cut.near, self.material, self.reflectance, self.le))
        } else if within(cut.far.t, tm) {
            Some(record(cut.far, self.material, self.reflectance, self.le))
        } else {
            None
        }
    }

    fn hit(&self, cut: &SphereCut, tm: (Scalar, Scalar)) -> (r: Option<HitRecord>) {
        if cut.det >= Scalar::new_zero() {
            if inside(cut.near.t, tm) {
                Some(make_record(&cut.near, self.material, self.reflectance, self.le))
            } else if inside(cut.far.t, tm) {
                Some(make_record(&cut.far, self.material, self.reflectance, self.le))
            } else {
                None
            }
        } else {
            None
        }
    }
}

/// A sphere whose two roots both lie outside the interval is not hit,
/// though the ray crosses it.
pub proof fn lemma_sphere_outside_interval(sphere: Sphere, cut: SphereCut, tm: (Scalar, Scalar))
    requires
        !within(cut.near.t, tm),
        !within(cut.far.t, tm),
    ensures
        sphere.hit_spec(&cut, tm) is None,
{
}

/// A sphere is hit at the smaller root wherever that root lies inside the
/// interval, and at the larger root only where the smaller does not.
pub proof fn lemma_sphere_prefers_near(sphere: Sphere, cut: SphereCut, tm: (Scalar, Scalar))
    requires
        cut.det.ge(Scalar::zero()),
    ensures
        within(cut.near.t, tm) ==> sphere.hit_spec(&cut, tm) == Some(
            record(cut.near, sphere.material, sphere.reflectance, sphere.le),
        ),
        !within(cut.near.t, tm) && within(cut.far.t, tm) ==> sphere.hit_spec(&cut, tm) == Some(
            record(cut.far, sphere.material, sphere.reflectance, sphere.le),
        ),
{
}

/// An unbounded plane.
#[derive(Clone, Copy, Debug)]
pub struct Plane {
    pub normal: Vec3,
    /// A point of the plane.
    pub point: Vec3,
    pub material: Material,
    pub reflectance: Vec3,
    pub le: Vec3,
}

/// Where a ray meets a plane: `nd` is the product of the plane's normal with
/// the ray's direction, and the crossing lies at the product of the normal
/// with the vector from the ray's origin to a point of the plane, over `nd`.
#[derive(Clone, Copy, Debug)]
pub struct PlaneCut {
    pub nd: Scalar,
    pub at: Crossing,
}

impl Hit for Plane {
    type Cut = PlaneCut;

    /// The crossing, unless the ray runs along the plane (`nd` equals zero)
    /// or the crossing lies outside the interval.
    open spec fn hit_spec(&self, cut: &PlaneCut, tm: (Scalar, Scalar)) -> Option<HitRecord> {
        if !cut.nd.same(Scalar::zero()) && within(cut.at.t, tm) {
            Some(record(cut.at, self.material, self.reflectance, self.le))
        } else {
            None
        }
    }

    fn hit(&self, cut: &PlaneCut, tm: (Scalar, Scalar)) -> (r: Option<HitRecord>) {
        if cut.nd != Scalar::new_zero() {
            if inside(cut.at.t, tm) {
                return Some(make_record(&cut.at, self.material, self.reflectance, self.le));
            }
        }
        None
    }
}

/// A triangle.
#[derive(Clone, Copy, Debug)]
pub struct Polygon {
    /// The corners `a`, `b`, `c`.
    pub points: [Vec3; 3],
    pub material: Material,
    pub reflectance: Vec3,
    pub le: Vec3,
}

/// Where a ray meets the plane of a triangle with the corners `a`, `b`, `c`.
#[derive(Clone, Copy, Debug)]
pub struct PolygonCut {
    /// The cross product of `b - a` and `c - a`.
    pub cross: Vec3,
    /// The product of the unit normal with the ray's direction.
    pub nd: Scalar,
    /// The crossing with the plane through `a` that has the unit normal.
    pub at: Crossing,
    /// The unit vector along the cross product of `a - c` and `p - a`, with
    /// `p` the point of the crossing.
    pub ap: Vec3,
    /// The unit vector along the cross product of `b - a` and `p - b`.
    pub bp: Vec3,
    /// The unit vector along the cross product of `c - b` and `p - c`.
    pub cp: Vec3,
}

impl Polygon {
    /// The normal of the triangle's plane, given the cross product of two of
    /// its edges: that product, unless it is the zero vector.
    pub fn normal(&self, cross: Vec3) -> (r: Option<Vec3>)
        ensures
            r == (if cross.same(Vec3::zero()) {
                None
            } else {
                Some(cross)
            }),
    {
        if cross != Vec3::new(Scalar::new_zero()) {
            Some(cross)
        } else {
            None
        }
    }
}

impl Hit for Polygon {
    type Cut = PolygonCut;

    /// The crossing with the triangle's plane where the triangle has an
    /// area, the ray does not run along the plane, the crossing lies inside
    /// the interval, and the point lies on the same side of all three edges.
    open spec fn hit_spec(&self, cut: &PolygonCut, tm: (Scalar, Scalar)) -> Option<HitRecord> {
        if !cut.cross.same(Vec3::zero()) && !cut.nd.same(Scalar::zero()) && within(cut.at.t, tm)
            && cut.ap.same(cut.bp) && cut.ap.same(cut.cp) {
            Some(record(cut.at, self.material, self.reflectance, self.le))
        } else {
            None
        }
    }

    fn hit(&self, cut: &PolygonCut, tm: (Scalar, Scalar)) -> (r: Option<HitRecord>) {
        if self.normal(cut.cross).is_some() {
            if cut.nd != Scalar::new_zero() {
                if inside(cut.at.t, tm) {
                    if cut.ap == cut.bp && cut.ap == cut.cp {
                        return Some(
                            make_record(&cut.at, self.material, self.reflectance, self.le),
                        );
                    }
                }
            }
        }
        None
    }
}

} // verus!
