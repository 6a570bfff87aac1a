//! Rotation matrices and rigid transforms (isometries).
//!
//! Shapes cache an object-to-world isometry and its inverse; rays are
//! transformed into object space, solved there, and the results mapped
//! back.  The rotation acts on directions; the translation only ever
//! applies to points.

use vstd::prelude::*;
use crate::fx::{lemma_fx_mul_one, lemma_fx_mul_zero, FX_ONE};
use crate::vec::{vadd_spec, vdot_spec, vneg_spec, Vec3};

verus! {

/// A 3x3 fixed-point matrix, stored by rows.
#[derive(Clone, Copy, Debug, PartialEq, Eq, Structural)]
pub struct Mat3 {
    pub r0: Vec3,
    pub r1: Vec3,
    pub r2: Vec3,
}

/// The model of `Mat3::mul_vec`: each component is the row's fixed-point
/// dot product with the vector.
pub open spec fn mat_vec_spec(m: Mat3, v: Vec3) -> Vec3 {
    Vec3 {
        x: vdot_spec(m.r0, v) as i64,
        y: vdot_spec(m.r1, v) as i64,
        z: vdot_spec(m.r2, v) as i64,
    }
}

/// The model of `Mat3::transpose`.
pub open spec fn transpose_spec(m: Mat3) -> Mat3 {
    Mat3 {
        r0: Vec3 { x: m.r0.x, y: m.r1.x, z: m.r2.x },
        r1: Vec3 { x: m.r0.y, y: m.r1.y, z: m.r2.y },
        r2: Vec3 { x: m.r0.z, y: m.r1.z, z: m.r2.z },
    }
}

/// The identity matrix.
pub open spec fn mat_identity_spec() -> Mat3 {
    Mat3 {
        r0: Vec3 { x: FX_ONE, y: 0, z: 0 },
        r1: Vec3 { x: 0, y: FX_ONE, z: 0 },
        r2: Vec3 { x: 0, y: 0, z: FX_ONE },
    }
}

/// Multiplying by the identity matrix changes nothing: each row picks
/// one component and scales it by one, which the fixed-point product
/// keeps exactly.
pub proof fn lemma_identity_mat_vec(v: Vec3)
    ensures
        mat_vec_spec(mat_identity_spec(), v) == v,
{
    lemma_fx_mul_one(v.x as int);
    lemma_fx_mul_one(v.y as int);
    lemma_fx_mul_one(v.z as int);
    lemma_fx_mul_zero(v.x as int);
    lemma_fx_mul_zero(v.y as int);
    lemma_fx_mul_zero(v.z as int);
}

impl Mat3 {
    /// The identity matrix.
    pub fn identity() -> (m: Mat3)
        ensures
            m == mat_identity_spec(),
    {
        Mat3 {
            r0: Vec3 { x: FX_ONE, y: 0, z: 0 },
            r1: Vec3 { x: 0, y: FX_ONE, z: 0 },
            r2: Vec3 { x: 0, y: 0, z: FX_ONE },
        }
    }

    /// Build a matrix from its rows.
    pub fn from_rows(r0: Vec3, r1: Vec3, r2: Vec3) -> (m: Mat3)
        ensures
            m == (Mat3 { r0, r1, r2 }),
    {
        Mat3 { r0, r1, r2 }
    }

    /// Apply the matrix to a vector.
    pub fn mul_vec(&self, v: &Vec3) -> (r: Vec3)
        ensures
            r == mat_vec_spec(*self, *v),
    {
        Vec3 { x: self.r0.dot(v), y: self.r1.dot(v), z: self.r2.dot(v) }
    }

    /// The transpose; for a rotation matrix this is its inverse rotation.
    pub fn transpose(&self) -> (r: Mat3)
        ensures
            r == transpose_spec(*self),
    {
        Mat3 {
            r0: Vec3 { x: self.r0.x, y: self.r1.x, z: self.r2.x },
            r1: Vec3 { x: self.r0.y, y: self.r1.y, z: self.r2.y },
            r2: Vec3 { x: self.r0.z, y: self.r1.z, z: self.r2.z },
        }
    }
}

/// A rigid transform: a rotation followed by a translation.
#[derive(Clone, Copy, Debug, PartialEq, Eq, Structural)]
pub struct Isometry {
    pub rotation: Mat3,
    pub translation: Vec3,
}

/// The model of `Isometry::transform_point`: rotate, then translate.
pub open spec fn transform_point_spec(iso: Isometry, p: Vec3) -> Vec3 {
    vadd_spec(mat_vec_spec(iso.rotation, p), iso.translation)
}

/// The model of `Isometry::transform_vector`: rotation only; directions
/// never receive the translation.
pub open spec fn transform_vector_spec(iso: Isometry, v: Vec3) -> Vec3 {
    mat_vec_spec(iso.rotation, v)
}

/// The model of `Isometry::inverse`: the transposed rotation, and the
/// negated back-rotated translation.
pub open spec fn inverse_spec(iso: Isometry) -> Isometry {
    Isometry {
        rotation: transpose_spec(iso.rotation),
        translation: vneg_spec(mat_vec_spec(transpose_spec(iso.rotation), iso.translation)),
    }
}

impl Isometry {
    /// Build an isometry from a rotation and a translation.
    pub fn new(rotation: Mat3, translation: Vec3) -> (r: Isometry)
        ensures
            r == (Isometry { rotation, translation }),
    {
        Isometry { rotation, translation }
    }

    /// A pure translation.
    pub fn from_translation(translation: Vec3) -> (r: Isometry)
        ensures
            r == (Isometry { rotation: mat_identity_spec(), translation }),
    {
        Isometry { rotation: Mat3::identity(), translation }
    }

    /// Transform a point: rotate, then translate.
    pub fn transform_point(&self, p: &Vec3) -> (r: Vec3)
        ensures
            r == transform_point_spec(*self, *p),
    {
        self.rotation.mul_vec(p).add(&self.translation)
    }

    /// Transform a direction: rotation only.
    pub fn transform_vector(&self, v: &Vec3) -> (r: Vec3)
        ensures
            r == transform_vector_spec(*self, *v),
    {
        self.rotation.mul_vec(v)
    }

    /// The inverse transform, assuming the rotation part is orthonormal
    /// (its transpose undoes it); exact for pure translations.
    pub fn inverse(&self) -> (r: Isometry)
        ensures
            r == inverse_spec(*self),
    {
        let rt = self.rotation.transpose();
        let t = rt.mul_vec(&self.translation).neg();
        Isometry { rotation: rt, translation: t }
    }
}

} // verus!
