//! Integer 4x4 matrices, vectors and quaternions for scene transforms.
//!
//! Transforms are retained as plain `i64` entries and composed with
//! wrapping arithmetic, so every operation is total and its value is pinned
//! down exactly. The host chooses its own numeric convention when it maps
//! these entries onto device floats.
//!
//! Entries are named `m<row><col>`; the translation part of an affine
//! transform lives in column 3 (`m03`, `m13`, `m23`).

use vstd::prelude::*;

verus! {

/// Wrapped 64-bit addition, as `i64::wrapping_add` computes it.
pub open spec fn wadd(a: i64, b: i64) -> i64 {
    vstd::wrapping::i64_specs::wrapping_add(a, b)
}

/// Wrapped 64-bit subtraction, as `i64::wrapping_sub` computes it.
pub open spec fn wsub(a: i64, b: i64) -> i64 {
    vstd::wrapping::i64_specs::wrapping_sub(a, b)
}

/// Wrapped 64-bit multiplication, as `i64::wrapping_mul` computes it.
pub open spec fn wmul(a: i64, b: i64) -> i64 {
    vstd::wrapping::i64_specs::wrapping_mul(a, b)
}

/// A two-component integer vector (UV tiling and the like).
#[derive(Clone, Copy, Debug, PartialEq, Eq, Structural)]
pub struct Vec2 {
    pub x: i64,
    pub y: i64,
}

impl Vec2 {
    pub fn new(x: i64, y: i64) -> (r: Vec2)
        ensures
            r == (Vec2 { x, y }),
    {
        Vec2 { x, y }
    }
}

/// A three-component integer vector (position, scale, color payload).
#[derive(Clone, Copy, Debug, PartialEq, Eq, Structural)]
pub struct Vec3 {
    pub x: i64,
    pub y: i64,
    pub z: i64,
}

impl Vec3 {
    pub fn new(x: i64, y: i64, z: i64) -> (r: Vec3)
        ensures
            r == (Vec3 { x, y, z }),
    {
        Vec3 { x, y, z }
    }

    pub fn zero() -> (r: Vec3)
        ensures
            r == (Vec3 { x: 0i64, y: 0i64, z: 0i64 }),
    {
        Vec3 { x: 0, y: 0, z: 0 }
    }
}

/// A quaternion with integer components; `(0, 0, 0, 1)` is the identity
/// rotation.
#[derive(Clone, Copy, Debug, PartialEq, Eq, Structural)]
pub struct Quat {
    pub x: i64,
    pub y: i64,
    pub z: i64,
    pub w: i64,
}

impl Quat {
    pub fn new(x: i64, y: i64, z: i64, w: i64) -> (r: Quat)
        ensures
            r == (Quat { x, y, z, w }),
    {
        Quat { x, y, z, w }
    }

    pub fn identity() -> (r: Quat)
        ensures
            r == spec_quat_identity(),
    {
        Quat { x: 0, y: 0, z: 0, w: 1 }
    }
}

pub open spec fn spec_quat_identity() -> Quat {
    Quat { x: 0i64, y: 0i64, z: 0i64, w: 1i64 }
}

/// A 4x4 matrix of integer entries, row `r` and column `c` in `m<r><c>`.
#[derive(Clone, Copy, Debug, PartialEq, Eq, Structural)]
pub struct Mat4 {
    pub m00: i64, pub m01: i64, pub m02: i64, pub m03: i64,
    pub m10: i64, pub m11: i64, pub m12: i64, pub m13: i64,
    pub m20: i64, pub m21: i64, pub m22: i64, pub m23: i64,
    pub m30: i64, pub m31: i64, pub m32: i64, pub m33: i64,
}

/// The entry of `a` at row `r`, column `c` (both in `0..4`).
pub open spec fn spec_entry(a: Mat4, r: int, c: int) -> i64 {
    if r == 0 {
        if c == 0 { a.m00 } else if c == 1 { a.m01 } else if c == 2 { a.m02 } else { a.m03 }
    } else if r == 1 {
        if c == 0 { a.m10 } else if c == 1 { a.m11 } else if c == 2 { a.m12 } else { a.m13 }
    } else if r == 2 {
        if c == 0 { a.m20 } else if c == 1 { a.m21 } else if c == 2 { a.m22 } else { a.m23 }
    } else {
        if c == 0 { a.m30 } else if c == 1 { a.m31 } else if c == 2 { a.m32 } else { a.m33 }
    }
}

pub open spec fn spec_identity() -> Mat4 {
    Mat4 {
        m00: 1i64, m01: 0i64, m02: 0i64, m03: 0i64,
        m10: 0i64, m11: 1i64, m12: 0i64, m13: 0i64,
        m20: 0i64, m21: 0i64, m22: 1i64, m23: 0i64,
        m30: 0i64, m31: 0i64, m32: 0i64, m33: 1i64,
    }
}

pub open spec fn spec_translation(v: Vec3) -> Mat4 {
    Mat4 {
        m00: 1i64, m01: 0i64, m02: 0i64, m03: v.x,
        m10: 0i64, m11: 1i64, m12: 0i64, m13: v.y,
        m20: 0i64, m21: 0i64, m22: 1i64, m23: v.z,
        m30: 0i64, m31: 0i64, m32: 0i64, m33: 1i64,
    }
}

pub open spec fn spec_scaling(v: Vec3) -> Mat4 {
    Mat4 {
        m00: v.x, m01: 0i64, m02: 0i64, m03: 0i64,
        m10: 0i64, m11: v.y, m12: 0i64, m13: 0i64,
        m20: 0i64, m21: 0i64, m22: v.z, m23: 0i64,
        m30: 0i64, m31: 0i64, m32: 0i64, m33: 1i64,
    }
}

/// The homogeneous rotation matrix of a quaternion, by the standard
/// polynomial formula (exact for unit quaternions), with every product and
/// sum wrapped.
pub open spec fn spec_rotation(q: Quat) -> Mat4 {
    Mat4 {
        m00: wsub(1i64, wmul(2i64, wadd(wmul(q.y, q.y), wmul(q.z, q.z)))),
        m01: wmul(2i64, wsub(wmul(q.x, q.y), wmul(q.z, q.w))),
        m02: wmul(2i64, wadd(wmul(q.x, q.z), wmul(q.y, q.w))),
        m03: 0i64,
        m10: wmul(2i64, wadd(wmul(q.x, q.y), wmul(q.z, q.w))),
        m11: wsub(1i64, wmul(2i64, wadd(wmul(q.x, q.x), wmul(q.z, q.z)))),
        m12: wmul(2i64, wsub(wmul(q.y, q.z), wmul(q.x, q.w))),
        m13: 0i64,
        m20: wmul(2i64, wsub(wmul(q.x, q.z), wmul(q.y, q.w))),
        m21: wmul(2i64, wadd(wmul(q.y, q.z), wmul(q.x, q.w))),
        m22: wsub(1i64, wmul(2i64, wadd(wmul(q.x, q.x), wmul(q.y, q.y)))),
        m23: 0i64,
        m30: 0i64, m31: 0i64, m32: 0i64, m33: 1i64,
    }
}

/// One entry of a matrix product: the wrapped dot product of row `r` of `a`
/// with column `c` of `b`.
pub open spec fn spec_mul_entry(a: Mat4, b: Mat4, r: int, c: int) -> i64 {
    wadd(
        wadd(
            wadd(
                wmul(spec_entry(a, r, 0), spec_entry(b, 0, c)),
                wmul(spec_entry(a, r, 1), spec_entry(b, 1, c)),
            ),
            wmul(spec_entry(a, r, 2), spec_entry(b, 2, c)),
        ),
        wmul(spec_entry(a, r, 3), spec_entry(b, 3, c)),
    )
}

/// The wrapped matrix product `a * b`.
pub open spec fn spec_mul(a: Mat4, b: Mat4) -> Mat4 {
    Mat4 {
        m00: spec_mul_entry(a, b, 0, 0), m01: spec_mul_entry(a, b, 0, 1),
        m02: spec_mul_entry(a, b, 0, 2), m03: spec_mul_entry(a, b, 0, 3),
        m10: spec_mul_entry(a, b, 1, 0), m11: spec_mul_entry(a, b, 1, 1),
        m12: spec_mul_entry(a, b, 1, 2), m13: spec_mul_entry(a, b, 1, 3),
        m20: spec_mul_entry(a, b, 2, 0), m21: spec_mul_entry(a, b, 2, 1),
        m22: spec_mul_entry(a, b, 2, 2), m23: spec_mul_entry(a, b, 2, 3),
        m30: spec_mul_entry(a, b, 3, 0), m31: spec_mul_entry(a, b, 3, 1),
        m32: spec_mul_entry(a, b, 3, 2), m33: spec_mul_entry(a, b, 3, 3),
    }
}

/// The transform composed from optional translation, rotation and scale,
/// in the fixed order translation x rotation x scale.
#[verifier::opaque]
pub open spec fn spec_compose(p: Option<Vec3>, q: Option<Quat>, s: Option<Vec3>) -> Mat4 {
    let pv = match p {
        Some(v) => v,
        None => Vec3 { x: 0i64, y: 0i64, z: 0i64 },
    };
    let qv = match q {
        Some(v) => v,
        None => spec_quat_identity(),
    };
    let sv = match s {
        Some(v) => v,
        None => Vec3 { x: 1i64, y: 1i64, z: 1i64 },
    };
    spec_mul(spec_mul(spec_translation(pv), spec_rotation(qv)), spec_scaling(sv))
}

/// The wrapped dot product of two rows of four entries, associated to the
/// left as `spec_mul_entry` states it.
fn dot4(a0: i64, a1: i64, a2: i64, a3: i64, b0: i64, b1: i64, b2: i64, b3: i64) -> (r: i64)
    ensures
        r == wadd(wadd(wadd(wmul(a0, b0), wmul(a1, b1)), wmul(a2, b2)), wmul(a3, b3)),
{
    a0.wrapping_mul(b0)
        .wrapping_add(a1.wrapping_mul(b1))
        .wrapping_add(a2.wrapping_mul(b2))
        .wrapping_add(a3.wrapping_mul(b3))
}

impl Mat4 {
    pub fn identity() -> (r: Mat4)
        ensures
            r == spec_identity(),
    {
        Mat4 {
            m00: 1, m01: 0, m02: 0, m03: 0,
            m10: 0, m11: 1, m12: 0, m13: 0,
            m20: 0, m21: 0, m22: 1, m23: 0,
            m30: 0, m31: 0, m32: 0, m33: 1,
        }
    }

    pub fn translation(v: Vec3) -> (r: Mat4)
        ensures
            r == spec_translation(v),
    {
        Mat4 {
            m00: 1, m01: 0, m02: 0, m03: v.x,
            m10: 0, m11: 1, m12: 0, m13: v.y,
            m20: 0, m21: 0, m22: 1, m23: v.z,
            m30: 0, m31: 0, m32: 0, m33: 1,
        }
    }

    pub fn scaling(v: Vec3) -> (r: Mat4)
        ensures
            r == spec_scaling(v),
    {
        Mat4 {
            m00: v.x, m01: 0, m02: 0, m03: 0,
            m10: 0, m11: v.y, m12: 0, m13: 0,
            m20: 0, m21: 0, m22: v.z, m23: 0,
            m30: 0, m31: 0, m32: 0, m33: 1,
        }
    }

    /// The rotation matrix of `q`, entry for entry as `spec_rotation`
    /// states it.
    pub fn rotation(q: Quat) -> (r: Mat4)
        ensures
            r == spec_rotation(q),
    {
        let two: i64 = 2;
        Mat4 {
            m00: 1i64.wrapping_sub(
                two.wrapping_mul(q.y.wrapping_mul(q.y).wrapping_add(q.z.wrapping_mul(q.z))),
            ),
            m01: two.wrapping_mul(q.x.wrapping_mul(q.y).wrapping_sub(q.z.wrapping_mul(q.w))),
            m02: two.wrapping_mul(q.x.wrapping_mul(q.z).wrapping_add(q.y.wrapping_mul(q.w))),
            m03: 0,
            m10: two.wrapping_mul(q.x.wrapping_mul(q.y).wrapping_add(q.z.wrapping_mul(q.w))),
            m11: 1i64.wrapping_sub(
                two.wrapping_mul(q.x.wrapping_mul(q.x).wrapping_add(q.z.wrapping_mul(q.z))),
            ),
            m12: two.wrapping_mul(q.y.wrapping_mul(q.z).wrapping_sub(q.x.wrapping_mul(q.w))),
            m13: 0,
            m20: two.wrapping_mul(q.x.wrapping_mul(q.z).wrapping_sub(q.y.wrapping_mul(q.w))),
            m21: two.wrapping_mul(q.y.wrapping_mul(q.z).wrapping_add(q.x.wrapping_mul(q.w))),
            m22: 1i64.wrapping_sub(
                two.wrapping_mul(q.x.wrapping_mul(q.x).wrapping_add(q.y.wrapping_mul(q.y))),
            ),
            m23: 0,
            m30: 0, m31: 0, m32: 0, m33: 1,
        }
    }

    /// The wrapped matrix product `self * o`.
    pub fn mul(&self, o: &Mat4) -> (r: Mat4)
        ensures
            r == spec_mul(*self, *o),
    {
        Mat4 {
            m00: dot4(self.m00, self.m01, self.m02, self.m03, o.m00, o.m10, o.m20, o.m30),
            m01: dot4(self.m00, self.m01, self.m02, self.m03, o.m01, o.m11, o.m21, o.m31),
            m02: dot4(self.m00, self.m01, self.m02, self.m03, o.m02, o.m12, o.m22, o.m32),
            m03: dot4(self.m00, self.m01, self.m02, self.m03, o.m03, o.m13, o.m23, o.m33),
            m10: dot4(self.m10, self.m11, self.m12, self.m13, o.m00, o.m10, o.m20, o.m30),
            m11: dot4(self.m10, self.m11, self.m12, self.m13, o.m01, o.m11, o.m21, o.m31),
            m12: dot4(self.m10, self.m11, self.m12, self.m13, o.m02, o.m12, o.m22, o.m32),
            m13: dot4(self.m10, self.m11, self.m12, self.m13, o.m03, o.m13, o.m23, o.m33),
            m20: dot4(self.m20, self.m21, self.m22, self.m23, o.m00, o.m10, o.m20, o.m30),
            m21: dot4(self.m20, self.m21, self.m22, self.m23, o.m01, o.m11, o.m21, o.m31),
            m22: dot4(self.m20, self.m21, self.m22, self.m23, o.m02, o.m12, o.m22, o.m32),
            m23: dot4(self.m20, self.m21, self.m22, self.m23, o.m03, o.m13, o.m23, o.m33),
            m30: dot4(self.m30, self.m31, self.m32, self.m33, o.m00, o.m10, o.m20, o.m30),
            m31: dot4(self.m30, self.m31, self.m32, self.m33, o.m01, o.m11, o.m21, o.m31),
            m32: dot4(self.m30, self.m31, self.m32, self.m33, o.m02, o.m12, o.m22, o.m32),
            m33: dot4(self.m30, self.m31, self.m32, self.m33, o.m03, o.m13, o.m23, o.m33),
        }
    }
}

/// The transform composed from optional translation, rotation and scale,
/// exactly `spec_compose` of the arguments.
pub fn compose_matrix(position: Option<Vec3>, rotation: Option<Quat>, scale: Option<Vec3>) -> (r:
    Mat4)
    ensures
        r == spec_compose(position, rotation, scale),
{
    proof {
        reveal(crate::mat4::spec_compose);
    }
    let p = match position {
        Some(v) => v,
        None => Vec3::zero(),
    };
    let q = match rotation {
        Some(v) => v,
        None => Quat::identity(),
    };
    let s = match scale {
        Some(v) => v,
        None => Vec3 { x: 1, y: 1, z: 1 },
    };
    Mat4::translation(p).mul(&Mat4::rotation(q)).mul(&Mat4::scaling(s))
}

/// Wrapped addition of zero is the identity.
proof fn lemma_wadd_zero(x: i64)
    ensures
        wadd(x, 0i64) == x,
        wadd(0i64, x) == x,
{
}

/// Wrapped multiplication by one is the identity.
proof fn lemma_wmul_one(x: i64)
    ensures
        wmul(1i64, x) == x,
        wmul(x, 1i64) == x,
{
    let range = 0x1_0000_0000_0000_0000int;
    if x >= 0 {
        assert((1 * x) % range == x) by {
            vstd::arithmetic::div_mod::lemma_small_mod(x as nat, range as nat);
        }
    } else {
        assert((x + range) % range == x + range) by {
            vstd::arithmetic::div_mod::lemma_small_mod((x + range) as nat, range as nat);
        }
        assert((1 * x) % range == (x + range) % range) by {
            vstd::arithmetic::div_mod::lemma_mod_add_multiples_vanish(x as int, range);
        }
    }
}

/// Wrapped multiplication by zero gives zero.
proof fn lemma_wmul_zero(x: i64)
    ensures
        wmul(0i64, x) == 0i64,
        wmul(x, 0i64) == 0i64,
{
    let range = 0x1_0000_0000_0000_0000int;
    assert((0 * x) % range == 0) by {
        vstd::arithmetic::div_mod::lemma_small_mod(0nat, range as nat);
    }
}

/// The identity matrix is a left unit for the wrapped product.
pub proof fn lemma_mul_identity_left(a: Mat4)
    ensures
        spec_mul(spec_identity(), a) == a,
{
    let i = spec_identity();
    assert forall|r: int, c: int| 0 <= r < 4 && 0 <= c < 4 implies spec_mul_entry(i, a, r, c)
        == spec_entry(a, r, c) by {
        lemma_wmul_one(spec_entry(a, r, c));
        lemma_wmul_zero(spec_entry(a, 0, c));
        lemma_wmul_zero(spec_entry(a, 1, c));
        lemma_wmul_zero(spec_entry(a, 2, c));
        lemma_wmul_zero(spec_entry(a, 3, c));
        lemma_wadd_zero(spec_entry(a, r, c));
        lemma_wadd_zero(0i64);
    }
}

/// The identity matrix is a right unit for the wrapped product.
pub proof fn lemma_mul_identity_right(a: Mat4)
    ensures
        spec_mul(a, spec_identity()) == a,
{
    let i = spec_identity();
    assert forall|r: int, c: int| 0 <= r < 4 && 0 <= c < 4 implies spec_mul_entry(a, i, r, c)
        == spec_entry(a, r, c) by {
        lemma_wmul_one(spec_entry(a, r, c));
        lemma_wmul_zero(spec_entry(a, r, 0));
        lemma_wmul_zero(spec_entry(a, r, 1));
        lemma_wmul_zero(spec_entry(a, r, 2));
        lemma_wmul_zero(spec_entry(a, r, 3));
        lemma_wadd_zero(spec_entry(a, r, c));
        lemma_wadd_zero(0i64);
    }
}

} // verus!
