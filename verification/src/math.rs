//! Vectors, rotations and transforms, and how they are blended.
//!
//! Each calculation names the operations it makes on its floating-point unit `K`,
//! in order: a function's contract says that its result comes from those
//! operations on those operands.

use crate::codec::{map_parsed, Codec, Wire};
use crate::endian::lemma_le_bytes_len;
use crate::error::DecodeError;
use crate::float::{
    deterministic, divides, exact, holds32, is32, law_negation, law_numbers, lemma_zero_units,
    multiplies, one32, roots, subtracts, sums, symmetric, FloatOps, F32,
};
use crate::reader::Reader;
use vstd::prelude::*;

verus! {

/// `r` is `a + (b - a) * t` on `K`.
pub open spec fn lerps<K: FloatOps>(a: F32, b: F32, t: F32, r: F32) -> bool {
    exists|d: F32, p: F32| #[trigger]
        subtracts::<K>(b, a, d) && #[trigger] multiplies::<K>(d, t, p) && sums::<K>(a, p, r)
}

/// Linear interpolation between two scalars.
pub fn lerp_f32<K: FloatOps>(a: F32, b: F32, t: F32) -> (r: F32)
    ensures
        lerps::<K>(a, b, t, r),
{
    let d = K::sub32(b, a);
    let p = K::mul32(d, t);
    assert(subtracts::<K>(b, a, d) && multiplies::<K>(d, t, p));
    K::add32(a, p)
}

/// A 3D vector (world units / cm).
#[derive(Debug, Clone, Copy)]
pub struct Vec3 {
    pub x: F32,
    pub y: F32,
    pub z: F32,
}

impl Vec3 {
    /// The zero vector.
    #[verifier::allow_in_spec]
    pub fn zero() -> Vec3
        returns
            (Vec3 { x: F32::zero(), y: F32::zero(), z: F32::zero() }),
    {
        Vec3 { x: F32::zero(), y: F32::zero(), z: F32::zero() }
    }

    /// The vector that has length one along each axis.
    #[verifier::allow_in_spec]
    pub fn one() -> Vec3
        returns
            (Vec3 { x: F32::one(), y: F32::one(), z: F32::one() }),
    {
        Vec3 { x: F32::one(), y: F32::one(), z: F32::one() }
    }

    /// The vector with the given components.
    pub fn new(x: F32, y: F32, z: F32) -> (r: Self)
        ensures
            r == (Vec3 { x, y, z }),
    {
        Self { x, y, z }
    }

    /// The components are equal as numbers.
    pub open spec fn same(self, o: Vec3) -> bool {
        self.x.same(o.x) && self.y.same(o.y) && self.z.same(o.z)
    }

    /// `r` is the linear interpolation of the components on `K`.
    pub open spec fn lerps<K: FloatOps>(self, o: Vec3, t: F32, r: Vec3) -> bool {
        &&& lerps::<K>(self.x, o.x, t, r.x)
        &&& lerps::<K>(self.y, o.y, t, r.y)
        &&& lerps::<K>(self.z, o.z, t, r.z)
    }

    /// Component-wise linear interpolation.
    pub fn lerp<K: FloatOps>(self, o: Vec3, t: F32) -> (r: Vec3)
        ensures
            self.lerps::<K>(o, t, r),
    {
        Vec3::new(
            lerp_f32::<K>(self.x, o.x, t),
            lerp_f32::<K>(self.y, o.y, t),
            lerp_f32::<K>(self.z, o.z, t),
        )
    }
}

impl PartialEq for Vec3 {
    fn eq(&self, other: &Vec3) -> (r: bool) {
        self.x == other.x && self.y == other.y && self.z == other.z
    }
}

impl vstd::std_specs::cmp::PartialEqSpecImpl for Vec3 {
    open spec fn obeys_eq_spec() -> bool {
        true
    }

    open spec fn eq_spec(&self, other: &Vec3) -> bool {
        self.same(*other)
    }
}

impl Default for Vec3 {
    fn default() -> (r: Vec3)
        ensures
            r == Vec3::zero(),
    {
        Vec3::zero()
    }
}

impl DeepView for Vec3 {
    type V = Vec3;

    open spec fn deep_view(&self) -> Vec3 {
        *self
    }
}

/// The fields of a [`Vec3`], in order.
pub type Vec3Fields = (F32, (F32, F32));

/// A [`Vec3`] as its fields, in order.
pub open spec fn vec3_fields(v: Vec3) -> (F32, (F32, F32)) {
    (v.x, (v.y, v.z))
}

/// The bytes are those of the fields.
proof fn lemma_vec3_layout(v: Vec3)
    ensures
        Vec3Fields::wire(vec3_fields(v)) == Vec3::wire(v),
{
    let a = F32::wire(v.x);
    let b = F32::wire(v.y);
    let c = F32::wire(v.z);
    assert(a + (b + c) =~= a + b + c);
}

impl Wire for Vec3 {
    type Val = Vec3;

    open spec fn wire(v: Vec3) -> Seq<u8> {
        F32::wire(v.x) + F32::wire(v.y) + F32::wire(v.z)
    }

    open spec fn fits(v: Vec3) -> bool {
        true
    }

    open spec fn parse(s: Seq<u8>) -> (Result<Vec3, DecodeError>, nat) {
        map_parsed(
            Vec3Fields::parse(s),
            |f: (F32, (F32, F32))| Vec3 {
                x: f.0,
                y: f.1.0,
                z: f.1.1,
            },
        )
    }

    proof fn law_within(s: Seq<u8>) {
        Vec3Fields::law_within(s);
    }

    proof fn law_read_back(v: Vec3, rest: Seq<u8>) {
        lemma_vec3_layout(v);
        Vec3Fields::law_read_back(vec3_fields(v), rest);
    }

    proof fn law_canonical(s: Seq<u8>) {
        Vec3Fields::law_canonical(s);
        if let Ok(v) = Self::parse(s).0 {
            lemma_vec3_layout(v);
        }
    }

    proof fn law_truncated(v: Vec3, k: nat) {
        lemma_vec3_layout(v);
        Vec3Fields::law_truncated(vec3_fields(v), k);
    }
}

impl Codec for Vec3 {
    fn write(&self, out: &mut Vec<u8>) {
        self.x.write(out);
        self.y.write(out);
        self.z.write(out);
        assert(out@ =~= old(out)@ + Self::wire(*self));
    }

    fn read(r: &mut Reader) -> (res: Result<Self, DecodeError>) {
        let (x, (y, z)) = Vec3Fields::read(r)?;
        Ok(Vec3 { x, y, z })
    }
}

/// A quaternion rotation `(x, y, z, w)`.
#[derive(Debug, Clone, Copy)]
pub struct Quat {
    pub x: F32,
    pub y: F32,
    pub z: F32,
    pub w: F32,
}

impl Quat {
    /// The rotation that turns nothing.
    #[verifier::allow_in_spec]
    pub fn identity() -> Quat
        returns
            (Quat { x: F32::zero(), y: F32::zero(), z: F32::zero(), w: F32::one() }),
    {
        Quat { x: F32::zero(), y: F32::zero(), z: F32::zero(), w: F32::one() }
    }

    /// The quaternion with the given components.
    pub fn new(x: F32, y: F32, z: F32, w: F32) -> (r: Self)
        ensures
            r == (Quat { x, y, z, w }),
    {
        Self { x, y, z, w }
    }

    /// The components are equal as numbers.
    pub open spec fn same(self, o: Quat) -> bool {
        self.x.same(o.x) && self.y.same(o.y) && self.z.same(o.z) && self.w.same(o.w)
    }

    /// The same rotation, written with the other sign.
    pub open spec fn negated(self) -> Quat {
        Quat {
            x: self.x.negated(),
            y: self.y.negated(),
            z: self.z.negated(),
            w: self.w.negated(),
        }
    }

    /// `r` is the sum of the four products on `K`, added from the left.
    pub open spec fn dots<K: FloatOps>(self, o: Quat, r: F32) -> bool {
        exists|px: F32, py: F32, pz: F32, pw: F32, xy: F32, xyz: F32| #[trigger]
            multiplies::<K>(self.x, o.x, px) && #[trigger] multiplies::<K>(self.y, o.y, py)
                && #[trigger] multiplies::<K>(self.z, o.z, pz) && #[trigger] multiplies::<K>(
                self.w,
                o.w,
                pw,
            ) && #[trigger] sums::<K>(px, py, xy) && #[trigger] sums::<K>(xy, pz, xyz) && sums::<K>(
                xyz,
                pw,
                r,
            )
    }

    /// The dot product.
    pub fn dot<K: FloatOps>(self, o: Quat) -> (r: F32)
        ensures
            self.dots::<K>(o, r),
    {
        let px = K::mul32(self.x, o.x);
        let py = K::mul32(self.y, o.y);
        let pz = K::mul32(self.z, o.z);
        let pw = K::mul32(self.w, o.w);
        let xy = K::add32(px, py);
        let xyz = K::add32(xy, pz);
        assert(multiplies::<K>(self.x, o.x, px) && multiplies::<K>(self.y, o.y, py) && multiplies::<
            K,
        >(self.z, o.z, pz) && multiplies::<K>(self.w, o.w, pw));
        assert(sums::<K>(px, py, xy) && sums::<K>(xy, pz, xyz));
        K::add32(xyz, pw)
    }

    /// `r` is the square root of the dot product with itself, on `K`.
    pub open spec fn lengths<K: FloatOps>(self, r: F32) -> bool {
        exists|d: F32| #[trigger] self.dots::<K>(self, d) && roots::<K>(d, r)
    }

    /// The length.
    pub fn length<K: FloatOps>(self) -> (r: F32)
        ensures
            self.lengths::<K>(r),
    {
        let d = self.dot::<K>(self);
        K::sqrt32(d)
    }

    /// Every component is finite.
    pub open spec fn is_finite(self) -> bool {
        self.x.is_finite() && self.y.is_finite() && self.z.is_finite() && self.w.is_finite()
    }

    /// The largest component, signs aside.
    pub open spec fn largest(self) -> F32 {
        self.x.absolute().larger(self.y.absolute()).larger(self.z.absolute()).larger(
            self.w.absolute(),
        )
    }

    /// `r` is each component divided by `d`, on `K`.
    pub open spec fn quotients<K: FloatOps>(self, d: F32, r: Quat) -> bool {
        &&& divides::<K>(self.x, d, r.x)
        &&& divides::<K>(self.y, d, r.y)
        &&& divides::<K>(self.z, d, r.z)
        &&& divides::<K>(self.w, d, r.w)
    }

    /// Each component divided by `d`.
    fn divided<K: FloatOps>(self, d: F32) -> (r: Quat)
        ensures
            self.quotients::<K>(d, r),
    {
        Quat::new(
            K::div32(self.x, d),
            K::div32(self.y, d),
            K::div32(self.z, d),
            K::div32(self.w, d),
        )
    }

    /// `p` is what is left, on `K`, when the quaternion is divided by its largest component
    /// and then by the length that it has after that.
    pub open spec fn rescales<K: FloatOps>(self, p: Quat) -> bool {
        exists|m: Quat, len: F32| #[trigger]
            self.quotients::<K>(self.largest(), m) && #[trigger] m.lengths::<K>(len)
                && m.quotients::<K>(len, p)
    }

    /// `r` is `p` where its length on `K` is one, and the identity where it is not.
    pub open spec fn accepts<K: FloatOps>(p: Quat, r: Quat) -> bool {
        exists|len: F32| #[trigger]
            p.lengths::<K>(len) && r == if len.near_one() {
                p
            } else {
                Quat::identity()
            }
    }

    /// `r` is the quotient `p` of the quaternion by its length where that has length one,
    /// on `K`. Where it has not, because the squares of the components are too large or too
    /// small for a number, finite components are divided by the largest of them first. The
    /// identity stands for all that has no quotient of length one.
    pub open spec fn settles<K: FloatOps>(self, p: Quat, r: Quat) -> bool {
        exists|len: F32| #[trigger]
            p.lengths::<K>(len) && if len.near_one() {
                r == p
            } else if self.is_finite() {
                exists|q: Quat| #[trigger] self.rescales::<K>(q) && Quat::accepts::<K>(q, r)
            } else {
                r == Quat::identity()
            }
    }

    /// `r` is each component divided by the length, on `K`, settled to length one, or the
    /// identity where the length is not above zero.
    pub open spec fn normalizes<K: FloatOps>(self, r: Quat) -> bool {
        exists|len: F32| #[trigger]
            self.lengths::<K>(len) && if F32::zero().less(len) {
                exists|p: Quat| #[trigger] self.quotients::<K>(len, p) && self.settles::<K>(p, r)
            } else {
                r == Quat::identity()
            }
    }

    /// The quotient by the largest component and then by the length, or the identity where
    /// that has not length one.
    fn rescaled<K: FloatOps>(self) -> (r: Quat)
        ensures
            exists|q: Quat| #[trigger] self.rescales::<K>(q) && Quat::accepts::<K>(q, r),
    {
        let largest = self.x.abs().max(self.y.abs()).max(self.z.abs()).max(self.w.abs());
        let m = self.divided::<K>(largest);
        let len = m.length::<K>();
        let q = m.divided::<K>(len);
        assert(largest == self.largest());
        assert(self.quotients::<K>(self.largest(), m) && m.lengths::<K>(len));
        assert(self.rescales::<K>(q));
        let q_len = q.length::<K>();
        if q_len.close_to_one() {
            q
        } else {
            Quat::identity()
        }
    }

    /// Returns a unit-length copy (or identity if degenerate).
    pub fn normalized<K: FloatOps>(self) -> (r: Quat)
        ensures
            self.normalizes::<K>(r),
    {
        let len = self.length::<K>();
        if F32::zero().lt(len) {
            let p = self.divided::<K>(len);
            let p_len = p.length::<K>();
            let r = if p_len.close_to_one() {
                p
            } else if self.x.finite() && self.y.finite() && self.z.finite() && self.w.finite() {
                self.rescaled::<K>()
            } else {
                Quat::identity()
            };
            assert(self.settles::<K>(p, r));
            r
        } else {
            Quat::identity()
        }
    }

    /// `r` is the linear interpolation of the components on `K`.
    pub open spec fn lerps<K: FloatOps>(self, o: Quat, t: F32, r: Quat) -> bool {
        &&& lerps::<K>(self.x, o.x, t, r.x)
        &&& lerps::<K>(self.y, o.y, t, r.y)
        &&& lerps::<K>(self.z, o.z, t, r.z)
        &&& lerps::<K>(self.w, o.w, t, r.w)
    }

    /// `r` is the normalized interpolation on `K` toward `o`, or toward `o` with the
    /// other sign where the dot product is below zero.
    pub open spec fn nlerps<K: FloatOps>(self, o: Quat, t: F32, r: Quat) -> bool {
        exists|d: F32, m: Quat| #[trigger]
            self.dots::<K>(o, d) && #[trigger] m.normalizes::<K>(r) && self.lerps::<K>(
                if d.less(F32::zero()) {
                    o.negated()
                } else {
                    o
                },
                t,
                m,
            )
    }

    /// Normalized lerp along the shortest arc. This is the cheap, robust choice
    /// for interpolation between authoritative ticks; slerp is rarely worth it at the
    /// small angular deltas seen between adjacent ticks.
    pub fn nlerp<K: FloatOps>(self, o: Quat, t: F32) -> (r: Quat)
        ensures
            self.nlerps::<K>(o, t, r),
    {
        let d = self.dot::<K>(o);
        let near = if d.lt(F32::zero()) {
            Quat::new(o.x.neg(), o.y.neg(), o.z.neg(), o.w.neg())
        } else {
            o
        };
        let m = Quat::new(
            lerp_f32::<K>(self.x, near.x, t),
            lerp_f32::<K>(self.y, near.y, t),
            lerp_f32::<K>(self.z, near.z, t),
            lerp_f32::<K>(self.w, near.w, t),
        );
        m.normalized::<K>()
    }
}

impl PartialEq for Quat {
    fn eq(&self, other: &Quat) -> (r: bool) {
        self.x == other.x && self.y == other.y && self.z == other.z && self.w == other.w
    }
}

impl vstd::std_specs::cmp::PartialEqSpecImpl for Quat {
    open spec fn obeys_eq_spec() -> bool {
        true
    }

    open spec fn eq_spec(&self, other: &Quat) -> bool {
        self.same(*other)
    }
}

impl DeepView for Quat {
    type V = Quat;

    open spec fn deep_view(&self) -> Quat {
        *self
    }
}

/// The fields of a [`Quat`], in order.
pub type QuatFields = (F32, (F32, (F32, F32)));

/// A [`Quat`] as its fields, in order.
pub open spec fn quat_fields(v: Quat) -> (F32, (F32, (F32, F32))) {
    (v.x, (v.y, (v.z, v.w)))
}

/// The bytes are those of the fields.
proof fn lemma_quat_layout(v: Quat)
    ensures
        QuatFields::wire(quat_fields(v)) == Quat::wire(v),
{
    let a = F32::wire(v.x);
    let b = F32::wire(v.y);
    let c = F32::wire(v.z);
    let d = F32::wire(v.w);
    assert(a + (b + (c + d)) =~= a + b + c + d);
}

impl Wire for Quat {
    type Val = Quat;

    open spec fn wire(v: Quat) -> Seq<u8> {
        F32::wire(v.x) + F32::wire(v.y) + F32::wire(v.z) + F32::wire(v.w)
    }

    open spec fn fits(v: Quat) -> bool {
        true
    }

    open spec fn parse(s: Seq<u8>) -> (Result<Quat, DecodeError>, nat) {
        map_parsed(
            QuatFields::parse(s),
            |f: (F32, (F32, (F32, F32)))| Quat {
                x: f.0,
                y: f.1.0,
                z: f.1.1.0,
                w: f.1.1.1,
            },
        )
    }

    proof fn law_within(s: Seq<u8>) {
        QuatFields::law_within(s);
    }

    proof fn law_read_back(v: Quat, rest: Seq<u8>) {
        lemma_quat_layout(v);
        QuatFields::law_read_back(quat_fields(v), rest);
    }

    proof fn law_canonical(s: Seq<u8>) {
        QuatFields::law_canonical(s);
        if let Ok(v) = Self::parse(s).0 {
            lemma_quat_layout(v);
        }
    }

    proof fn law_truncated(v: Quat, k: nat) {
        lemma_quat_layout(v);
        QuatFields::law_truncated(quat_fields(v), k);
    }
}

impl Codec for Quat {
    fn write(&self, out: &mut Vec<u8>) {
        self.x.write(out);
        self.y.write(out);
        self.z.write(out);
        self.w.write(out);
        assert(out@ =~= old(out)@ + Self::wire(*self));
    }

    fn read(r: &mut Reader) -> (res: Result<Self, DecodeError>) {
        let (x, (y, (z, w))) = QuatFields::read(r)?;
        Ok(Quat { x, y, z, w })
    }
}

/// A full transform (translation / rotation / scale).
#[derive(Debug, Clone, Copy)]
pub struct Transform {
    pub translation: Vec3,
    pub rotation: Quat,
    pub scale: Vec3,
}

impl Transform {
    /// The transform that moves, turns and scales nothing.
    #[verifier::allow_in_spec]
    pub fn identity() -> Transform
        returns
            (Transform {
                translation: Vec3::zero(),
                rotation: Quat::identity(),
                scale: Vec3::one(),
            }),
    {
        Transform { translation: Vec3::zero(), rotation: Quat::identity(), scale: Vec3::one() }
    }

    /// The components are equal as numbers.
    pub open spec fn same(self, o: Transform) -> bool {
        self.translation.same(o.translation) && self.rotation.same(o.rotation) && self.scale.same(
            o.scale,
        )
    }

    /// `r` is the interpolation of the three parts on `K`.
    pub open spec fn interpolates<K: FloatOps>(self, o: Transform, t: F32, r: Transform) -> bool {
        &&& self.translation.lerps::<K>(o.translation, t, r.translation)
        &&& self.rotation.nlerps::<K>(o.rotation, t, r.rotation)
        &&& self.scale.lerps::<K>(o.scale, t, r.scale)
    }

    /// Interpolate two transforms (lerp translation/scale, nlerp rotation).
    pub fn interpolate<K: FloatOps>(self, o: Transform, t: F32) -> (r: Transform)
        ensures
            self.interpolates::<K>(o, t, r),
    {
        Transform {
            translation: self.translation.lerp::<K>(o.translation, t),
            rotation: self.rotation.nlerp::<K>(o.rotation, t),
            scale: self.scale.lerp::<K>(o.scale, t),
        }
    }
}

impl PartialEq for Transform {
    fn eq(&self, other: &Transform) -> (r: bool) {
        self.translation == other.translation && self.rotation == other.rotation && self.scale
            == other.scale
    }
}

impl vstd::std_specs::cmp::PartialEqSpecImpl for Transform {
    open spec fn obeys_eq_spec() -> bool {
        true
    }

    open spec fn eq_spec(&self, other: &Transform) -> bool {
        self.same(*other)
    }
}

impl DeepView for Transform {
    type V = Transform;

    open spec fn deep_view(&self) -> Transform {
        *self
    }
}

/// The fields of a [`Transform`], in order.
pub type TransformFields = (Vec3, (Quat, Vec3));

/// A [`Transform`] as its fields, in order.
pub open spec fn transform_fields(v: Transform) -> (Vec3, (Quat, Vec3)) {
    (v.translation, (v.rotation, v.scale))
}

/// The bytes are those of the fields.
proof fn lemma_transform_layout(v: Transform)
    ensures
        TransformFields::wire(transform_fields(v)) == Transform::wire(v),
{
    let a = Vec3::wire(v.translation);
    let b = Quat::wire(v.rotation);
    let c = Vec3::wire(v.scale);
    assert(a + (b + c) =~= a + b + c);
}

impl Wire for Transform {
    type Val = Transform;

    open spec fn wire(v: Transform) -> Seq<u8> {
        Vec3::wire(v.translation) + Quat::wire(v.rotation) + Vec3::wire(v.scale)
    }

    open spec fn fits(v: Transform) -> bool {
        true
    }

    open spec fn parse(s: Seq<u8>) -> (Result<Transform, DecodeError>, nat) {
        map_parsed(
            TransformFields::parse(s),
            |f: (Vec3, (Quat, Vec3))| Transform {
                translation: f.0,
                rotation: f.1.0,
                scale: f.1.1,
            },
        )
    }

    proof fn law_within(s: Seq<u8>) {
        TransformFields::law_within(s);
    }

    proof fn law_read_back(v: Transform, rest: Seq<u8>) {
        lemma_transform_layout(v);
        TransformFields::law_read_back(transform_fields(v), rest);
    }

    proof fn law_canonical(s: Seq<u8>) {
        TransformFields::law_canonical(s);
        if let Ok(v) = Self::parse(s).0 {
            lemma_transform_layout(v);
        }
    }

    proof fn law_truncated(v: Transform, k: nat) {
        lemma_transform_layout(v);
        TransformFields::law_truncated(transform_fields(v), k);
    }
}

impl Codec for Transform {
    fn write(&self, out: &mut Vec<u8>) {
        self.translation.write(out);
        self.rotation.write(out);
        self.scale.write(out);
        assert(out@ =~= old(out)@ + Self::wire(*self));
    }

    fn read(r: &mut Reader) -> (res: Result<Self, DecodeError>) {
        let (translation, (rotation, scale)) = TransformFields::read(r)?;
        Ok(Transform { translation, rotation, scale })
    }
}

/// On a deterministic unit a scalar has one interpolation.
pub proof fn law_lerp_deterministic<K: FloatOps>(a: F32, b: F32, t: F32, r: F32, s: F32)
    requires
        deterministic::<K>(),
        lerps::<K>(a, b, t, r),
        lerps::<K>(a, b, t, s),
    ensures
        r == s,
{
}

/// On a deterministic unit a vector has one interpolation.
pub proof fn law_vec3_lerp_deterministic<K: FloatOps>(a: Vec3, b: Vec3, t: F32, r: Vec3, s: Vec3)
    requires
        deterministic::<K>(),
        a.lerps::<K>(b, t, r),
        a.lerps::<K>(b, t, s),
    ensures
        r == s,
{
    law_lerp_deterministic::<K>(a.x, b.x, t, r.x, s.x);
    law_lerp_deterministic::<K>(a.y, b.y, t, r.y, s.y);
    law_lerp_deterministic::<K>(a.z, b.z, t, r.z, s.z);
}

/// On a deterministic unit two quaternions have one dot product.
pub proof fn law_dot_deterministic<K: FloatOps>(a: Quat, b: Quat, r: F32, s: F32)
    requires
        deterministic::<K>(),
        a.dots::<K>(b, r),
        a.dots::<K>(b, s),
    ensures
        r == s,
{
}

/// On a deterministic unit a quaternion has one length.
pub proof fn law_length_deterministic<K: FloatOps>(q: Quat, r: F32, s: F32)
    requires
        deterministic::<K>(),
        q.lengths::<K>(r),
        q.lengths::<K>(s),
    ensures
        r == s,
{
    let d = choose|d: F32| #[trigger] q.dots::<K>(q, d) && roots::<K>(d, r);
    let e = choose|e: F32| #[trigger] q.dots::<K>(q, e) && roots::<K>(e, s);
    law_dot_deterministic::<K>(q, q, d, e);
}

/// On a deterministic unit a quaternion has one normalized form.
pub proof fn law_normalized_deterministic<K: FloatOps>(q: Quat, r: Quat, s: Quat)
    requires
        deterministic::<K>(),
        q.normalizes::<K>(r),
        q.normalizes::<K>(s),
    ensures
        r == s,
{
    assert forall|p: Quat, l: F32, m: F32| #[trigger] p.lengths::<K>(l) && #[trigger] p.lengths::<
        K,
    >(m) implies l == m by {
        law_length_deterministic::<K>(p, l, m);
    }
    assert forall|p: Quat, d: F32, m: Quat, n: Quat| #[trigger]
        p.quotients::<K>(d, m) && #[trigger] p.quotients::<K>(d, n) implies m == n by {}
}

/// On a deterministic unit two rotations have one interpolation.
pub proof fn law_nlerp_deterministic<K: FloatOps>(a: Quat, b: Quat, t: F32, r: Quat, s: Quat)
    requires
        deterministic::<K>(),
        a.nlerps::<K>(b, t, r),
        a.nlerps::<K>(b, t, s),
    ensures
        r == s,
{
    let near = |d: F32|
        if d.less(F32::zero()) {
            b.negated()
        } else {
            b
        };
    let (d, m) = choose|d: F32, m: Quat| #[trigger]
        a.dots::<K>(b, d) && #[trigger] m.normalizes::<K>(r) && a.lerps::<K>(near(d), t, m);
    let (e, n) = choose|e: F32, n: Quat| #[trigger]
        a.dots::<K>(b, e) && #[trigger] n.normalizes::<K>(s) && a.lerps::<K>(near(e), t, n);
    law_dot_deterministic::<K>(a, b, d, e);
    law_lerp_deterministic::<K>(a.x, near(d).x, t, m.x, n.x);
    law_lerp_deterministic::<K>(a.y, near(d).y, t, m.y, n.y);
    law_lerp_deterministic::<K>(a.z, near(d).z, t, m.z, n.z);
    law_lerp_deterministic::<K>(a.w, near(d).w, t, m.w, n.w);
    law_normalized_deterministic::<K>(m, r, s);
}

/// On a deterministic unit two transforms have one interpolation.
pub proof fn law_interpolate_deterministic<K: FloatOps>(
    a: Transform,
    b: Transform,
    t: F32,
    r: Transform,
    s: Transform,
)
    requires
        deterministic::<K>(),
        a.interpolates::<K>(b, t, r),
        a.interpolates::<K>(b, t, s),
    ensures
        r == s,
{
    law_vec3_lerp_deterministic::<K>(
        a.translation,
        b.translation,
        t,
        r.translation,
        s.translation,
    );
    law_nlerp_deterministic::<K>(a.rotation, b.rotation, t, r.rotation, s.rotation);
    law_vec3_lerp_deterministic::<K>(a.scale, b.scale, t, r.scale, s.scale);
}

/// What comes out of a normalization has length one on the unit that made it, or is the
/// identity. This holds on every unit.
pub proof fn law_normalized_is_unit<K: FloatOps>(q: Quat, r: Quat)
    requires
        q.normalizes::<K>(r),
    ensures
        r == Quat::identity() || exists|len: F32| #[trigger] r.lengths::<K>(len) && len.near_one(),
{
}

/// What comes out of a blend of two rotations has length one on the unit that made it, or
/// is the identity.
pub proof fn law_nlerp_is_unit<K: FloatOps>(a: Quat, b: Quat, t: F32, r: Quat)
    requires
        a.nlerps::<K>(b, t, r),
    ensures
        r == Quat::identity() || exists|len: F32| #[trigger] r.lengths::<K>(len) && len.near_one(),
{
    let (d, m) = choose|d: F32, m: Quat| #[trigger]
        a.dots::<K>(b, d) && #[trigger] m.normalizes::<K>(r) && a.lerps::<K>(
            if d.less(F32::zero()) {
                b.negated()
            } else {
                b
            },
            t,
            m,
        );
    law_normalized_is_unit::<K>(m, r);
}

/// On a deterministic unit, where each component divided by the length gives a quaternion
/// of length one, that quaternion is what comes out.
pub proof fn law_normalized_is_quotient<K: FloatOps>(
    q: Quat,
    len: F32,
    p: Quat,
    p_len: F32,
    r: Quat,
)
    requires
        deterministic::<K>(),
        q.lengths::<K>(len),
        F32::zero().less(len),
        divides::<K>(q.x, len, p.x),
        divides::<K>(q.y, len, p.y),
        divides::<K>(q.z, len, p.z),
        divides::<K>(q.w, len, p.w),
        p.lengths::<K>(p_len),
        p_len.near_one(),
        q.normalizes::<K>(r),
    ensures
        r == p,
{
    assert(q.quotients::<K>(len, p));
    assert(q.settles::<K>(p, p));
    assert(q.normalizes::<K>(p));
    law_normalized_deterministic::<K>(q, r, p);
}

/// `r` lies on the straight way from `a` to `b`, as far along it as `t` says: it is
/// `a + (b - a) * t`, wherever numbers can hold each of these.
pub open spec fn on_the_way(a: F32, b: F32, t: F32, r: F32) -> bool {
    forall|p: int| #[trigger]
        holds32(p) && a.is_finite() && b.is_finite() && t.is_finite() && holds32(
            b.units() - a.units(),
        ) && p * one32() == (b.units() - a.units()) * t.units() && holds32(a.units() + p) ==> is32(
            r,
            a.units() + p,
        )
}

/// On an exact unit an interpolated number lies on the way from the first to the second: it
/// is the first at zero and the second at one.
pub proof fn law_lerp_on_the_way<K: FloatOps>(a: F32, b: F32, t: F32, r: F32)
    requires
        exact::<K>(),
        lerps::<K>(a, b, t, r),
    ensures
        on_the_way(a, b, t, r),
        a.is_finite() && b.is_finite() && is32(t, 0) && holds32(b.units() - a.units()) ==> is32(
            r,
            a.units(),
        ),
        a.is_finite() && b.is_finite() && is32(t, one32()) && holds32(b.units() - a.units())
            ==> is32(r, b.units()),
{
    let (d, p) = choose|d: F32, p: F32| #[trigger]
        subtracts::<K>(b, a, d) && #[trigger] multiplies::<K>(d, t, p) && sums::<K>(a, p, r);
    assert forall|u: int| #[trigger]
        holds32(u) && a.is_finite() && b.is_finite() && t.is_finite() && holds32(
            b.units() - a.units(),
        ) && u * one32() == (b.units() - a.units()) * t.units() && holds32(
            a.units() + u,
        ) implies is32(r, a.units() + u) by {
        assert(is32(d, b.units() - a.units()));
        assert(is32(p, u));
    }
    law_numbers();
    let full = b.units() - a.units();
    assert(0 * one32() == full * 0) by (nonlinear_arith);
    if a.is_finite() && b.is_finite() && is32(t, 0) && holds32(full) {
        assert(holds32(0) && holds32(a.units() + 0));
    }
    if a.is_finite() && b.is_finite() && is32(t, one32()) && holds32(full) {
        assert(holds32(full) && holds32(a.units() + full));
    }
}

/// On an exact unit each component of an interpolated vector lies on the way between the
/// same components of the two.
pub proof fn law_vec3_lerp_on_the_way<K: FloatOps>(a: Vec3, b: Vec3, t: F32, r: Vec3)
    requires
        exact::<K>(),
        a.lerps::<K>(b, t, r),
    ensures
        on_the_way(a.x, b.x, t, r.x),
        on_the_way(a.y, b.y, t, r.y),
        on_the_way(a.z, b.z, t, r.z),
{
    law_lerp_on_the_way::<K>(a.x, b.x, t, r.x);
    law_lerp_on_the_way::<K>(a.y, b.y, t, r.y);
    law_lerp_on_the_way::<K>(a.z, b.z, t, r.z);
}

/// On an exact unit the dot product is the sum of the products, wherever numbers can hold
/// each of these.
pub proof fn law_dot_exact<K: FloatOps>(
    a: Quat,
    b: Quat,
    r: F32,
    px: int,
    py: int,
    pz: int,
    pw: int,
)
    requires
        exact::<K>(),
        a.is_finite(),
        b.is_finite(),
        a.dots::<K>(b, r),
        px * one32() == a.x.units() * b.x.units(),
        py * one32() == a.y.units() * b.y.units(),
        pz * one32() == a.z.units() * b.z.units(),
        pw * one32() == a.w.units() * b.w.units(),
        holds32(px),
        holds32(py),
        holds32(pz),
        holds32(pw),
        holds32(px + py),
        holds32(px + py + pz),
        holds32(px + py + pz + pw),
    ensures
        is32(r, px + py + pz + pw),
{
    let (x, y, z, w, xy, xyz) = choose|x: F32, y: F32, z: F32, w: F32, xy: F32, xyz: F32|
        #[trigger]
        multiplies::<K>(a.x, b.x, x) && #[trigger] multiplies::<K>(a.y, b.y, y)
            && #[trigger] multiplies::<K>(a.z, b.z, z) && #[trigger] multiplies::<K>(a.w, b.w, w)
            && #[trigger] sums::<K>(x, y, xy) && #[trigger] sums::<K>(xy, z, xyz) && sums::<K>(
            xyz,
            w,
            r,
        );
    assert(is32(x, px) && is32(y, py) && is32(z, pz) && is32(w, pw));
    assert(is32(xy, px + py));
    assert(is32(xyz, px + py + pz));
}

/// On an exact unit the square of the length is the dot product with itself.
pub proof fn law_length_exact<K: FloatOps>(q: Quat, d: F32, r: F32, n: int)
    requires
        exact::<K>(),
        deterministic::<K>(),
        q.dots::<K>(q, d),
        d.is_finite(),
        q.lengths::<K>(r),
        n >= 0,
        holds32(n),
        n * n == d.units() * one32(),
    ensures
        is32(r, n),
{
    let e = choose|e: F32| #[trigger] q.dots::<K>(q, e) && roots::<K>(e, r);
    law_dot_deterministic::<K>(q, q, d, e);
}

/// A blend of two rotations is a normalized straight way from the first, component by
/// component, toward the second or its negation, whichever has no dot product below zero
/// with the first. This holds on a deterministic unit that treats both signs alike.
pub proof fn law_nlerp_toward_nearer<K: FloatOps>(a: Quat, b: Quat, t: F32, r: Quat)
    requires
        deterministic::<K>(),
        symmetric::<K>(),
        a.nlerps::<K>(b, t, r),
    ensures
        exists|near: Quat, m: Quat|
            {
                &&& near == b || near == b.negated()
                &&& forall|e: F32| #[trigger]
                    a.dots::<K>(near, e) && !e.is_nan() ==> e.units() >= 0
                &&& #[trigger] lerps::<K>(a.x, near.x, t, m.x)
                &&& #[trigger] lerps::<K>(a.y, near.y, t, m.y)
                &&& #[trigger] lerps::<K>(a.z, near.z, t, m.z)
                &&& #[trigger] lerps::<K>(a.w, near.w, t, m.w)
                &&& m.normalizes::<K>(r)
            },
{
    let (d, m) = choose|d: F32, m: Quat| #[trigger]
        a.dots::<K>(b, d) && #[trigger] m.normalizes::<K>(r) && a.lerps::<K>(
            if d.less(F32::zero()) {
                b.negated()
            } else {
                b
            },
            t,
            m,
        );
    lemma_zero_units();
    let near = if d.less(F32::zero()) {
        b.negated()
    } else {
        b
    };
    assert forall|e: F32| #[trigger] a.dots::<K>(near, e) && !e.is_nan() implies e.units() >= 0 by {
        if d.less(F32::zero()) {
            lemma_dot_opposite::<K>(a, b, d, e);
        } else {
            law_dot_deterministic::<K>(a, b, d, e);
        }
    }
    assert(lerps::<K>(a.x, near.x, t, m.x) && lerps::<K>(a.y, near.y, t, m.y));
    assert(lerps::<K>(a.z, near.z, t, m.z) && lerps::<K>(a.w, near.w, t, m.w));
}

/// On an exact unit the place and the scale of an interpolated transform lie on the way
/// between those of the two, and its rotation is the blend of theirs.
pub proof fn law_transform_on_the_way<K: FloatOps>(a: Transform, b: Transform, t: F32, r: Transform)
    requires
        exact::<K>(),
        a.interpolates::<K>(b, t, r),
    ensures
        on_the_way(a.translation.x, b.translation.x, t, r.translation.x),
        on_the_way(a.translation.y, b.translation.y, t, r.translation.y),
        on_the_way(a.translation.z, b.translation.z, t, r.translation.z),
        on_the_way(a.scale.x, b.scale.x, t, r.scale.x),
        on_the_way(a.scale.y, b.scale.y, t, r.scale.y),
        on_the_way(a.scale.z, b.scale.z, t, r.scale.z),
        a.rotation.nlerps::<K>(b.rotation, t, r.rotation),
{
    law_vec3_lerp_on_the_way::<K>(a.translation, b.translation, t, r.translation);
    law_vec3_lerp_on_the_way::<K>(a.scale, b.scale, t, r.scale);
}

/// Vectors, rotations and transforms are equal where all their components are equal
/// numbers, and only there.
pub proof fn law_same(a: Transform, b: Transform)
    ensures
        ({
            let (u, v) = (a.translation, b.translation);
            u.same(v) <==> {
                &&& !u.x.is_nan() && !v.x.is_nan() && u.x.units() == v.x.units()
                &&& !u.y.is_nan() && !v.y.is_nan() && u.y.units() == v.y.units()
                &&& !u.z.is_nan() && !v.z.is_nan() && u.z.units() == v.z.units()
            }
        }),
        ({
            let (p, q) = (a.rotation, b.rotation);
            p.same(q) <==> {
                &&& !p.x.is_nan() && !q.x.is_nan() && p.x.units() == q.x.units()
                &&& !p.y.is_nan() && !q.y.is_nan() && p.y.units() == q.y.units()
                &&& !p.z.is_nan() && !q.z.is_nan() && p.z.units() == q.z.units()
                &&& !p.w.is_nan() && !q.w.is_nan() && p.w.units() == q.w.units()
            }
        }),
        a.same(b) <==> a.translation.same(b.translation) && a.rotation.same(b.rotation)
            && a.scale.same(b.scale),
{
}

/// The identity moves by nothing, turns by nothing and scales by one.
pub proof fn law_identity()
    ensures
        is32(Transform::identity().translation.x, 0),
        is32(Transform::identity().translation.y, 0),
        is32(Transform::identity().translation.z, 0),
        is32(Transform::identity().rotation.x, 0),
        is32(Transform::identity().rotation.y, 0),
        is32(Transform::identity().rotation.z, 0),
        is32(Transform::identity().rotation.w, one32()),
        is32(Transform::identity().scale.x, one32()),
        is32(Transform::identity().scale.y, one32()),
        is32(Transform::identity().scale.z, one32()),
        Transform::identity().rotation == Quat::identity(),
        Transform::identity().translation == Vec3::zero(),
        Transform::identity().scale == Vec3::one(),
{
    law_numbers();
}

/// The largest component is one of the four, signs aside, and none is larger.
pub proof fn law_largest_component(q: Quat)
    requires
        q.is_finite(),
    ensures
        q.largest() == q.x.absolute() || q.largest() == q.y.absolute() || q.largest()
            == q.z.absolute() || q.largest() == q.w.absolute(),
        !q.largest().less(q.x.absolute()),
        !q.largest().less(q.y.absolute()),
        !q.largest().less(q.z.absolute()),
        !q.largest().less(q.w.absolute()),
{
}

/// On a unit that treats both signs alike, the dot products with a quaternion and with
/// its negation lie opposite each other.
proof fn lemma_dot_opposite<K: FloatOps>(a: Quat, b: Quat, d: F32, e: F32)
    requires
        symmetric::<K>(),
        a.dots::<K>(b, d),
        a.dots::<K>(b.negated(), e),
        !d.is_nan(),
    ensures
        d.opposite(e),
{
    let n = b.negated();
    law_negation(b.x);
    law_negation(b.y);
    law_negation(b.z);
    law_negation(b.w);
    let (px, py, pz, pw, xy, xyz) = choose|
        px: F32,
        py: F32,
        pz: F32,
        pw: F32,
        xy: F32,
        xyz: F32,
    | #[trigger]
        multiplies::<K>(a.x, b.x, px) && #[trigger] multiplies::<K>(a.y, b.y, py)
            && #[trigger] multiplies::<K>(a.z, b.z, pz) && #[trigger] multiplies::<K>(a.w, b.w, pw)
            && #[trigger] sums::<K>(px, py, xy) && #[trigger] sums::<K>(xy, pz, xyz) && sums::<K>(
            xyz,
            pw,
            d,
        );
    let (qx, qy, qz, qw, uv, uvw) = choose|
        qx: F32,
        qy: F32,
        qz: F32,
        qw: F32,
        uv: F32,
        uvw: F32,
    | #[trigger]
        multiplies::<K>(a.x, n.x, qx) && #[trigger] multiplies::<K>(a.y, n.y, qy)
            && #[trigger] multiplies::<K>(a.z, n.z, qz) && #[trigger] multiplies::<K>(a.w, n.w, qw)
            && #[trigger] sums::<K>(qx, qy, uv) && #[trigger] sums::<K>(uv, qz, uvw) && sums::<K>(
            uvw,
            qw,
            e,
        );
    assert(!xyz.is_nan() && !pw.is_nan());
    assert(!xy.is_nan() && !pz.is_nan());
    assert(!px.is_nan() && !py.is_nan());
    assert(px.opposite(qx) && py.opposite(qy) && pz.opposite(qz) && pw.opposite(qw));
    assert(xy.opposite(uv));
    assert(xyz.opposite(uvw));
}

/// The shortest arc: a quaternion and its negation are one rotation, and the way to
/// either is the same. This holds on a deterministic unit that treats both signs alike,
/// wherever the dot product tells which of the two is nearer.
pub proof fn law_shortest_arc<K: FloatOps>(a: Quat, b: Quat, t: F32, d: F32, r: Quat, s: Quat)
    requires
        deterministic::<K>(),
        symmetric::<K>(),
        a.dots::<K>(b, d),
        !d.is_nan(),
        d.units() != 0,
        a.nlerps::<K>(b, t, r),
        a.nlerps::<K>(b.negated(), t, s),
    ensures
        r == s,
{
    let n = b.negated();
    let near = |d: F32, o: Quat|
        if d.less(F32::zero()) {
            o.negated()
        } else {
            o
        };
    let (d1, m1) = choose|d: F32, m: Quat| #[trigger]
        a.dots::<K>(b, d) && #[trigger] m.normalizes::<K>(r) && a.lerps::<K>(near(d, b), t, m);
    let (e, m2) = choose|d: F32, m: Quat| #[trigger]
        a.dots::<K>(n, d) && #[trigger] m.normalizes::<K>(s) && a.lerps::<K>(near(d, n), t, m);
    law_dot_deterministic::<K>(a, b, d, d1);
    lemma_dot_opposite::<K>(a, b, d, e);
    lemma_zero_units();
    law_quat_negation(b);
    let o = near(d, b);
    assert(near(e, n) == o);
    law_lerp_deterministic::<K>(a.x, o.x, t, m1.x, m2.x);
    law_lerp_deterministic::<K>(a.y, o.y, t, m1.y, m2.y);
    law_lerp_deterministic::<K>(a.z, o.z, t, m1.z, m2.z);
    law_lerp_deterministic::<K>(a.w, o.w, t, m1.w, m2.w);
    law_normalized_deterministic::<K>(m1, r, s);
}

/// Turning the sign of a quaternion twice gives it back, and turning it once turns each
/// component about zero.
pub proof fn law_quat_negation(q: Quat)
    ensures
        q.negated().negated() == q,
        q.negated().x.units() == -q.x.units(),
        q.negated().y.units() == -q.y.units(),
        q.negated().z.units() == -q.z.units(),
        q.negated().w.units() == -q.w.units(),
{
    law_negation(q.x);
    law_negation(q.y);
    law_negation(q.z);
    law_negation(q.w);
}

/// A vector takes 12 bytes.
pub proof fn law_vec3_size(v: Vec3)
    ensures
        Vec3::wire(v).len() == 12,
{
    lemma_le_bytes_len(v.x.bits as nat, 4);
    lemma_le_bytes_len(v.y.bits as nat, 4);
    lemma_le_bytes_len(v.z.bits as nat, 4);
}

/// A transform takes 40 bytes.
pub proof fn law_transform_size(v: Transform)
    ensures
        Transform::wire(v).len() == 40,
{
    let q = v.rotation;
    law_vec3_size(v.translation);
    lemma_le_bytes_len(q.x.bits as nat, 4);
    lemma_le_bytes_len(q.y.bits as nat, 4);
    lemma_le_bytes_len(q.z.bits as nat, 4);
    lemma_le_bytes_len(q.w.bits as nat, 4);
    law_vec3_size(v.scale);
}

} // verus!
