//! Three-component vectors, used for directions, points and colours alike.

use vstd::prelude::*;
use crate::arith::{
    isqrt, isqrt_u128, lemma_isqrt_exists, lemma_product_bound, lemma_square_monotone, magnitude,
    scale,
};
use crate::fixed::{
    lemma_add_neg, lemma_add_nonneg, lemma_mul_neg, lemma_neg_view, lemma_square_nonneg, Fixed,
    MAX_RAW,
};
use crate::rng::gen_range;
use std::ops::Range;

verus! {

/// How many vectors the rejection samplers draw before they give up.
pub const MAX_DRAWS: u32 = 256;

/// A vector of three fixed-point components.
#[derive(Clone, Copy, Debug)]
pub struct Vec3 {
    pub x: Fixed,
    pub y: Fixed,
    pub z: Fixed,
}

impl View for Vec3 {
    type V = (int, int, int);

    /// The raw values of the three components.
    open spec fn view(&self) -> (int, int, int) {
        (self.x@, self.y@, self.z@)
    }
}

/// A location in space.
pub type Point3 = Vec3;

/// An intensity per channel: red, green, blue.
pub type Color = Vec3;

impl Vec3 {
    /// Component-wise sum.
    pub open spec fn spec_add(self, other: Vec3) -> Vec3 {
        Vec3 {
            x: self.x.spec_add(other.x),
            y: self.y.spec_add(other.y),
            z: self.z.spec_add(other.z),
        }
    }

    /// Component-wise difference.
    pub open spec fn spec_sub(self, other: Vec3) -> Vec3 {
        Vec3 {
            x: self.x.spec_sub(other.x),
            y: self.y.spec_sub(other.y),
            z: self.z.spec_sub(other.z),
        }
    }

    /// The opposite vector.
    pub open spec fn spec_neg(self) -> Vec3 {
        Vec3 { x: self.x.spec_neg(), y: self.y.spec_neg(), z: self.z.spec_neg() }
    }

    /// Component-wise product.
    pub open spec fn spec_mul(self, other: Vec3) -> Vec3 {
        Vec3 {
            x: self.x.spec_mul(other.x),
            y: self.y.spec_mul(other.y),
            z: self.z.spec_mul(other.z),
        }
    }

    /// Every component multiplied by `t`.
    pub open spec fn spec_scale(self, t: Fixed) -> Vec3 {
        Vec3 { x: self.x.spec_mul(t), y: self.y.spec_mul(t), z: self.z.spec_mul(t) }
    }

    /// Every component divided by `t`.
    pub open spec fn spec_div(self, t: Fixed) -> Vec3 {
        Vec3 { x: self.x.spec_div(t), y: self.y.spec_div(t), z: self.z.spec_div(t) }
    }

    /// Dot product: the three products, each rounded, summed from the left.
    pub open spec fn spec_dot(self, other: Vec3) -> Fixed {
        self.x.spec_mul(other.x).spec_add(self.y.spec_mul(other.y)).spec_add(
            self.z.spec_mul(other.z),
        )
    }

    /// Cross product.
    pub open spec fn spec_cross(self, other: Vec3) -> Vec3 {
        Vec3 {
            x: self.y.spec_mul(other.z).spec_sub(self.z.spec_mul(other.y)),
            y: self.z.spec_mul(other.x).spec_sub(self.x.spec_mul(other.z)),
            z: self.x.spec_mul(other.y).spec_sub(self.y.spec_mul(other.x)),
        }
    }

    /// Sum of the squares of the raw components, exact.
    pub open spec fn norm_squared(self) -> int {
        self.x@ * self.x@ + self.y@ * self.y@ + self.z@ * self.z@
    }

    /// Euclidean length: the square root of the exact sum of squares, rounded
    /// down. It is zero for the zero vector only.
    pub open spec fn spec_length(self) -> Fixed {
        Fixed::of(isqrt(self.norm_squared()))
    }

    /// The vector divided by its length.
    pub open spec fn spec_normalized(self) -> Vec3 {
        self.spec_div(self.spec_length())
    }

    /// Whether every component is below `10^-8` in magnitude.
    pub open spec fn spec_near_zero(self) -> bool {
        &&& magnitude(self.x@) * 100_000_000 < scale()
        &&& magnitude(self.y@) * 100_000_000 < scale()
        &&& magnitude(self.z@) * 100_000_000 < scale()
    }

    /// Mirror image of the vector at the plane with normal `normal`:
    /// `v - (2 (v . n)) n`.
    pub open spec fn spec_reflect(self, normal: Vec3) -> Vec3 {
        self.spec_sub(normal.spec_scale(Fixed::of(2 * scale()).spec_mul(self.spec_dot(normal))))
    }

    /// Whether the vector lies strictly inside the ball of radius one: its
    /// exact squared length is below one.
    pub open spec fn in_unit_ball(self) -> bool {
        self.norm_squared() < scale() * scale()
    }

    /// Whether every component lies in the half-open range.
    pub open spec fn within(self, r: Range<Fixed>) -> bool {
        &&& r.start@ <= self.x@ < r.end@
        &&& r.start@ <= self.y@ < r.end@
        &&& r.start@ <= self.z@ < r.end@
    }

    /// The vector itself if it makes an acute angle with `normal`, and else
    /// the opposite vector.
    pub open spec fn spec_toward(self, normal: Vec3) -> Vec3 {
        if self.spec_dot(normal)@ > 0 {
            self
        } else {
            self.spec_neg()
        }
    }

    /// The zero vector; as a colour, black.
    pub open spec fn spec_zero() -> Vec3 {
        Vec3 { x: Fixed::of(0), y: Fixed::of(0), z: Fixed::of(0) }
    }

    /// The zero vector.
    pub fn zero() -> (res: Vec3)
        ensures
            res == Vec3::spec_zero(),
            res.in_unit_ball(),
    {
        proof {
            lemma_zero_in_unit_ball();
        }
        let zero = Fixed::from_int(0);
        Vec3 { x: zero, y: zero, z: zero }
    }

    /// The vector with the given components.
    pub fn new(e0: Fixed, e1: Fixed, e2: Fixed) -> (res: Vec3)
        ensures
            res == (Vec3 { x: e0, y: e1, z: e2 }),
    {
        Vec3 { x: e0, y: e1, z: e2 }
    }

    /// Whether the vector lies strictly inside the unit ball: whether its
    /// length is below one.
    pub fn is_in_unit_ball(&self) -> (res: bool)
        ensures
            res == self.in_unit_ball(),
    {
        proof {
            self.lemma_length_below_one();
        }
        self.length().lt(Fixed::from_int(1))
    }

    /// A vector whose components are drawn independently from the range.
    pub fn random(r: Range<Fixed>) -> (res: Vec3)
        requires
            r.start@ < r.end@,
        ensures
            res.within(r),
    {
        let mut rng = rand::thread_rng();
        let low: i64 = r.start.to_raw();
        let high: i64 = r.end.to_raw();
        Vec3 {
            x: Fixed::from_raw(gen_range(&mut rng, low, high)),
            y: Fixed::from_raw(gen_range(&mut rng, low, high)),
            z: Fixed::from_raw(gen_range(&mut rng, low, high)),
        }
    }

    /// A random point strictly inside the unit ball, by rejection: vectors
    /// with components in `[-1, 1)` are drawn until one lies inside. Each
    /// draw succeeds with a chance above one half; should `MAX_DRAWS` draws
    /// in a row fail, the centre of the ball is returned.
    pub fn random_in_unit_sphere() -> (res: Vec3)
        ensures
            res.in_unit_ball(),
    {
        let mut draws: u32 = 0;
        while draws < MAX_DRAWS
            invariant
                draws <= MAX_DRAWS,
            decreases MAX_DRAWS - draws,
        {
            let v = Vec3::random(Fixed::from_int(-1)..Fixed::from_int(1));
            if v.is_in_unit_ball() {
                return v;
            }
            draws += 1;
        }
        Vec3::zero()
    }

    /// A random point strictly inside the unit disk of the plane `z = 0`: the
    /// first of up to `MAX_DRAWS` draws that lands there, see `spec_first_in_unit_disk`.
    pub fn random_in_unit_disk() -> (res: Vec3)
        ensures
            res.in_unit_ball(),
            res.z@ == 0,
            exists|draws: Seq<Vec3>|
                {
                    &&& draws.len() == MAX_DRAWS
                    &&& forall|k: int|
                        0 <= k < draws.len() ==> (#[trigger] draws[k]).in_unit_box()
                    &&& res == #[trigger] Vec3::spec_first_in_unit_disk(draws)
                },
    {
        let mut draws: u32 = 0;
        let ghost mut rejected: Seq<Vec3> = Seq::empty();
        while draws < MAX_DRAWS
            invariant
                draws <= MAX_DRAWS,
                rejected.len() == draws,
                forall|k: int| 0 <= k < rejected.len() ==> (#[trigger] rejected[k]).in_unit_box(),
                forall|k: int|
                    0 <= k < rejected.len() ==> (#[trigger] rejected[k]).spec_to_unit_disk() is None,
            decreases MAX_DRAWS - draws,
        {
            let sample = Vec3::random(Fixed::from_int(-1)..Fixed::from_int(1));
            if let Some(v) = sample.to_unit_disk() {
                proof {
                    let unused = Seq::new(
                        (MAX_DRAWS - draws - 1) as nat,
                        |k: int| Vec3::spec_zero(),
                    );
                    let rest = seq![sample] + unused;
                    let all = rejected + rest;
                    lemma_first_after_rejected(rejected, rest);
                    assert(rest[0] == sample);
                    assert(Vec3::spec_first_in_unit_disk(rest) == v);
                    assert forall|k: int| 0 <= k < all.len() implies (
                    #[trigger] all[k]).in_unit_box() by {
                        if k < rejected.len() {
                            assert(all[k] == rejected[k]);
                        } else if k == rejected.len() {
                            assert(all[k] == sample);
                        } else {
                            assert(all[k] == Vec3::spec_zero());
                        }
                    }
                    assert(v == Vec3::spec_first_in_unit_disk(all));
                }
                return v;
            }
            proof {
                rejected = rejected.push(sample);
            }
            draws += 1;
        }
        proof {
            lemma_first_after_rejected(rejected, Seq::empty());
            assert(rejected + Seq::<Vec3>::empty() == rejected);
        }
        Vec3::zero()
    }

    /// The vector with its third component replaced by zero.
    pub open spec fn spec_flat(self) -> Vec3 {
        Vec3 { x: self.x, y: self.y, z: Fixed::of(0) }
    }

    /// Whether every component lies in `[-1, 1)`: what the rejection
    /// samplers draw from.
    pub open spec fn in_unit_box(self) -> bool {
        &&& -scale() <= self.x@ < scale()
        &&& -scale() <= self.y@ < scale()
        &&& -scale() <= self.z@ < scale()
    }

    /// The point of the plane `z = 0` below or above the vector, if it lies
    /// strictly inside the unit disk.
    pub open spec fn spec_to_unit_disk(self) -> Option<Vec3> {
        if self.spec_flat().in_unit_ball() {
            Some(self.spec_flat())
        } else {
            None
        }
    }

    /// What the rejection sampler of the unit disk makes of the vectors that
    /// it draws, in the order in which it draws them: the first that falls
    /// into the unit disk once its third component is dropped, with that
    /// component at zero; and the centre of the disk if none of them does.
    /// The sampler stops drawing at the first that does.
    pub open spec fn spec_first_in_unit_disk(draws: Seq<Vec3>) -> Vec3
        decreases draws.len(),
    {
        if draws.len() == 0 {
            Vec3::spec_zero()
        } else {
            match draws[0].spec_to_unit_disk() {
                Some(v) => v,
                None => Vec3::spec_first_in_unit_disk(draws.drop_first()),
            }
        }
    }

    /// The point of the plane `z = 0` below or above the vector, if it lies
    /// strictly inside the unit disk: what the rejection sampler of the disk
    /// does with one draw.
    pub fn to_unit_disk(self) -> (res: Option<Vec3>)
        ensures
            res == self.spec_to_unit_disk(),
            res matches Some(v) ==> v.in_unit_ball() && v.z@ == 0,
    {
        let v = Vec3::new(self.x, self.y, Fixed::from_int(0));
        if v.is_in_unit_ball() {
            Some(v)
        } else {
            None
        }
    }

    /// The vector turned into the hemisphere around `normal`.
    pub fn toward(self, normal: Vec3) -> (res: Vec3)
        ensures
            res == self.spec_toward(normal),
            res.spec_dot(normal)@ >= 0,
            res.norm_squared() == self.norm_squared(),
    {
        proof {
            lemma_dot_neg(normal, self);
            lemma_dot_commutes(self, normal);
            lemma_dot_commutes(self.spec_neg(), normal);
            lemma_neg_view(normal.spec_dot(self));
            lemma_neg_view(self.x);
            lemma_neg_view(self.y);
            lemma_neg_view(self.z);
            assert((-self.x@) * (-self.x@) == self.x@ * self.x@) by (nonlinear_arith);
            assert((-self.y@) * (-self.y@) == self.y@ * self.y@) by (nonlinear_arith);
            assert((-self.z@) * (-self.z@) == self.z@ * self.z@) by (nonlinear_arith);
        }
        if self.dot(&normal).gt(Fixed::from_int(0)) {
            self
        } else {
            self.neg()
        }
    }

    /// A random point strictly inside the unit ball, in the hemisphere
    /// around `normal`.
    pub fn random_in_hemisphere(normal: Vec3) -> (res: Vec3)
        ensures
            res.in_unit_ball(),
            res.spec_dot(normal)@ >= 0,
    {
        let in_unit_sphere = Vec3::random_in_unit_sphere();
        in_unit_sphere.toward(normal)
    }

    /// The length is below one exactly for the vectors inside the unit ball.
    pub proof fn lemma_length_below_one(self)
        ensures
            self.spec_length()@ < scale() <==> self.in_unit_ball(),
    {
        let n = self.norm_squared();
        assert(n >= 0) by (nonlinear_arith)
            requires
                n == self.x@ * self.x@ + self.y@ * self.y@ + self.z@ * self.z@,
        ;
        lemma_isqrt_exists(n);
        let root = isqrt(n);
        if root < scale() {
            lemma_square_monotone(root + 1, scale());
        } else {
            lemma_square_monotone(scale(), root);
        }
    }

    /// The first component.
    pub fn x(&self) -> (res: Fixed)
        ensures
            res == self.x,
    {
        self.x
    }

    /// The second component.
    pub fn y(&self) -> (res: Fixed)
        ensures
            res == self.y,
    {
        self.y
    }

    /// The third component.
    pub fn z(&self) -> (res: Fixed)
        ensures
            res == self.z,
    {
        self.z
    }

    /// The component with the given index: 0, 1 or 2.
    pub open spec fn spec_index(self, index: usize) -> Fixed {
        if index == 0 {
            self.x
        } else if index == 1 {
            self.y
        } else {
            self.z
        }
    }

    /// The vector with the component of the given index replaced.
    pub open spec fn spec_with(self, index: usize, value: Fixed) -> Vec3 {
        if index == 0 {
            Vec3 { x: value, ..self }
        } else if index == 1 {
            Vec3 { y: value, ..self }
        } else {
            Vec3 { z: value, ..self }
        }
    }

    /// The component with the given index, which is 0, 1 or 2, to be
    /// written to.
    pub fn index_mut(&mut self, index: usize) -> (res: &mut Fixed)
        requires
            index < 3,
        ensures
            *res == old(self).spec_index(index),
            *final(self) == old(self).spec_with(index, *final(res)),
    {
        if index == 0 {
            &mut self.x
        } else if index == 1 {
            &mut self.y
        } else {
            &mut self.z
        }
    }

    /// The component with the given index, which is 0, 1 or 2.
    pub fn index(&self, index: usize) -> (res: Fixed)
        requires
            index < 3,
        ensures
            res == self.spec_index(index),
    {
        if index == 0 {
            self.x
        } else if index == 1 {
            self.y
        } else {
            self.z
        }
    }

    /// Component-wise sum.
    pub fn add(self, other: Vec3) -> (res: Vec3)
        ensures
            res == self.spec_add(other),
    {
        Vec3 { x: self.x.add(other.x), y: self.y.add(other.y), z: self.z.add(other.z) }
    }

    /// Adds `other` to this vector.
    pub fn add_assign(&mut self, other: Vec3)
        ensures
            *final(self) == old(self).spec_add(other),
    {
        *self = self.add(other);
    }

    /// Component-wise difference.
    pub fn sub(self, other: Vec3) -> (res: Vec3)
        ensures
            res == self.spec_sub(other),
    {
        Vec3 { x: self.x.sub(other.x), y: self.y.sub(other.y), z: self.z.sub(other.z) }
    }

    /// Takes `other` away from this vector.
    pub fn sub_assign(&mut self, other: Vec3)
        ensures
            *final(self) == old(self).spec_sub(other),
    {
        *self = self.sub(other);
    }

    /// The opposite vector.
    pub fn neg(self) -> (res: Vec3)
        ensures
            res == self.spec_neg(),
    {
        Vec3 { x: self.x.neg(), y: self.y.neg(), z: self.z.neg() }
    }

    /// Component-wise product, as used to attenuate one colour by another.
    pub fn mul(self, other: Vec3) -> (res: Vec3)
        ensures
            res == self.spec_mul(other),
    {
        Vec3 { x: self.x.mul(other.x), y: self.y.mul(other.y), z: self.z.mul(other.z) }
    }

    /// Product with a scalar.
    pub fn scale(self, t: Fixed) -> (res: Vec3)
        ensures
            res == self.spec_scale(t),
    {
        Vec3 { x: self.x.mul(t), y: self.y.mul(t), z: self.z.mul(t) }
    }

    /// Multiplies this vector by the scalar `t`.
    pub fn mul_assign(&mut self, t: Fixed)
        ensures
            *final(self) == old(self).spec_scale(t),
    {
        *self = self.scale(t);
    }

    /// Quotient by a scalar.
    pub fn div(self, t: Fixed) -> (res: Vec3)
        ensures
            res == self.spec_div(t),
    {
        Vec3 { x: self.x.div(t), y: self.y.div(t), z: self.z.div(t) }
    }

    /// Divides this vector by the scalar `t`.
    pub fn div_assign(&mut self, t: Fixed)
        ensures
            *final(self) == old(self).spec_div(t),
    {
        *self = self.div(t);
    }

    /// The dot product.
    pub fn dot(&self, other: &Vec3) -> (res: Fixed)
        ensures
            res == self.spec_dot(*other),
    {
        self.x.mul(other.x).add(self.y.mul(other.y)).add(self.z.mul(other.z))
    }

    /// The cross product.
    pub fn cross(&self, other: &Vec3) -> (res: Vec3)
        ensures
            res == self.spec_cross(*other),
    {
        Vec3 {
            x: self.y.mul(other.z).sub(self.z.mul(other.y)),
            y: self.z.mul(other.x).sub(self.x.mul(other.z)),
            z: self.x.mul(other.y).sub(self.y.mul(other.x)),
        }
    }

    /// The exact sum of the squares of the raw components.
    fn raw_norm_squared(&self) -> (res: u128)
        ensures
            res == self.norm_squared(),
    {
        let x: i128 = self.x.to_raw() as i128;
        let y: i128 = self.y.to_raw() as i128;
        let z: i128 = self.z.to_raw() as i128;
        proof {
            lemma_product_bound(x as int, x as int);
            lemma_product_bound(y as int, y as int);
            lemma_product_bound(z as int, z as int);
        }
        let xx: u128 = (x * x) as u128;
        let yy: u128 = (y * y) as u128;
        let zz: u128 = (z * z) as u128;
        xx + yy + zz
    }

    /// The Euclidean length, rounded down.
    pub fn length(&self) -> (res: Fixed)
        ensures
            res == self.spec_length(),
    {
        let r: u64 = isqrt_u128(self.raw_norm_squared());
        if r > MAX_RAW as u64 {
            Fixed { raw: MAX_RAW }
        } else {
            Fixed { raw: r as i64 }
        }
    }

    /// The vector divided by its length. The zero vector stays as it is.
    pub fn normalized(self) -> (res: Vec3)
        ensures
            res == self.spec_normalized(),
    {
        self.div(self.length())
    }

    /// Whether every component is below `10^-8` in magnitude.
    pub fn near_zero(&self) -> (res: bool)
        ensures
            res == self.spec_near_zero(),
    {
        proof {
            reveal(Fixed::spec_abs);
        }
        let bound: Fixed = Fixed { raw: 43 };
        self.x.abs().lt(bound) && self.y.abs().lt(bound) && self.z.abs().lt(bound)
    }

    /// The mirror image of the vector at the plane with the unit normal
    /// `normal`.
    pub fn refect(&self, normal: &Vec3) -> (res: Vec3)
        ensures
            res == self.spec_reflect(*normal),
    {
        self.sub(normal.scale(Fixed::from_int(2).mul(self.dot(normal))))
    }
}

/// The dot product with the opposite vector is the negated dot product.
pub proof fn lemma_dot_neg(a: Vec3, b: Vec3)
    ensures
        a.spec_dot(b.spec_neg()) == a.spec_dot(b).spec_neg(),
{
    lemma_mul_neg(a.x, b.x);
    lemma_mul_neg(a.y, b.y);
    lemma_mul_neg(a.z, b.z);
    lemma_add_neg(a.x.spec_mul(b.x), a.y.spec_mul(b.y));
    lemma_add_neg(a.x.spec_mul(b.x).spec_add(a.y.spec_mul(b.y)), a.z.spec_mul(b.z));
}

/// The zero vector lies inside the unit ball.
pub proof fn lemma_zero_in_unit_ball()
    ensures
        Vec3::spec_zero().in_unit_ball(),
{
    assert(0int * 0int + 0int * 0int + 0int * 0int < scale() * scale()) by (nonlinear_arith)
        requires
            scale() > 0,
    ;
}

/// Draws that do not fall into the unit disk do not change what the
/// rejection sampler returns from the draws after them.
pub proof fn lemma_first_after_rejected(rejected: Seq<Vec3>, rest: Seq<Vec3>)
    requires
        forall|k: int|
            0 <= k < rejected.len() ==> (#[trigger] rejected[k]).spec_to_unit_disk() is None,
    ensures
        Vec3::spec_first_in_unit_disk(rejected + rest) == Vec3::spec_first_in_unit_disk(rest),
    decreases rejected.len(),
{
    if rejected.len() == 0 {
        assert(rejected + rest == rest);
    } else {
        assert((rejected + rest)[0] == rejected[0]);
        assert((rejected + rest).drop_first() == rejected.drop_first() + rest);
        let later = rejected.drop_first();
        assert forall|k: int| 0 <= k < later.len() implies (#[trigger] later[k]).spec_to_unit_disk()
            is None by {
            assert(later[k] == rejected[k + 1]);
        }
        lemma_first_after_rejected(later, rest);
    }
}

/// The dot product does not depend on the order of its arguments.
pub proof fn lemma_dot_commutes(a: Vec3, b: Vec3)
    ensures
        a.spec_dot(b) == b.spec_dot(a),
{
    reveal(Fixed::spec_mul);
    assert(a.x@ * b.x@ == b.x@ * a.x@) by (nonlinear_arith);
    assert(a.y@ * b.y@ == b.y@ * a.y@) by (nonlinear_arith);
    assert(a.z@ * b.z@ == b.z@ * a.z@) by (nonlinear_arith);
}

/// The dot product of a vector with itself is never negative.
pub proof fn lemma_dot_self_nonneg(a: Vec3)
    ensures
        a.spec_dot(a)@ >= 0,
{
    lemma_square_nonneg(a.x);
    lemma_square_nonneg(a.y);
    lemma_square_nonneg(a.z);
    lemma_add_nonneg(a.x.spec_mul(a.x), a.y.spec_mul(a.y));
    lemma_add_nonneg(a.x.spec_mul(a.x).spec_add(a.y.spec_mul(a.y)), a.z.spec_mul(a.z));
}

} // verus!
