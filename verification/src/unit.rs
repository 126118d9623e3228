//! Vectors of length one: what scaling a vector to length one achieves in
//! arithmetic that rounds.

use vstd::prelude::*;
use vstd::arithmetic::div_mod::{
    lemma_div_is_ordered, lemma_div_multiples_vanish, lemma_div_pos_is_pos,
    lemma_fundamental_div_mod, lemma_mod_pos_bound,
};
use crate::arith::{
    isqrt, lemma_isqrt_exists, lemma_isqrt_is, lemma_isqrt_monotone, lemma_quot_bounds,
    lemma_square_monotone, magnitude, max_raw, quot, scale,
};
use crate::fixed::Fixed;
use crate::vec::Vec3;

verus! {

/// One component `a` of a vector of length `l`, scaled by `2^32 / l` and
/// rounded down: the result is at most `2^32`, and its product with `l`
/// falls short of `a * 2^32` by less than `l`.
proof fn lemma_scaled_component(a: int, l: int)
    requires
        0 <= a <= l,
        l >= 1,
    ensures
        ({
            let m = (a * scale()) / l;
            &&& 0 <= m <= scale()
            &&& (m * l) * (m * l) <= (a * scale()) * (a * scale())
            &&& (m * l) * (m * l) >= (a * scale()) * (a * scale()) - 2 * (a * scale()) * l
        }),
{
    let x = a * scale();
    let m = x / l;
    let r = x % l;
    lemma_fundamental_div_mod(x, l);
    lemma_mod_pos_bound(x, l);
    lemma_div_pos_is_pos(x, l);
    assert(x <= scale() * l) by (nonlinear_arith)
        requires
            0 <= a <= l,
            x == a * scale(),
    ;
    lemma_div_is_ordered(x, scale() * l, l);
    lemma_div_multiples_vanish(scale(), l);
    assert(m * l == x - r) by (nonlinear_arith)
        requires
            x == l * m + r,
    ;
    assert((m * l) * (m * l) <= x * x) by (nonlinear_arith)
        requires
            0 <= m * l <= x,
    ;
    assert((m * l) * (m * l) >= x * x - 2 * x * l) by (nonlinear_arith)
        requires
            m * l == x - r,
            0 <= r < l,
            x >= 0,
    ;
}

/// The square of a component of the scaled vector.
proof fn lemma_scaled_square(c: Fixed, len: Fixed)
    requires
        len@ >= 1,
        magnitude(c@) <= len@,
    ensures
        c.spec_div(len)@ * c.spec_div(len)@ == ((magnitude(c@) * scale()) / len@) * ((magnitude(c@)
            * scale()) / len@),
{
    reveal(Fixed::spec_div);
    let a = magnitude(c@);
    let l = len@;
    lemma_scaled_component(a, l);
    let m = (a * scale()) / l;
    assert(magnitude(c@ * scale()) == a * scale());
    assert(quot(c@ * scale(), l) == m || quot(c@ * scale(), l) == -m);
    assert(c.spec_div(len)@ == m || c.spec_div(len)@ == -m);
    assert((-m) * (-m) == m * m) by (nonlinear_arith);
}

/// Scaling every component by `k` scales the sum of the squares by `k * k`.
proof fn lemma_sum_of_scaled_squares(x: int, y: int, z: int, k: int)
    ensures
        (x * k) * (x * k) + (y * k) * (y * k) + (z * k) * (z * k) == (x * x + y * y + z * z) * (k
            * k),
        (x * k) * (x * k) + (y * k) * (y * k) + (z * k) * (z * k) == (k * k) * (x * x + y * y + z
            * z),
{
    let c = k * k;
    assert((x * k) * (x * k) == c * (x * x)) by (nonlinear_arith)
        requires
            c == k * k,
    ;
    assert((y * k) * (y * k) == c * (y * y)) by (nonlinear_arith)
        requires
            c == k * k,
    ;
    assert((z * k) * (z * k) == c * (z * z)) by (nonlinear_arith)
        requires
            c == k * k,
    ;
    assert(c * (x * x) + c * (y * y) + c * (z * z) == c * (x * x + y * y + z * z))
        by (nonlinear_arith);
    assert(c * (x * x + y * y + z * z) == (x * x + y * y + z * z) * c) by (nonlinear_arith);
}

/// A component of a vector is no longer than the vector.
proof fn lemma_component_bound(a: int, rest: int, l: int)
    requires
        0 <= a,
        0 <= rest,
        0 <= l,
        a * a + rest < (l + 1) * (l + 1),
    ensures
        a <= l,
{
    if a > l {
        lemma_square_monotone(l + 1, a);
    }
}

/// Scaling a vector to length one gives a vector whose length is one up to
/// rounding: it falls short of one by at most five units of the last
/// place, and exceeds it by at most one part in the length of the vector
/// counted in such units. This holds of every vector other than zero whose
/// exact length is within the range of the numbers.
pub proof fn lemma_normalized_length(v: Vec3)
    requires
        0 < v.norm_squared() < (max_raw() + 1) * (max_raw() + 1),
    ensures
        scale() - 5 <= v.spec_normalized().spec_length()@ <= scale() + scale() / v.spec_length()@,
{
    let s = scale();
    let n2 = v.norm_squared();
    let ax = magnitude(v.x@);
    let ay = magnitude(v.y@);
    let az = magnitude(v.z@);
    assert(ax * ax == v.x@ * v.x@ && ay * ay == v.y@ * v.y@ && az * az == v.z@ * v.z@)
        by (nonlinear_arith)
        requires
            ax == magnitude(v.x@),
            ay == magnitude(v.y@),
            az == magnitude(v.z@),
    ;
    assert(ax * ax >= 0 && ay * ay >= 0 && az * az >= 0) by (nonlinear_arith);
    lemma_isqrt_exists(n2);
    let l = isqrt(n2);
    if l > max_raw() {
        lemma_square_monotone(max_raw() + 1, l);
    }
    assert(l == v.spec_length()@);
    lemma_component_bound(ax, ay * ay + az * az, l);
    lemma_component_bound(ay, ax * ax + az * az, l);
    lemma_component_bound(az, ax * ax + ay * ay, l);

    let len = v.spec_length();
    let u = v.spec_normalized();
    lemma_scaled_square(v.x, len);
    lemma_scaled_square(v.y, len);
    lemma_scaled_square(v.z, len);
    lemma_scaled_component(ax, l);
    lemma_scaled_component(ay, l);
    lemma_scaled_component(az, l);
    let mx = (ax * s) / l;
    let my = (ay * s) / l;
    let mz = (az * s) / l;
    let u2 = u.norm_squared();
    assert(u2 == mx * mx + my * my + mz * mz);
    assert(mx * mx >= 0 && my * my >= 0 && mz * mz >= 0) by (nonlinear_arith);
    lemma_isqrt_exists(u2);
    let r = isqrt(u2);

    // The sum of the squares, times the square of the length.
    let t = (mx * l) * (mx * l) + (my * l) * (my * l) + (mz * l) * (mz * l);
    lemma_sum_of_scaled_squares(mx, my, mz, l);
    let w = (ax * s) * (ax * s) + (ay * s) * (ay * s) + (az * s) * (az * s);
    lemma_sum_of_scaled_squares(ax, ay, az, s);

    // From above.
    assert(t <= w);
    assert((r * l) * (r * l) < (s * (l + 1)) * (s * (l + 1))) by (nonlinear_arith)
        requires
            r * r <= u2,
            u2 * (l * l) <= (s * s) * n2,
            n2 < (l + 1) * (l + 1),
            s > 0,
            l >= 1,
    ;
    if r * l >= s * (l + 1) {
        assert(s * (l + 1) >= 0) by (nonlinear_arith)
            requires
                s > 0,
                l >= 1,
        ;
        lemma_square_monotone(s * (l + 1), r * l);
    }
    assert(r * l < s * l + s) by (nonlinear_arith)
        requires
            r * l < s * (l + 1),
    ;
    if r > s {
        assert((r - s) * l <= s) by (nonlinear_arith)
            requires
                r * l < s * l + s,
        ;
        assert((r - s) * l >= 0) by (nonlinear_arith)
            requires
                r > s,
                l >= 1,
        ;
        lemma_div_is_ordered((r - s) * l, s, l);
        lemma_div_multiples_vanish(r - s, l);
    } else {
        lemma_div_pos_is_pos(s, l);
    }
    assert(r <= s + s / l);
    assert(s / l <= s) by {
        lemma_div_is_ordered(s, s * l, l);
        lemma_div_multiples_vanish(s, l);
        assert(s <= s * l) by (nonlinear_arith)
            requires
                s > 0,
                l >= 1,
        ;
    }

    // From below.
    let a = ax + ay + az;
    assert(a * a <= 3 * n2) by (nonlinear_arith)
        requires
            a == ax + ay + az,
            n2 == ax * ax + ay * ay + az * az,
    ;
    assert(a < 4 * l) by (nonlinear_arith)
        requires
            a * a <= 3 * n2,
            n2 < (l + 1) * (l + 1),
            l >= 1,
            a >= 0,
    ;
    assert(2 * (ax * s) * l + 2 * (ay * s) * l + 2 * (az * s) * l == 2 * s * l * a)
        by (nonlinear_arith)
        requires
            a == ax + ay + az,
    ;
    assert(t >= w - 2 * s * l * a);
    assert(u2 >= s * s - 8 * s) by (nonlinear_arith)
        requires
            u2 * (l * l) >= (s * s) * n2 - 2 * s * l * a,
            n2 >= l * l,
            0 <= a < 4 * l,
            l >= 1,
            s > 0,
    ;
    assert((s - 5) * (s - 5) <= s * s - 8 * s) by (nonlinear_arith)
        requires
            s >= 13,
    ;
    assert((s - 4) * (s - 4) == (s - 5) * (s - 5) + 2 * s - 9) by (nonlinear_arith);
    lemma_isqrt_is((s - 5) * (s - 5), s - 5);
    lemma_isqrt_monotone((s - 5) * (s - 5), u2);
    assert(s - 5 <= r);
    assert(u.spec_length()@ == r);
}

/// Whether `s` is a power of two.
pub open spec fn is_power_of_two(s: int) -> bool
    decreases s,
{
    s == 1 || (s > 1 && s % 2 == 0 && is_power_of_two(s / 2))
}

/// Whether the vector is one of the six axis directions of length one.
pub open spec fn is_axis_direction(n: Vec3) -> bool {
    ||| magnitude(n.x@) == scale() && n.y@ == 0 && n.z@ == 0
    ||| n.x@ == 0 && magnitude(n.y@) == scale() && n.z@ == 0
    ||| n.x@ == 0 && n.y@ == 0 && magnitude(n.z@) == scale()
}

/// The square of an even number is a multiple of four, and the square of
/// an odd number is one more than a multiple of four.
proof fn lemma_square_mod_four(x: int)
    ensures
        (x * x) % 4 == (if x % 2 == 0 {
            0int
        } else {
            1int
        }),
{
    let q = x / 2;
    let k = q * q;
    if x % 2 == 0 {
        assert(x * x == 4 * k) by (nonlinear_arith)
            requires
                x == 2 * q,
                k == q * q,
        ;
    } else {
        assert(x * x == 4 * (k + q) + 1) by (nonlinear_arith)
            requires
                x == 2 * q + 1,
                k == q * q,
        ;
    }
}

/// On a sphere whose radius is a power of two, the only points with whole
/// coordinates are the six where it meets the axes.
proof fn lemma_lattice_points(x: int, y: int, z: int, s: int)
    requires
        is_power_of_two(s),
        x * x + y * y + z * z == s * s,
    ensures
        ({
            ||| magnitude(x) == s && y == 0 && z == 0
            ||| x == 0 && magnitude(y) == s && z == 0
            ||| x == 0 && y == 0 && magnitude(z) == s
        }),
    decreases s,
{
    assert(x * x >= 0 && y * y >= 0 && z * z >= 0) by (nonlinear_arith);
    if s == 1 {
        assert(magnitude(x) <= 1 && magnitude(y) <= 1 && magnitude(z) <= 1) by (nonlinear_arith)
            requires
                x * x <= 1,
                y * y <= 1,
                z * z <= 1,
        ;
        assert(x * x == magnitude(x) && y * y == magnitude(y) && z * z == magnitude(z))
            by (nonlinear_arith)
            requires
                magnitude(x) <= 1 && magnitude(y) <= 1 && magnitude(z) <= 1,
        ;
    } else {
        let h = s / 2;
        assert(s * s == 4 * (h * h)) by (nonlinear_arith)
            requires
                s == 2 * h,
        ;
        lemma_square_mod_four(x);
        lemma_square_mod_four(y);
        lemma_square_mod_four(z);
        let a = x / 2;
        let b = y / 2;
        let c = z / 2;
        assert(x * x + y * y + z * z == 4 * (a * a + b * b + c * c)) by (nonlinear_arith)
            requires
                x == 2 * a,
                y == 2 * b,
                z == 2 * c,
        ;
        lemma_lattice_points(a, b, c, h);
    }
}

/// The vectors whose length is exactly one are the six axis directions.
pub proof fn lemma_unit_vectors(n: Vec3)
    ensures
        n.norm_squared() == scale() * scale() <==> is_axis_direction(n),
{
    if n.norm_squared() == scale() * scale() {
        reveal_with_fuel(is_power_of_two, 34);
        assert(is_power_of_two(scale()));
        lemma_lattice_points(n.x@, n.y@, n.z@, scale());
    }
    if is_axis_direction(n) {
        assert(n.norm_squared() == scale() * scale()) by (nonlinear_arith)
            requires
                is_axis_direction(n),
                n.norm_squared() == n.x@ * n.x@ + n.y@ * n.y@ + n.z@ * n.z@,
                scale() == 0x1_0000_0000,
        ;
    }
}

/// The product with one, with minus one and with zero.
proof fn lemma_mul_by_unit(a: Fixed, b: Fixed)
    requires
        magnitude(b@) == scale() || b@ == 0,
    ensures
        b@ == scale() ==> a.spec_mul(b)@ == a@,
        b@ == -scale() ==> a.spec_mul(b)@ == -a@,
        b@ == 0 ==> a.spec_mul(b)@ == 0,
        b.spec_mul(a)@ == a.spec_mul(b)@,
{
    reveal(Fixed::spec_mul);
    assert(b@ * a@ == a@ * b@) by (nonlinear_arith);
    if b@ == scale() {
        lemma_div_multiples_vanish(magnitude(a@), scale());
    } else if b@ == -scale() {
        assert(a@ * b@ == -(a@ * scale())) by (nonlinear_arith)
            requires
                b@ == -scale(),
        ;
        lemma_div_multiples_vanish(magnitude(a@), scale());
    } else {
        assert(a@ * b@ == 0) by (nonlinear_arith)
            requires
                b@ == 0,
        ;
    }
}

/// The dot product with an axis direction picks a component, up to sign.
proof fn lemma_dot_with_axis(v: Vec3, n: Vec3)
    requires
        is_axis_direction(n),
    ensures
        v.spec_dot(n)@ == (if n.x@ != 0 {
            v.x.spec_mul(n.x)@
        } else if n.y@ != 0 {
            v.y.spec_mul(n.y)@
        } else {
            v.z.spec_mul(n.z)@
        }),
{
    reveal(Fixed::spec_add);
    lemma_mul_by_unit(v.x, n.x);
    lemma_mul_by_unit(v.y, n.y);
    lemma_mul_by_unit(v.z, n.z);
}

/// Reflection at a plane keeps the part of a vector along the plane and
/// turns the part along the normal around: the dot product of the mirror
/// image with the normal is that of the vector, negated. This holds of
/// every normal of length exactly one, and of every vector for which twice
/// its dot product with the normal, which the reflection computes, is
/// within range.
pub proof fn lemma_reflect_negates_normal_part(v: Vec3, n: Vec3)
    requires
        n.norm_squared() == scale() * scale(),
        -max_raw() <= 2 * v.spec_dot(n)@ <= max_raw(),
    ensures
        v.spec_reflect(n).spec_dot(n)@ == -v.spec_dot(n)@,
{
    lemma_unit_vectors(n);
    let d = v.spec_dot(n);
    let k = Fixed::of(2 * scale()).spec_mul(d);
    assert(k@ == 2 * d@) by {
        reveal(Fixed::spec_mul);
        assert((2 * scale()) * d@ == (2 * d@) * scale()) by (nonlinear_arith);
        lemma_div_multiples_vanish(magnitude(2 * d@), scale());
    }
    let w = v.spec_reflect(n);
    lemma_dot_with_axis(v, n);
    lemma_dot_with_axis(w, n);
    lemma_mul_by_unit(v.x, n.x);
    lemma_mul_by_unit(v.y, n.y);
    lemma_mul_by_unit(v.z, n.z);
    lemma_mul_by_unit(k, n.x);
    lemma_mul_by_unit(k, n.y);
    lemma_mul_by_unit(k, n.z);
    lemma_mul_by_unit(w.x, n.x);
    lemma_mul_by_unit(w.y, n.y);
    lemma_mul_by_unit(w.z, n.z);
    reveal(Fixed::spec_sub);
}

/// The largest component, `2^23`, for which `lemma_reflect_nearly_negates`
/// speaks of a vector: below it no step of the reflection saturates.
pub open spec fn reflect_bound() -> int {
    0x80_0000_0000_0000
}

/// The product of a number with one of magnitude at most two: it does not
/// saturate, is at most twice the number, and is short of the exact product
/// by less than one unit of the last place.
proof fn lemma_mul_by_small(a: Fixed, b: Fixed)
    requires
        magnitude(a@) <= 0x2000_0000_0000_0000,
        magnitude(b@) <= 2 * scale(),
    ensures
        magnitude(a.spec_mul(b)@) <= 2 * magnitude(a@),
        -scale() < scale() * a.spec_mul(b)@ - a@ * b@ < scale(),
        b.spec_mul(a) == a.spec_mul(b),
{
    reveal(Fixed::spec_mul);
    let x = a@ * b@;
    assert(b@ * a@ == x) by (nonlinear_arith)
        requires
            x == a@ * b@,
    ;
    assert(magnitude(x) <= (2 * magnitude(a@)) * scale()) by (nonlinear_arith)
        requires
            x == a@ * b@,
            magnitude(b@) <= 2 * scale(),
    ;
    lemma_div_is_ordered(magnitude(x), (2 * magnitude(a@)) * scale(), scale());
    lemma_div_multiples_vanish(2 * magnitude(a@), scale());
    lemma_div_pos_is_pos(magnitude(x), scale());
    lemma_quot_bounds(x, scale());
}

/// What an error of less than a unit in `q`, taken for `n * k / s`, comes to
/// when it is multiplied by `n`.
proof fn lemma_scaled_error(q: int, n: int, k: int, s: int)
    requires
        s > 0,
        -s < s * q - n * k < s,
    ensures
        -(s * magnitude(n)) <= s * (q * n) - (n * n) * k <= s * magnitude(n),
{
    let g = s * q - n * k;
    assert(g * n == s * (q * n) - (n * n) * k) by (nonlinear_arith)
        requires
            g == s * q - n * k,
    ;
    assert(-(s * magnitude(n)) <= g * n <= s * magnitude(n)) by (nonlinear_arith)
        requires
            -s < g < s,
    ;
}

/// The dot product with a vector whose components are at most two: it does
/// not saturate, and is short of the exact dot product by less than three
/// units of the last place.
proof fn lemma_dot_by_small(v: Vec3, n: Vec3)
    requires
        magnitude(v.x@) <= 0x1000_0000_0000_0000,
        magnitude(v.y@) <= 0x1000_0000_0000_0000,
        magnitude(v.z@) <= 0x1000_0000_0000_0000,
        magnitude(n.x@) <= 2 * scale(),
        magnitude(n.y@) <= 2 * scale(),
        magnitude(n.z@) <= 2 * scale(),
    ensures
        magnitude(v.spec_dot(n)@) <= 2 * (magnitude(v.x@) + magnitude(v.y@) + magnitude(v.z@)),
        -3 * scale() < scale() * v.spec_dot(n)@ - (v.x@ * n.x@ + v.y@ * n.y@ + v.z@ * n.z@) < 3
            * scale(),
{
    reveal(Fixed::spec_add);
    lemma_mul_by_small(v.x, n.x);
    lemma_mul_by_small(v.y, n.y);
    lemma_mul_by_small(v.z, n.z);
    let p1 = v.x.spec_mul(n.x)@;
    let p2 = v.y.spec_mul(n.y)@;
    let p3 = v.z.spec_mul(n.z)@;
    assert(v.spec_dot(n)@ == p1 + p2 + p3);
    assert(scale() * (p1 + p2 + p3) == scale() * p1 + scale() * p2 + scale() * p3)
        by (nonlinear_arith);
}

/// The mirror image, component by component: no step saturates, and the
/// normal scaled by twice the dot product is short of the exact product by
/// less than one unit in each component.
proof fn lemma_reflect_components(v: Vec3, n: Vec3)
    requires
        magnitude(v.x@) <= reflect_bound(),
        magnitude(v.y@) <= reflect_bound(),
        magnitude(v.z@) <= reflect_bound(),
        magnitude(n.x@) <= 2 * scale(),
        magnitude(n.y@) <= 2 * scale(),
        magnitude(n.z@) <= 2 * scale(),
    ensures
        ({
            let k = 2 * v.spec_dot(n)@;
            let w = v.spec_reflect(n);
            let q = (v.x@ - w.x@, v.y@ - w.y@, v.z@ - w.z@);
            &&& magnitude(w.x@) <= 25 * reflect_bound()
            &&& magnitude(w.y@) <= 25 * reflect_bound()
            &&& magnitude(w.z@) <= 25 * reflect_bound()
            &&& -scale() < scale() * q.0 - n.x@ * k < scale()
            &&& -scale() < scale() * q.1 - n.y@ * k < scale()
            &&& -scale() < scale() * q.2 - n.z@ * k < scale()
        }),
{
    reveal(Fixed::spec_sub);
    let s = scale();
    lemma_dot_by_small(v, n);
    let d = v.spec_dot(n);
    let k = Fixed::of(2 * s).spec_mul(d);
    assert(k@ == 2 * d@) by {
        reveal(Fixed::spec_mul);
        assert((2 * s) * d@ == (2 * d@) * s) by (nonlinear_arith);
        lemma_div_multiples_vanish(magnitude(2 * d@), s);
    }
    lemma_mul_by_small(k, n.x);
    lemma_mul_by_small(k, n.y);
    lemma_mul_by_small(k, n.z);
    assert(n.x@ * k@ == k@ * n.x@ && n.y@ * k@ == k@ * n.y@ && n.z@ * k@ == k@ * n.z@)
        by (nonlinear_arith);
    let q = n.spec_scale(k);
    let w = v.spec_reflect(n);
    assert(w.x@ == v.x@ - q.x@ && w.y@ == v.y@ - q.y@ && w.z@ == v.z@ - q.z@);
}

/// The steps of `lemma_reflect_nearly_negates` put together, over the
/// integers: `d` and `e` are the two dot products, `p` and `p - qn` the
/// exact ones, `n2` the squared length of the normal and `a` the sum of the
/// magnitudes of its components.
proof fn lemma_reflect_errors(s: int, d: int, e: int, p: int, qn: int, n2: int, a: int)
    requires
        s > 0,
        -3 * s < s * e - (p - qn) < 3 * s,
        -3 * s < s * d - p < 3 * s,
        -(s * a) <= s * qn - n2 * (2 * d) <= s * a,
    ensures
        (s * s) * magnitude(e + d) <= 2 * magnitude(d * (s * s - n2)) + 6 * (s * s) + s * a,
{
    let one = s * s;
    let t = d * n2;
    let x_err = s * e - (p - qn);
    let y_err = s * d - p;
    let z_err = s * qn - n2 * (2 * d);
    assert(n2 * (2 * d) == 2 * t) by (nonlinear_arith)
        requires
            t == d * n2,
    ;
    assert(d * (one - n2) == one * d - t) by (nonlinear_arith)
        requires
            t == d * n2,
    ;
    assert(one * (e + d) == 2 * (one * d - t) + s * x_err - s * y_err - z_err)
        by (nonlinear_arith)
        requires
            one == s * s,
            x_err == s * e - (p - qn),
            y_err == s * d - p,
            z_err == s * qn - 2 * t,
    ;
    assert(-(3 * one) < s * x_err < 3 * one && -(3 * one) < s * y_err < 3 * one)
        by (nonlinear_arith)
        requires
            one == s * s,
            s > 0,
            -3 * s < x_err < 3 * s,
            -3 * s < y_err < 3 * s,
    ;
    assert(one * magnitude(e + d) == magnitude(one * (e + d))) by (nonlinear_arith)
        requires
            one == s * s,
            s > 0,
    ;
}

/// Reflection at a plane with any normal that is not long: the dot product
/// of the mirror image with the normal is that of the vector, negated, up
/// to rounding and up to what the normal's length differs from one. With
/// `d` for the dot product of the vector with the normal and `e` for that
/// of the mirror image, `|e + d|` is at most six units of the last place,
/// plus as many as the components of the normal sum up to, plus twice `|d|`
/// times the difference between one and the squared length of the normal;
/// for a normal of length one that is less than eight units. This holds of
/// every vector with components up to `reflect_bound()` and every normal
/// with components up to two.
pub proof fn lemma_reflect_nearly_negates(v: Vec3, n: Vec3)
    requires
        magnitude(v.x@) <= reflect_bound(),
        magnitude(v.y@) <= reflect_bound(),
        magnitude(v.z@) <= reflect_bound(),
        magnitude(n.x@) <= 2 * scale(),
        magnitude(n.y@) <= 2 * scale(),
        magnitude(n.z@) <= 2 * scale(),
    ensures
        ({
            let d = v.spec_dot(n)@;
            let e = v.spec_reflect(n).spec_dot(n)@;
            let one = scale() * scale();
            one * magnitude(e + d) <= 2 * magnitude(d * (one - n.norm_squared())) + 6 * one
                + scale() * (magnitude(n.x@) + magnitude(n.y@) + magnitude(n.z@))
        }),
{
    let s = scale();
    let n2 = n.norm_squared();
    let d = v.spec_dot(n)@;
    let w = v.spec_reflect(n);
    let e = w.spec_dot(n)@;
    lemma_dot_by_small(v, n);
    lemma_reflect_components(v, n);
    lemma_dot_by_small(w, n);
    let qx = v.x@ - w.x@;
    let qy = v.y@ - w.y@;
    let qz = v.z@ - w.z@;
    lemma_scaled_error(qx, n.x@, 2 * d, s);
    lemma_scaled_error(qy, n.y@, 2 * d, s);
    lemma_scaled_error(qz, n.z@, 2 * d, s);
    let p = v.x@ * n.x@ + v.y@ * n.y@ + v.z@ * n.z@;
    let qn = qx * n.x@ + qy * n.y@ + qz * n.z@;
    assert(w.x@ * n.x@ == v.x@ * n.x@ - qx * n.x@) by (nonlinear_arith)
        requires
            qx == v.x@ - w.x@,
    ;
    assert(w.y@ * n.y@ == v.y@ * n.y@ - qy * n.y@) by (nonlinear_arith)
        requires
            qy == v.y@ - w.y@,
    ;
    assert(w.z@ * n.z@ == v.z@ * n.z@ - qz * n.z@) by (nonlinear_arith)
        requires
            qz == v.z@ - w.z@,
    ;
    assert(n2 * (2 * d) == (n.x@ * n.x@) * (2 * d) + (n.y@ * n.y@) * (2 * d) + (n.z@ * n.z@) * (2
        * d)) by (nonlinear_arith)
        requires
            n2 == n.x@ * n.x@ + n.y@ * n.y@ + n.z@ * n.z@,
    ;
    assert(s * qn == s * (qx * n.x@) + s * (qy * n.y@) + s * (qz * n.z@)) by (nonlinear_arith)
        requires
            qn == qx * n.x@ + qy * n.y@ + qz * n.z@,
    ;
    let a = magnitude(n.x@) + magnitude(n.y@) + magnitude(n.z@);
    assert(s * a == s * magnitude(n.x@) + s * magnitude(n.y@) + s * magnitude(n.z@))
        by (nonlinear_arith)
        requires
            a == magnitude(n.x@) + magnitude(n.y@) + magnitude(n.z@),
    ;
    lemma_reflect_errors(s, d, e, p, qn, n2, a);
}

} // verus!
