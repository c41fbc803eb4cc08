//! Two-dimensional vectors in fixed point.
//!
//! A [`Vector2`] holds two `i32` components. For velocities one step of a
//! component is a millionth of a length unit per second, so the type spans
//! about 2147 units per second either way. All rounding is toward zero, which
//! is what keeps a scaled vector from ever getting longer than asked for.
//!
//! The contracts speak of [`Coords`], the same pair over the mathematical
//! integers, where nothing overflows.

use crate::math::{
    floor_sqrt, isqrt, lemma_floor_sqrt_of_quotient, lemma_floor_sqrt_of_square, lemma_square_le,
    lemma_square_lt_root,
};
use vstd::arithmetic::div_mod::lemma_div_by_multiple;
use vstd::math::abs;
use vstd::prelude::*;

verus! {

/// A point of the integer plane: what a [`Vector2`] stands for.
pub struct Coords {
    pub x: int,
    pub y: int,
}

/// One component `c` of a vector whose squared length is `n`, after the
/// vector is rescaled to length `len` and rounded toward zero:
/// `c * len / sqrt(n)` without its fraction. A vector without length stays
/// where it is.
pub open spec fn scale_component(c: int, len: nat, n: nat) -> int {
    if n == 0 {
        0
    } else if c >= 0 {
        floor_sqrt(((c * c) * (len * len)) as nat / n) as int
    } else {
        -(floor_sqrt(((c * c) * (len * len)) as nat / n) as int)
    }
}

impl Coords {
    pub open spec fn at(x: int, y: int) -> Coords {
        Coords { x, y }
    }

    pub open spec fn zero() -> Coords {
        Coords { x: 0, y: 0 }
    }

    /// The squared Euclidean length.
    pub open spec fn norm2(self) -> nat {
        (self.x * self.x + self.y * self.y) as nat
    }

    /// The sum of the components' absolute values.
    pub open spec fn norm1(self) -> nat {
        abs(self.x) + abs(self.y)
    }

    pub open spec fn plus(self, other: Coords) -> Coords {
        Coords { x: self.x + other.x, y: self.y + other.y }
    }

    pub open spec fn minus(self, other: Coords) -> Coords {
        Coords { x: self.x - other.x, y: self.y - other.y }
    }

    /// Whether both components fit a [`Vector2`].
    pub open spec fn representable(self) -> bool {
        &&& i32::MIN <= self.x <= i32::MAX
        &&& i32::MIN <= self.y <= i32::MAX
    }

    /// Whether each component of `self` lies between those of `a` and `b`.
    pub open spec fn between(self, a: Coords, b: Coords) -> bool {
        &&& (a.x <= self.x <= b.x || b.x <= self.x <= a.x)
        &&& (a.y <= self.y <= b.y || b.y <= self.y <= a.y)
    }

    /// The vector of length `len` that points where `self` points, each
    /// component rounded toward zero.
    pub open spec fn scaled(self, len: nat) -> Coords {
        Coords {
            x: scale_component(self.x, len, self.norm2()),
            y: scale_component(self.y, len, self.norm2()),
        }
    }

    /// `self` if it is no longer than `max`, else `self` cut to that length.
    pub open spec fn limited(self, max: nat) -> Coords {
        if self.norm2() <= max * max {
            self
        } else {
            self.scaled(max)
        }
    }

    /// `to` if it lies within `delta` of `self`, else `self` moved by `delta`
    /// along the straight line to `to`, the move rounded toward zero.
    pub open spec fn moved_toward(self, to: Coords, delta: nat) -> Coords {
        let d = to.minus(self);
        if d.norm2() <= delta * delta {
            to
        } else {
            self.plus(d.scaled(delta))
        }
    }
}

/// What rescaling does to one component: the sign stays, and the size is the
/// largest `k` with `k * k * n <= c * c * len * len`.
pub proof fn lemma_scale_component(c: int, len: nat, n: nat)
    requires
        n > 0,
    ensures
        c >= 0 ==> scale_component(c, len, n) >= 0,
        c <= 0 ==> scale_component(c, len, n) <= 0,
        (scale_component(c, len, n) * scale_component(c, len, n)) * n <= (c * c) * (len * len),
        (c * c) * (len * len) < ((abs(scale_component(c, len, n)) + 1) * (abs(
            scale_component(c, len, n),
        ) + 1)) * n,
{
    let r = scale_component(c, len, n);
    let cc = c * c;
    let ll = len * len;
    assert(cc >= 0) by (nonlinear_arith)
        requires
            cc == c * c,
    ;
    assert(cc * ll >= 0) by (nonlinear_arith)
        requires
            cc >= 0,
            ll >= 0,
    ;
    let a = (cc * ll) as nat;
    let k = floor_sqrt(a / n);
    lemma_floor_sqrt_of_quotient(a, n);
    assert(abs(r) == k);
    assert(r * r == k * k) by (nonlinear_arith)
        requires
            r == k || r == -k,
    ;
    if c == 0 {
        assert(cc == 0);
        assert(cc * ll == 0) by (nonlinear_arith)
            requires
                cc == 0,
        ;
        let kk = k * k;
        assert(kk == 0) by (nonlinear_arith)
            requires
                kk * n <= 0,
                n > 0,
                kk >= 0,
        ;
        assert(k == 0) by (nonlinear_arith)
            requires
                k * k == 0,
        ;
    }
}

/// A component of a rescaled vector is no larger than the length asked for,
/// given that it is a component of a vector of squared length `n`.
pub proof fn lemma_scale_component_le_len(c: int, len: nat, n: nat)
    requires
        n > 0,
        c * c <= n,
    ensures
        abs(scale_component(c, len, n)) <= len,
{
    let r = scale_component(c, len, n);
    let k = abs(r);
    lemma_scale_component(c, len, n);
    let kk = k * k;
    let cc = c * c;
    let ll = len * len;
    assert(kk == r * r) by (nonlinear_arith)
        requires
            kk == k * k,
            k == r || k == -r,
    ;
    if k > len {
        lemma_square_le(len + 1, k);
        assert((len + 1) * (len + 1) > ll) by (nonlinear_arith)
            requires
                ll == len * len,
        ;
        assert(kk * n > ll * n) by (nonlinear_arith)
            requires
                kk > ll,
                n > 0,
        ;
        assert(cc * ll <= n * ll) by (nonlinear_arith)
            requires
                cc <= n,
                ll >= 0,
        ;
        assert(n * ll == ll * n) by (nonlinear_arith);
    }
}

/// Shortening never makes a component larger: asked for a length that is at
/// most the vector's own, each component keeps its sign and does not grow.
pub proof fn lemma_scale_component_le_self(c: int, len: nat, n: nat)
    requires
        n > 0,
        len * len <= n,
    ensures
        abs(scale_component(c, len, n)) <= abs(c),
{
    let r = scale_component(c, len, n);
    let k = abs(r);
    let m = abs(c);
    lemma_scale_component(c, len, n);
    let kk = k * k;
    let cc = c * c;
    let ll = len * len;
    assert(kk == r * r) by (nonlinear_arith)
        requires
            kk == k * k,
            k == r || k == -r,
    ;
    assert(m * m == cc) by (nonlinear_arith)
        requires
            cc == c * c,
            m == c || m == -c,
    ;
    if k > m {
        lemma_square_le(m + 1, k);
        assert((m + 1) * (m + 1) > cc) by (nonlinear_arith)
            requires
                cc == m * m,
                m >= 0,
        ;
        assert(kk * n > cc * n) by (nonlinear_arith)
            requires
                kk > cc,
                n > 0,
        ;
        assert(cc * ll <= cc * n) by (nonlinear_arith)
            requires
                ll <= n,
                cc >= 0,
        ;
    }
}

/// The squared length written out, and that only the zero vector has none.
pub proof fn lemma_norm2(d: Coords)
    ensures
        d.norm2() == d.x * d.x + d.y * d.y,
        d.x * d.x <= d.norm2(),
        d.y * d.y <= d.norm2(),
        d.norm2() == 0 <==> d == Coords::zero(),
{
    assert(d.x * d.x >= 0 && d.y * d.y >= 0) by (nonlinear_arith);
    assert(d.x * d.x == 0 ==> d.x == 0) by (nonlinear_arith);
    assert(d.y * d.y == 0 ==> d.y == 0) by (nonlinear_arith);
    assert(d.x == 0 ==> d.x * d.x == 0) by (nonlinear_arith);
    assert(d.y == 0 ==> d.y * d.y == 0) by (nonlinear_arith);
}

/// A vector no longer than `m` has no component larger than `m`.
pub proof fn lemma_components_within(d: Coords, m: nat)
    requires
        d.norm2() <= m * m,
    ensures
        abs(d.x) <= m,
        abs(d.y) <= m,
{
    lemma_norm2(d);
    let ax = abs(d.x);
    let ay = abs(d.y);
    assert(ax * ax == d.x * d.x) by (nonlinear_arith)
        requires
            ax == d.x || ax == -d.x,
    ;
    assert(ay * ay == d.y * d.y) by (nonlinear_arith)
        requires
            ay == d.y || ay == -d.y,
    ;
    if ax > m {
        lemma_square_le(m + 1, ax);
        assert((m + 1) * (m + 1) > m * m) by (nonlinear_arith);
    }
    if ay > m {
        lemma_square_le(m + 1, ay);
        assert((m + 1) * (m + 1) > m * m) by (nonlinear_arith);
    }
}

/// A rescaled vector is never longer than the length asked for.
pub proof fn lemma_scaled_norm(d: Coords, len: nat)
    ensures
        d.scaled(len).norm2() <= len * len,
{
    let n = d.norm2();
    let r = d.scaled(len);
    lemma_norm2(d);
    lemma_norm2(r);
    if n == 0 {
        assert(r == Coords::zero());
        assert(len * len >= 0) by (nonlinear_arith);
    } else {
        lemma_scale_component(d.x, len, n);
        lemma_scale_component(d.y, len, n);
        let ll = len * len;
        let (rx, ry) = (r.x * r.x, r.y * r.y);
        let (dx, dy) = (d.x * d.x, d.y * d.y);
        assert((rx + ry) * n <= ll * n) by (nonlinear_arith)
            requires
                n == dx + dy,
                rx * n <= dx * ll,
                ry * n <= dy * ll,
        ;
        assert(rx + ry <= ll) by (nonlinear_arith)
            requires
                n > 0,
                (rx + ry) * n <= ll * n,
        ;
    }
}

/// Rescaling keeps each component on its side of zero, and cutting a vector
/// shorter brings each component no further from zero than it was.
pub proof fn lemma_scaled_components(d: Coords, len: nat)
    ensures
        d.x >= 0 ==> d.scaled(len).x >= 0,
        d.x <= 0 ==> d.scaled(len).x <= 0,
        d.y >= 0 ==> d.scaled(len).y >= 0,
        d.y <= 0 ==> d.scaled(len).y <= 0,
        abs(d.scaled(len).x) <= len,
        abs(d.scaled(len).y) <= len,
        len * len <= d.norm2() ==> abs(d.scaled(len).x) <= abs(d.x) && abs(d.scaled(len).y) <= abs(
            d.y,
        ),
{
    let n = d.norm2();
    lemma_norm2(d);
    if n > 0 {
        lemma_scale_component(d.x, len, n);
        lemma_scale_component(d.y, len, n);
        lemma_scale_component_le_len(d.x, len, n);
        lemma_scale_component_le_len(d.y, len, n);
        if len * len <= n {
            lemma_scale_component_le_self(d.x, len, n);
            lemma_scale_component_le_self(d.y, len, n);
        }
    }
}

/// Along an axis nothing is lost to rounding: a vector with one component
/// comes out with exactly the length asked for.
pub proof fn lemma_scaled_on_axis(c: int, len: nat)
    requires
        c != 0,
    ensures
        c > 0 ==> Coords::at(c, 0).scaled(len) == Coords::at(len as int, 0),
        c < 0 ==> Coords::at(c, 0).scaled(len) == Coords::at(-len, 0),
        c > 0 ==> Coords::at(0, c).scaled(len) == Coords::at(0, len as int),
        c < 0 ==> Coords::at(0, c).scaled(len) == Coords::at(0, -len),
{
    let n = (c * c) as nat;
    assert(c * c > 0) by (nonlinear_arith)
        requires
            c != 0,
    ;
    lemma_norm2(Coords::at(c, 0));
    lemma_norm2(Coords::at(0, c));
    assert(Coords::at(c, 0).norm2() == n);
    assert(Coords::at(0, c).norm2() == n);
    lemma_div_by_multiple((len * len) as int, n as int);
    assert((len * len) * n == n * (len * len)) by (nonlinear_arith);
    assert(((c * c) * (len * len)) as nat / n == len * len);
    lemma_floor_sqrt_of_square(len);
    assert((0 * 0) * (len * len) == 0) by (nonlinear_arith);
    assert(0nat / n == 0) by {
        lemma_div_by_multiple(0, n as int);
    }
    lemma_floor_sqrt_of_square(0);
    assert(0nat * 0nat == 0) by (nonlinear_arith);
}

/// Rounding loses less than one step per axis: the components of a rescaled
/// vector add up to at least `len - 1`.
pub proof fn lemma_scaled_norm1(d: Coords, len: nat)
    requires
        d != Coords::zero(),
    ensures
        d.scaled(len).norm1() + 1 >= len,
{
    let n = d.norm2();
    let r = d.scaled(len);
    lemma_norm2(d);
    lemma_scale_component(d.x, len, n);
    lemma_scale_component(d.y, len, n);
    let a = abs(r.x) + 1;
    let b = abs(r.y) + 1;
    let ll = len * len;
    let (aa, bb) = (a * a, b * b);
    let (dx, dy) = (d.x * d.x, d.y * d.y);
    assert(ll * n < (aa + bb) * n) by (nonlinear_arith)
        requires
            n == dx + dy,
            dx * ll < aa * n,
            dy * ll < bb * n,
    ;
    assert(ll < aa + bb) by (nonlinear_arith)
        requires
            n > 0,
            ll * n < (aa + bb) * n,
    ;
    assert((a + b) * (a + b) >= aa + bb) by (nonlinear_arith)
        requires
            aa == a * a,
            bb == b * b,
            a >= 0,
            b >= 0,
    ;
    lemma_square_lt_root(len, (a + b) as nat);
}

/// What a move toward a target keeps: the result lies between start and
/// target on each axis, and no further than `delta` from the start.
pub proof fn lemma_moved_toward(v: Coords, t: Coords, delta: nat)
    ensures
        v.moved_toward(t, delta).between(v, t),
        v.moved_toward(t, delta).minus(v).norm2() <= delta * delta,
        t.minus(v).norm2() <= delta * delta ==> v.moved_toward(t, delta) == t,
{
    let d = t.minus(v);
    if d.norm2() > delta * delta {
        lemma_scaled_components(d, delta);
        lemma_scaled_norm(d, delta);
        assert(v.plus(d.scaled(delta)).minus(v) == d.scaled(delta));
    }
}

/// A move that does not arrive comes closer by at least `delta - 1`, counted
/// along the axes.
pub proof fn lemma_moved_toward_progress(v: Coords, t: Coords, delta: nat)
    requires
        v.moved_toward(t, delta) != t,
    ensures
        t.minus(v.moved_toward(t, delta)).norm1() + delta <= t.minus(v).norm1() + 1,
{
    let d = t.minus(v);
    lemma_norm2(d);
    assert(delta * delta >= 0) by (nonlinear_arith);
    lemma_scaled_components(d, delta);
    lemma_scaled_norm1(d, delta);
}

/// A vector that lies between zero and another on each axis is no longer
/// than the other, and strictly shorter unless it is the other.
pub proof fn lemma_shrunk(a: Coords, b: Coords)
    requires
        a.between(Coords::zero(), b),
    ensures
        a.norm2() <= b.norm2(),
        a.norm1() <= b.norm1(),
        a != b ==> a.norm2() < b.norm2() && a.norm1() < b.norm1(),
{
    lemma_norm2(a);
    lemma_norm2(b);
    assert(a.x * a.x <= b.x * b.x) by (nonlinear_arith)
        requires
            0 <= a.x <= b.x || b.x <= a.x <= 0,
    ;
    assert(a.y * a.y <= b.y * b.y) by (nonlinear_arith)
        requires
            0 <= a.y <= b.y || b.y <= a.y <= 0,
    ;
    assert(a.x != b.x ==> a.x * a.x < b.x * b.x) by (nonlinear_arith)
        requires
            0 <= a.x <= b.x || b.x <= a.x <= 0,
    ;
    assert(a.y != b.y ==> a.y * a.y < b.y * b.y) by (nonlinear_arith)
        requires
            0 <= a.y <= b.y || b.y <= a.y <= 0,
    ;
}

proof fn lemma_mul_swap(a: int, b: int, c: int, d: int)
    ensures
        (a * b) * (c * d) == (a * c) * (b * d),
{
    assert((a * b) * (c * d) == (a * c) * (b * d)) by (nonlinear_arith);
}

/// The inequality of Cauchy and Schwarz: the square of a dot product is at
/// most the product of the squared lengths.
pub proof fn lemma_dot_bound(a: Coords, b: Coords)
    ensures
        (a.x * b.x + a.y * b.y) * (a.x * b.x + a.y * b.y) <= a.norm2() * b.norm2(),
{
    lemma_norm2(a);
    lemma_norm2(b);
    let u = a.x * b.x;
    let w = a.y * b.y;
    let g = a.x * b.y;
    let h = a.y * b.x;
    let x1 = a.x * a.x;
    let x2 = a.y * a.y;
    let y1 = b.x * b.x;
    let y2 = b.y * b.y;
    lemma_mul_swap(a.x, a.x, b.x, b.x);
    lemma_mul_swap(a.x, a.x, b.y, b.y);
    lemma_mul_swap(a.y, a.y, b.x, b.x);
    lemma_mul_swap(a.y, a.y, b.y, b.y);
    lemma_mul_swap(a.x, b.x, a.y, b.y);
    lemma_mul_swap(a.x, b.y, a.y, b.x);
    assert(b.x * b.y == b.y * b.x) by (nonlinear_arith);
    assert(u * w == g * h);
    assert((x1 + x2) * (y1 + y2) == x1 * y1 + x1 * y2 + x2 * y1 + x2 * y2) by (nonlinear_arith);
    assert((u + w) * (u + w) == u * u + 2 * (u * w) + w * w) by (nonlinear_arith);
    assert((g - h) * (g - h) == g * g - 2 * (g * h) + h * h) by (nonlinear_arith);
    assert((g - h) * (g - h) >= 0) by (nonlinear_arith);
}

/// The triangle inequality, without roots: the sum of a vector no longer
/// than `m` and one no longer than `s` is no longer than `m + s`.
pub proof fn lemma_triangle(a: Coords, b: Coords, m: nat, s: nat)
    requires
        a.norm2() <= m * m,
        b.norm2() <= s * s,
    ensures
        a.plus(b).norm2() <= (m + s) * (m + s),
{
    lemma_norm2(a);
    lemma_norm2(b);
    lemma_norm2(a.plus(b));
    let dot = a.x * b.x + a.y * b.y;
    let na = a.norm2() as int;
    let nb = b.norm2() as int;
    let ms = m * s;
    lemma_dot_bound(a, b);
    assert(na * nb <= ms * ms) by (nonlinear_arith)
        requires
            0 <= na <= m * m,
            0 <= nb <= s * s,
            ms == m * s,
    ;
    assert(dot <= ms) by (nonlinear_arith)
        requires
            dot * dot <= ms * ms,
            ms >= 0,
    ;
    assert(a.plus(b).norm2() == na + 2 * dot + nb) by (nonlinear_arith)
        requires
            a.plus(b).norm2() == (a.x + b.x) * (a.x + b.x) + (a.y + b.y) * (a.y + b.y),
            dot == a.x * b.x + a.y * b.y,
            na == a.x * a.x + a.y * a.y,
            nb == b.x * b.x + b.y * b.y,
    ;
    assert((m + s) * (m + s) == m * m + 2 * ms + s * s) by (nonlinear_arith)
        requires
            ms == m * s,
    ;
}

/// Cutting a vector to a length leaves it between zero and itself on each
/// axis, and no longer than either the length or itself.
pub proof fn lemma_limited(v: Coords, max: nat)
    ensures
        v.limited(max).between(Coords::zero(), v),
        v.limited(max).norm2() <= max * max,
        v.limited(max).norm2() <= v.norm2(),
        v.limited(max).norm1() <= v.norm1(),
{
    if v.norm2() > max * max {
        lemma_scaled_components(v, max);
        lemma_scaled_norm(v, max);
    }
    lemma_shrunk(v.limited(max), v);
}

/// A vector with two fixed-point components.
#[derive(Clone, Copy, Debug, PartialEq, Eq, Structural)]
pub struct Vector2 {
    pub x: i32,
    pub y: i32,
}

impl View for Vector2 {
    type V = Coords;

    open spec fn view(&self) -> Coords {
        Coords { x: self.x as int, y: self.y as int }
    }
}

/// Rescales one component `c` of a vector of squared length `n` to the
/// length `len`, rounding toward zero.
fn scale_axis(c: i32, len: u32, n: u64) -> (r: i64)
    requires
        n > 0,
        c * c <= n,
    ensures
        r == scale_component(c as int, len as nat, n as nat),
        -len <= r <= len,
{
    let m: u128 = if c < 0 {
        (-(c as i64)) as u128
    } else {
        c as u128
    };
    let l: u128 = len as u128;
    assert(m * m == c * c && m * m <= 0x4000_0000_0000_0000) by (nonlinear_arith)
        requires
            m == c || m == -c,
            m <= 0x8000_0000,
    ;
    assert(l * l <= 0xffff_ffff_0000_0000) by (nonlinear_arith)
        requires
            l <= 0xffff_ffff,
    ;
    let mm: u128 = m * m;
    let ll: u128 = l * l;
    assert(mm * ll <= 0x4000_0000_0000_0000 * 0xffff_ffff_0000_0000) by (nonlinear_arith)
        requires
            mm <= 0x4000_0000_0000_0000,
            ll <= 0xffff_ffff_0000_0000,
    ;
    let k: u64 = isqrt(mm * ll / (n as u128));
    proof {
        assert(mm * ll == (c * c) * (len * len)) by (nonlinear_arith)
            requires
                mm == c * c,
                ll == len * len,
        ;
        lemma_scale_component_le_len(c as int, len as nat, n as nat);
    }
    if c < 0 {
        -(k as i64)
    } else {
        k as i64
    }
}

impl Vector2 {
    pub fn new(x: i32, y: i32) -> (v: Vector2)
        ensures
            v@ == Coords::at(x as int, y as int),
    {
        Vector2 { x, y }
    }

    /// The vector without length.
    pub fn zero() -> (v: Vector2)
        ensures
            v@ == Coords::zero(),
    {
        Vector2 { x: 0, y: 0 }
    }

    pub fn is_zero(&self) -> (b: bool)
        ensures
            b == (self@ == Coords::zero()),
    {
        self.x == 0 && self.y == 0
    }

    /// The squared length, which always fits.
    pub fn length_squared(&self) -> (n: u64)
        ensures
            n == self@.norm2(),
    {
        let x: i64 = self.x as i64;
        let y: i64 = self.y as i64;
        proof {
            lemma_norm2(self@);
        }
        assert(0 <= x * x <= 0x4000_0000_0000_0000 && 0 <= y * y <= 0x4000_0000_0000_0000)
            by (nonlinear_arith)
            requires
                -0x8000_0000 <= x <= 0x7fff_ffff,
                -0x8000_0000 <= y <= 0x7fff_ffff,
        ;
        (x * x) as u64 + (y * y) as u64
    }

    /// This vector brought to the length `len`, each component rounded
    /// toward zero; the zero vector stays as it is.
    pub fn with_length(self, len: u32) -> (r: Vector2)
        requires
            len <= i32::MAX,
        ensures
            r@ == self@.scaled(len as nat),
            r@.norm2() <= len * len,
    {
        let n: u64 = self.length_squared();
        proof {
            lemma_norm2(self@);
            lemma_scaled_norm(self@, len as nat);
        }
        if n == 0 {
            return self;
        }
        let x: i64 = scale_axis(self.x, len, n);
        let y: i64 = scale_axis(self.y, len, n);
        Vector2 { x: x as i32, y: y as i32 }
    }

    /// This vector if it is no longer than `max`, else cut to that length.
    pub fn limit_length(self, max: u32) -> (r: Vector2)
        ensures
            r@ == self@.limited(max as nat),
            r@.norm2() <= max * max,
    {
        let n: u64 = self.length_squared();
        let m: u64 = max as u64;
        assert(m * m <= u64::MAX) by (nonlinear_arith)
            requires
                m <= 0xffff_ffff,
        ;
        if n <= m * m {
            return self;
        }
        proof {
            lemma_norm2(self@);
            lemma_scaled_norm(self@, max as nat);
            lemma_scaled_components(self@, max as nat);
        }
        let x: i64 = scale_axis(self.x, max, n);
        let y: i64 = scale_axis(self.y, max, n);
        Vector2 { x: x as i32, y: y as i32 }
    }

    /// Moves this vector toward `to` by at most `delta`: `to` itself where it
    /// is within reach, else the point `delta` along the straight line to it,
    /// the move rounded toward zero. The difference of the two vectors has to
    /// fit the component type.
    pub fn move_toward(self, to: Vector2, delta: u64) -> (r: Vector2)
        requires
            to@.minus(self@).representable(),
        ensures
            r@ == self@.moved_toward(to@, delta as nat),
            r@.between(self@, to@),
            r@.minus(self@).norm2() <= delta * delta,
    {
        let d = Vector2 { x: to.x - self.x, y: to.y - self.y };
        let n: u64 = d.length_squared();
        let s: u128 = delta as u128;
        assert(s * s <= u128::MAX) by (nonlinear_arith)
            requires
                s <= u64::MAX,
        ;
        proof {
            lemma_moved_toward(self@, to@, delta as nat);
            assert(d@ == to@.minus(self@));
        }
        if n as u128 <= s * s {
            return to;
        }
        assert(s <= 0xffff_ffff) by (nonlinear_arith)
            requires
                s * s < n,
                n <= u64::MAX,
                s >= 0,
        ;
        proof {
            lemma_norm2(d@);
            lemma_scaled_components(d@, delta as nat);
        }
        let x: i64 = scale_axis(d.x, delta as u32, n);
        let y: i64 = scale_axis(d.y, delta as u32, n);
        Vector2 { x: (self.x as i64 + x) as i32, y: (self.y as i64 + y) as i32 }
    }
}

} // verus!
