//! Axial hex coordinates (pointy-top), in integers throughout.
use crate::ordmap::{Dup, MapKey};
use vstd::prelude::*;

verus! {

#[derive(Debug, Clone, Copy, PartialEq, Eq, PartialOrd, Ord, Hash, Structural)]
pub struct Axial {
    pub q: i32,
    pub r: i32,
}

impl View for Axial {
    type V = Axial;

    open spec fn view(&self) -> Axial {
        *self
    }
}

pub open spec fn abs(x: int) -> int {
    if x < 0 {
        -x
    } else {
        x
    }
}

/// The number of steps between two hexes.
pub open spec fn hex_distance(a: Axial, b: Axial) -> int {
    let dq = a.q - b.q;
    let dr = a.r - b.r;
    (abs(dq) + abs(dr) + abs(dq + dr)) / 2
}

/// The steps between two hexes as an `i32`; a distance beyond `i32::MAX` reads as `i32::MAX`.
pub open spec fn steps(a: Axial, b: Axial) -> i32 {
    if hex_distance(a, b) > i32::MAX {
        i32::MAX
    } else {
        hex_distance(a, b) as i32
    }
}

/// The step in direction `dir` (0..6), as a pair of coordinate differences.
pub open spec fn direction(dir: int) -> (int, int) {
    if dir == 0 {
        (1, 0)
    } else if dir == 1 {
        (1, -1)
    } else if dir == 2 {
        (0, -1)
    } else if dir == 3 {
        (-1, 0)
    } else if dir == 4 {
        (-1, 1)
    } else {
        (0, 1)
    }
}

/// `num / den` rounded to the nearest integer, ties upward.
pub open spec fn nearest(num: int, den: int) -> int {
    (2 * num + den) / (2 * den)
}

/// The hex nearest to the cube coordinate `(qn/den, rn/den, sn/den)` of sum zero: each coordinate
/// is rounded, and the one that moved furthest gives way so that the sum is zero again.
pub open spec fn round_cube(qn: int, rn: int, sn: int, den: int) -> (int, int) {
    let q = nearest(qn, den);
    let r = nearest(rn, den);
    let s = nearest(sn, den);
    let dq = abs(qn - q * den);
    let dr = abs(rn - r * den);
    let ds = abs(sn - s * den);
    if dq > dr && dq > ds {
        (-r - s, r)
    } else if dr > ds {
        (q, -q - s)
    } else {
        (q, r)
    }
}

/// The coordinates of point `i` of the `n` steps of the straight line from `a` to `b`.
pub open spec fn line_coords(a: Axial, b: Axial, n: int, i: int) -> (int, int) {
    let qn = a.q * n + (b.q - a.q) * i;
    let rn = a.r * n + (b.r - a.r) * i;
    round_cube(qn, rn, -qn - rn, n)
}

/// Point `i` of the straight line of `n` steps from `a` to `b`.
pub open spec fn line_hex(a: Axial, b: Axial, n: int, i: int) -> Axial {
    let c = line_coords(a, b, n, i);
    Axial { q: c.0 as i32, r: c.1 as i32 }
}

/// The hexes of the straight line from `a` to `b`, both ends among them.
pub open spec fn line(a: Axial, b: Axial) -> Seq<Axial> {
    let n = hex_distance(a, b);
    if n == 0 {
        seq![a]
    } else {
        Seq::new((n + 1) as nat, |i: int| line_hex(a, b, n, i))
    }
}

/// Division of integers rounded down.
fn floor_div(num: i128, den: i128) -> (r: i128)
    requires
        0 < den <= 0x1_0000_0000_0000_0000_0000,
        -0x1_0000_0000_0000_0000_0000 <= num <= 0x1_0000_0000_0000_0000_0000,
    ensures
        r == num as int / den as int,
{
    if num >= 0 {
        num / den
    } else {
        let k: i128 = (-num + den - 1) / den;
        proof {
            let (n, d) = (num as int, den as int);
            vstd::arithmetic::div_mod::lemma_fundamental_div_mod(-n + d - 1, d);
            let rem = (-n + d - 1) % d;
            assert(n == (-k) * d + (d - 1 - rem)) by (nonlinear_arith)
                requires
                    -n + d - 1 == d * k + rem,
            ;
            vstd::arithmetic::div_mod::lemma_fundamental_div_mod_converse(
                n,
                d,
                -k as int,
                d - 1 - rem,
            );
        }
        -k
    }
}

/// `num / den` rounded to the nearest integer, ties upward.
pub fn round_div(num: i128, den: i128) -> (r: i128)
    requires
        0 < den <= 0x1000_0000_0000_0000,
        -0x1000_0000_0000_0000_0000 <= num <= 0x1000_0000_0000_0000_0000,
    ensures
        r == nearest(num as int, den as int),
{
    floor_div(2 * num + den, 2 * den)
}

/// Rounds an exact cube coordinate to the nearest hex. The choice depends on the residuals alone,
/// not on the end of the line that the point was counted from.
pub fn cube_round(qn: i128, rn: i128, sn: i128, den: i128) -> (h: Axial)
    requires
        0 < den <= 0x1_0000_0000_0000,
        -0x10_0000_0000_0000_0000 <= qn <= 0x10_0000_0000_0000_0000,
        -0x10_0000_0000_0000_0000 <= rn <= 0x10_0000_0000_0000_0000,
        -0x10_0000_0000_0000_0000 <= sn <= 0x10_0000_0000_0000_0000,
    ensures
        h == ({
            let c = round_cube(qn as int, rn as int, sn as int, den as int);
            Axial { q: c.0 as i32, r: c.1 as i32 }
        }),
{
    let rq: i128 = round_div(qn, den);
    let rr: i128 = round_div(rn, den);
    let rs: i128 = round_div(sn, den);
    proof {
        nearest_close(qn as int, den as int);
        nearest_close(rn as int, den as int);
        nearest_close(sn as int, den as int);
        nearest_bound(qn as int, den as int, 0x10_0000_0000_0000_0000);
        nearest_bound(rn as int, den as int, 0x10_0000_0000_0000_0000);
        nearest_bound(sn as int, den as int, 0x10_0000_0000_0000_0000);
    }
    let eq: i128 = qn - rq * den;
    let er: i128 = rn - rr * den;
    let es: i128 = sn - rs * den;
    let dq: i128 = if eq < 0 { -eq } else { eq };
    let dr: i128 = if er < 0 { -er } else { er };
    let ds: i128 = if es < 0 { -es } else { es };
    if dq > dr && dq > ds {
        Axial { q: (-rr - rs) as i32, r: rr as i32 }
    } else if dr > ds {
        Axial { q: rq as i32, r: (-rq - rs) as i32 }
    } else {
        Axial { q: rq as i32, r: rr as i32 }
    }
}

/// Rounding moves a number by at most a half.
pub proof fn nearest_close(num: int, den: int)
    requires
        den > 0,
    ensures
        -den <= 2 * (num - nearest(num, den) * den) <= den,
{
    let k = nearest(num, den);
    vstd::arithmetic::div_mod::lemma_fundamental_div_mod(2 * num + den, 2 * den);
    assert(2 * (num - k * den) == (2 * num + den) % (2 * den) - den) by (nonlinear_arith)
        requires
            2 * num + den == (2 * den) * k + (2 * num + den) % (2 * den),
    ;
}

proof fn nearest_bound(num: int, den: int, b: int)
    requires
        den > 0,
        -b <= num <= b,
    ensures
        -b - 1 <= nearest(num, den) <= b + 1,
        -b - den <= nearest(num, den) * den <= b + den,
{
    nearest_close(num, den);
    let k = nearest(num, den);
    assert(-b - 1 <= k <= b + 1) by (nonlinear_arith)
        requires
            den > 0,
            b >= 0,
            -b <= num <= b,
            -den <= 2 * (num - k * den) <= den,
    ;
}

proof fn nearest_exact(k: int, den: int)
    requires
        den > 0,
    ensures
        nearest(k * den, den) == k,
{
    assert(2 * (k * den) + den == k * (2 * den) + den) by (nonlinear_arith);
    vstd::arithmetic::div_mod::lemma_fundamental_div_mod_converse(
        2 * (k * den) + den,
        2 * den,
        k,
        den,
    );
}

/// Point `i` of the straight line of `n` steps from `a` to `b`.
pub fn line_point(a: &Axial, b: &Axial, n: i64, i: i64) -> (h: Axial)
    requires
        0 < n <= 0x3_0000_0000,
        0 <= i <= n,
    ensures
        h == line_hex(*a, *b, n as int, i as int),
{
    proof {
        scaled_bound(a.q as int, b.q as int, n as int, i as int);
        scaled_bound(a.r as int, b.r as int, n as int, i as int);
    }
    let qn: i128 = a.q as i128 * n as i128 + (b.q as i128 - a.q as i128) * i as i128;
    let rn: i128 = a.r as i128 * n as i128 + (b.r as i128 - a.r as i128) * i as i128;
    cube_round(qn, rn, -qn - rn, n as i128)
}

proof fn scaled_bound(x: int, y: int, n: int, i: int)
    requires
        i32::MIN <= x <= i32::MAX,
        i32::MIN <= y <= i32::MAX,
        0 < n <= 0x3_0000_0000,
        0 <= i <= n,
    ensures
        -0x2_0000_0000_0000_0000 <= x * n <= 0x2_0000_0000_0000_0000,
        -0x4_0000_0000_0000_0000 <= (y - x) * i <= 0x4_0000_0000_0000_0000,
        -0x2_0000_0000_0000_0000 <= x * n + (y - x) * i <= 0x2_0000_0000_0000_0000,
{
    assert(x * n + (y - x) * i == x * (n - i) + y * i) by (nonlinear_arith);
    assert(-0x8000_0000 * (n - i) <= x * (n - i) <= 0x8000_0000 * (n - i)) by (nonlinear_arith)
        requires
            -0x8000_0000 <= x <= 0x8000_0000,
            n - i >= 0,
    ;
    assert(-0x8000_0000 * i <= y * i <= 0x8000_0000 * i) by (nonlinear_arith)
        requires
            -0x8000_0000 <= y <= 0x8000_0000,
            i >= 0,
    ;
    assert(-0x8000_0000 * n <= x * n <= 0x8000_0000 * n) by (nonlinear_arith)
        requires
            -0x8000_0000 <= x <= 0x8000_0000,
            n >= 0,
    ;
    assert(-0x1_0000_0000 * i <= (y - x) * i <= 0x1_0000_0000 * i) by (nonlinear_arith)
        requires
            -0x1_0000_0000 <= y - x <= 0x1_0000_0000,
            i >= 0,
    ;
}

impl Axial {
    /// The six neighbour directions, in the order of a road's `connects`.
    pub const DIRECTIONS: [(i32, i32); 6] = [(1, 0), (1, -1), (0, -1), (-1, 0), (-1, 1), (0, 1)];

    pub fn new(q: i32, r: i32) -> (h: Self)
        ensures
            h == (Axial { q, r }),
    {
        Axial { q, r }
    }

    /// The cube coordinate `s`, with `q + r + s = 0`.
    pub fn s(&self) -> (r: i32)
        requires
            self.q > i32::MIN,
            i32::MIN <= -self.q - self.r <= i32::MAX,
        ensures
            self.q + self.r + r == 0,
    {
        -self.q - self.r
    }

    pub(crate) fn distance_wide(&self, other: &Axial) -> (r: i64)
        ensures
            r == hex_distance(*self, *other),
            0 <= r <= 0x2_0000_0000,
    {
        let dq: i64 = self.q as i64 - other.q as i64;
        let dr: i64 = self.r as i64 - other.r as i64;
        let ds: i64 = dq + dr;
        let aq: i64 = if dq < 0 { -dq } else { dq };
        let ar: i64 = if dr < 0 { -dr } else { dr };
        let az: i64 = if ds < 0 { -ds } else { ds };
        (aq + ar + az) / 2
    }

    /// The number of steps to `other`, whatever the elevation; it stops at `i32::MAX`.
    pub fn distance(&self, other: &Axial) -> (r: i32)
        ensures
            r == steps(*self, *other),
            0 <= r,
    {
        let d: i64 = self.distance_wide(other);
        if d > i32::MAX as i64 {
            i32::MAX
        } else {
            d as i32
        }
    }

    /// The neighbour in direction `dir`, counted modulo six.
    pub fn neighbor(&self, dir: usize) -> (r: Axial)
        requires
            i32::MIN < self.q < i32::MAX,
            i32::MIN < self.r < i32::MAX,
        ensures
            r.q == self.q + direction(dir as int % 6).0,
            r.r == self.r + direction(dir as int % 6).1,
    {
        let (dq, dr) = direction_step(dir % 6);
        Axial { q: self.q + dq, r: self.r + dr }
    }

    /// The six neighbours, by direction.
    pub fn neighbors(&self) -> (r: [Axial; 6])
        requires
            i32::MIN < self.q < i32::MAX,
            i32::MIN < self.r < i32::MAX,
        ensures
            forall|i: int|
                0 <= i < 6 ==> (#[trigger] r@[i]).q == self.q + direction(i).0 && r@[i].r == self.r
                    + direction(i).1,
    {
        [
            self.neighbor(0),
            self.neighbor(1),
            self.neighbor(2),
            self.neighbor(3),
            self.neighbor(4),
            self.neighbor(5),
        ]
    }

    /// The hexes of the straight line to `other`, both ends among them.
    pub fn line_to(&self, other: &Axial) -> (r: Vec<Axial>)
        requires
            hex_distance(*self, *other) < i32::MAX,
        ensures
            r@ == line(*self, *other),
    {
        let n: i64 = self.distance(other) as i64;
        if n == 0 {
            return vec![*self];
        }
        let mut out: Vec<Axial> = Vec::new();
        let mut i: i64 = 0;
        while i <= n
            invariant
                n == hex_distance(*self, *other),
                0 < n < i32::MAX,
                0 <= i <= n + 1,
                out@ =~= Seq::new(i as nat, |j: int| line_hex(*self, *other, n as int, j)),
            decreases n + 1 - i,
        {
            out.push(line_point(self, other, n, i));
            i += 1;
        }
        out
    }
}

/// The step in direction `dir`.
pub fn direction_step(dir: usize) -> (r: (i32, i32))
    requires
        dir < 6,
    ensures
        (r.0 as int, r.1 as int) == direction(dir as int),
{
    match dir {
        0 => (1, 0),
        1 => (1, -1),
        2 => (0, -1),
        3 => (-1, 0),
        4 => (-1, 1),
        _ => (0, 1),
    }
}

// ---------- laws ----------

/// Distance does not depend on the order of its ends, and is zero exactly on equal hexes.
pub proof fn distance_symmetric(a: Axial, b: Axial)
    ensures
        hex_distance(a, b) == hex_distance(b, a),
        hex_distance(a, b) >= 0,
        hex_distance(a, b) == 0 <==> a == b,
        steps(a, b) == steps(b, a),
{
    assert(a.q - b.q == -(b.q - a.q));
}

/// Distance obeys the triangle inequality.
pub proof fn distance_triangle(a: Axial, b: Axial, c: Axial)
    ensures
        hex_distance(a, c) <= hex_distance(a, b) + hex_distance(b, c),
{
}

/// The hexes one step away are the six neighbours and no others.
pub proof fn distance_one_is_adjacent(a: Axial, b: Axial)
    ensures
        hex_distance(a, b) == 1 <==> exists|d: int|
            0 <= d < 6 && b.q == a.q + (#[trigger] direction(d)).0 && b.r == a.r + direction(d).1,
{
    if hex_distance(a, b) == 1 {
        let (dq, dr) = (b.q - a.q, b.r - a.r);
        assert(-1 <= dq <= 1 && -1 <= dr <= 1 && -1 <= dq + dr <= 1);
        let d: int = if dq == 1 && dr == 0 {
            0
        } else if dq == 1 && dr == -1 {
            1
        } else if dq == 0 && dr == -1 {
            2
        } else if dq == -1 && dr == 0 {
            3
        } else if dq == -1 && dr == 1 {
            4
        } else {
            5
        };
        assert(b.q == a.q + direction(d).0 && b.r == a.r + direction(d).1);
    }
}

/// Point `i` of the line from `a` to `b` is point `n - i` of the line from `b` to `a`.
pub proof fn line_hex_symmetric(a: Axial, b: Axial, n: int, i: int)
    ensures
        line_hex(a, b, n, i) == line_hex(b, a, n, n - i),
{
    let (aq, ar, bq, br) = (a.q as int, a.r as int, b.q as int, b.r as int);
    assert(aq * n + (bq - aq) * i == bq * n + (aq - bq) * (n - i)) by (nonlinear_arith);
    assert(ar * n + (br - ar) * i == br * n + (ar - br) * (n - i)) by (nonlinear_arith);
}

/// The line from `b` to `a` is the line from `a` to `b` backwards.
pub proof fn line_symmetric(a: Axial, b: Axial)
    ensures
        line(b, a) == line(a, b).reverse(),
{
    distance_symmetric(a, b);
    let n = hex_distance(a, b);
    if n != 0 {
        assert forall|i: int| 0 <= i <= n implies line(b, a)[i] == line(a, b).reverse()[i] by {
            line_hex_symmetric(b, a, n, i);
        }
    }
    assert(line(b, a) =~= line(a, b).reverse());
}

/// A line starts at its first end, ends at its second, and has one hex more than steps.
pub proof fn line_endpoints(a: Axial, b: Axial)
    ensures
        line(a, b).len() == hex_distance(a, b) + 1,
        line(a, b).first() == a,
        line(a, b).last() == b,
{
    distance_symmetric(a, b);
    let n = hex_distance(a, b);
    if n > 0 {
        line_hex_start(a, b, n);
        line_hex_start(b, a, n);
        line_hex_symmetric(a, b, n, n);
    }
}

proof fn line_hex_start(a: Axial, b: Axial, n: int)
    requires
        n > 0,
    ensures
        line_hex(a, b, n, 0) == a,
{
    let (aq, ar, bq, br) = (a.q as int, a.r as int, b.q as int, b.r as int);
    assert((bq - aq) * 0 == 0 && (br - ar) * 0 == 0) by (nonlinear_arith);
    nearest_exact(aq, n);
    nearest_exact(ar, n);
    nearest_exact(-aq - ar, n);
    assert((-aq - ar) * n == -(aq * n) - ar * n) by (nonlinear_arith);
}

proof fn nearest_around(v: int, n: int)
    requires
        n > 0,
    ensures
        (2 * nearest(v, n) - 1) * n <= 2 * v < (2 * nearest(v, n) + 1) * n,
{
    let m = nearest(v, n);
    vstd::arithmetic::div_mod::lemma_fundamental_div_mod(2 * v + n, 2 * n);
    let rest = (2 * v + n) % (2 * n);
    vstd::arithmetic::div_mod::lemma_mod_bound(2 * v + n, 2 * n);
    assert((2 * m - 1) * n == (2 * n) * m - n && (2 * m + 1) * n == (2 * n) * m + n)
        by (nonlinear_arith);
}

proof fn nearest_is(v: int, n: int, m: int)
    requires
        n > 0,
        (2 * m - 1) * n <= 2 * v < (2 * m + 1) * n,
    ensures
        nearest(v, n) == m,
{
    nearest_around(v, n);
    let k = nearest(v, n);
    assert(k == m) by (nonlinear_arith)
        requires
            n > 0,
            (2 * m - 1) * n <= 2 * v < (2 * m + 1) * n,
            (2 * k - 1) * n <= 2 * v < (2 * k + 1) * n,
    ;
}

proof fn nearest_shifted(k: int, v: int, n: int)
    requires
        n > 0,
    ensures
        nearest(k * n + v, n) == k + nearest(v, n),
{
    nearest_around(v, n);
    let m = nearest(v, n);
    assert((2 * (k + m) - 1) * n <= 2 * (k * n + v) < (2 * (k + m) + 1) * n) by (nonlinear_arith)
        requires
            (2 * m - 1) * n <= 2 * v < (2 * m + 1) * n,
    ;
    nearest_is(k * n + v, n, k + m);
}

proof fn nearest_ordered(v: int, w: int, n: int)
    requires
        n > 0,
        v <= w,
    ensures
        nearest(v, n) <= nearest(w, n),
{
    nearest_around(v, n);
    nearest_around(w, n);
    let (k, m) = (nearest(v, n), nearest(w, n));
    assert(k <= m) by (nonlinear_arith)
        requires
            n > 0,
            v <= w,
            (2 * k - 1) * n <= 2 * v,
            2 * w < (2 * m + 1) * n,
    ;
}

proof fn nearest_mirrored(v: int, n: int)
    requires
        n > 0,
    ensures
        abs(v - nearest(v, n) * n) == abs(-v - nearest(-v, n) * n),
{
    nearest_around(v, n);
    let m = nearest(v, n);
    assert((2 * m - 1) * n == 2 * (m * n) - n && (2 * m + 1) * n == 2 * (m * n) + n)
        by (nonlinear_arith);
    if 2 * v == (2 * m - 1) * n {
        assert((2 * (1 - m) - 1) * n == n - 2 * (m * n) && (2 * (1 - m) + 1) * n == 3 * n - 2 * (m
            * n) && (1 - m) * n == n - m * n) by (nonlinear_arith);
        nearest_is(-v, n, 1 - m);
    } else {
        assert((2 * (-m) - 1) * n == -2 * (m * n) - n && (2 * (-m) + 1) * n == -2 * (m * n) + n
            && (-m) * n == -(m * n)) by (nonlinear_arith);
        nearest_is(-v, n, -m);
    }
}

/// How far the coordinate that differs by `d` has come after `i` of `n` steps.
spec fn along(d: int, n: int, i: int) -> int {
    nearest(d * i, n)
}

proof fn along_bounded(d: int, n: int, i: int)
    requires
        n > 0,
        -n <= d <= n,
        0 <= i <= n,
    ensures
        d >= 0 ==> 0 <= along(d, n, i) <= i && 0 <= d - along(d, n, i) <= n - i,
        d <= 0 ==> -i <= along(d, n, i) <= 0 && i - n <= d - along(d, n, i) <= 0,
        d == n ==> along(d, n, i) == i,
        d == -n ==> along(d, n, i) == -i,
{
    nearest_exact(0, n);
    nearest_exact(i, n);
    nearest_exact(-i, n);
    nearest_exact(d, n);
    nearest_exact(d - (n - i), n);
    nearest_exact(d + (n - i), n);
    if d >= 0 {
        assert(0 <= d * i <= i * n && (d - (n - i)) * n <= d * i <= d * n) by (nonlinear_arith)
            requires
                0 <= d <= n,
                0 <= i <= n,
        ;
        nearest_ordered(0, d * i, n);
        nearest_ordered(d * i, i * n, n);
        nearest_ordered((d - (n - i)) * n, d * i, n);
        nearest_ordered(d * i, d * n, n);
    }
    if d <= 0 {
        assert((-i) * n <= d * i <= 0 && d * n <= d * i <= (d + (n - i)) * n) by (nonlinear_arith)
            requires
                -n <= d <= 0,
                0 <= i <= n,
        ;
        nearest_ordered((-i) * n, d * i, n);
        nearest_ordered(d * i, 0, n);
        nearest_ordered(d * n, d * i, n);
        nearest_ordered(d * i, (d + (n - i)) * n, n);
    }
    if d == n {
        assert(d * i == i * n) by (nonlinear_arith)
            requires
                d == n,
        ;
    }
    if d == -n {
        assert(d * i == (-i) * n) by (nonlinear_arith)
            requires
                d == -n,
        ;
    }
}

proof fn along_steps(d: int, n: int, i: int)
    requires
        n > 0,
        -n <= d <= n,
    ensures
        d >= 0 ==> along(d, n, i) <= along(d, n, i + 1) <= along(d, n, i) + 1,
        d <= 0 ==> along(d, n, i) - 1 <= along(d, n, i + 1) <= along(d, n, i),
{
    assert(d * (i + 1) == d * i + d) by (nonlinear_arith);
    nearest_shifted(1, d * i, n);
    nearest_shifted(-1, d * i, n);
    assert(1 * n == n && (-1) * n == -n);
    if d >= 0 {
        nearest_ordered(d * i, d * i + d, n);
        nearest_ordered(d * i + d, 1 * n + d * i, n);
    }
    if d <= 0 {
        nearest_ordered(d * i + d, d * i, n);
        nearest_ordered((-1) * n + d * i, d * i + d, n);
    }
}

/// The way from `a` to point `i` of the line to `b`: the coordinate that differs most moves by one
/// with every step, and `q`, or else `r`, goes along.
spec fn way(a: Axial, b: Axial, n: int, i: int) -> (int, int) {
    let (dq, dr) = (b.q - a.q, b.r - a.r);
    if dq == n || dq == -n {
        (along(dq, n, i), along(dr, n, i))
    } else if dr == n || dr == -n {
        (along(dq, n, i), along(dr, n, i))
    } else {
        (along(dq, n, i), -along(dq, n, i) - along(-dq - dr, n, i))
    }
}

proof fn line_goes_its_way(a: Axial, b: Axial, i: int)
    requires
        a != b,
        0 <= i <= hex_distance(a, b),
    ensures
        line_coords(a, b, hex_distance(a, b), i) == ({
            let w = way(a, b, hex_distance(a, b), i);
            (a.q + w.0, a.r + w.1)
        }),
{
    let n = hex_distance(a, b);
    let (aq, ar) = (a.q as int, a.r as int);
    let (dq, dr) = (b.q - a.q, b.r - a.r);
    let ds = -dq - dr;
    let (vq, vr, vs) = (dq * i, dr * i, ds * i);
    assert(vs == -vq - vr) by (nonlinear_arith)
        requires
            vq == dq * i,
            vr == dr * i,
            vs == (-dq - dr) * i,
    ;
    let (fq, fr, fs) = (nearest(vq, n), nearest(vr, n), nearest(vs, n));
    nearest_shifted(aq, vq, n);
    nearest_shifted(ar, vr, n);
    nearest_shifted(-aq - ar, vs, n);
    let (qn, rn) = (aq * n + vq, ar * n + vr);
    assert(-qn - rn == (-aq - ar) * n + vs) by (nonlinear_arith)
        requires
            qn == aq * n + vq,
            rn == ar * n + vr,
            vs == -vq - vr,
    ;
    assert((aq + fq) * n == aq * n + fq * n && (ar + fr) * n == ar * n + fr * n && (-aq - ar + fs)
        * n == (-aq - ar) * n + fs * n) by (nonlinear_arith);
    let (eq, er, es) = (abs(vq - fq * n), abs(vr - fr * n), abs(vs - fs * n));
    along_bounded(dq, n, i);
    along_bounded(dr, n, i);
    along_bounded(ds, n, i);
    if dq == n || dq == -n {
        one_is_whole(dq, vq, vr, vs, n, i);
    } else if dr == n || dr == -n {
        one_is_whole(dr, vr, vq, vs, n, i);
    } else {
        one_is_whole(ds, vs, vq, vr, n, i);
        if er == 0 {
            assert(fr == -fq - fs) by (nonlinear_arith)
                requires
                    n > 0,
                    vs == -vq - vr,
                    vs == fs * n,
                    vq == fq * n,
                    vr == fr * n,
            ;
        }
    }
}

/// Where one of three coordinates is whole, the other two are rounded by the same amount.
proof fn one_is_whole(d: int, v: int, x: int, y: int, n: int, i: int)
    requires
        n > 0,
        d == n || d == -n,
        v == d * i,
        y == -v - x || x == -v - y,
    ensures
        v == nearest(v, n) * n,
        abs(x - nearest(x, n) * n) == abs(y - nearest(y, n) * n),
{
    let k = if d == n {
        i
    } else {
        -i
    };
    assert(v == k * n) by (nonlinear_arith)
        requires
            v == d * i,
            d == n && k == i || d == -n && k == -i,
    ;
    nearest_exact(k, n);
    nearest_mirrored(x, n);
    nearest_shifted(-k, -x, n);
    assert((-k) * n == -(k * n)) by (nonlinear_arith);
    let m = nearest(-x, n);
    assert((-k + m) * n == -(k * n) + m * n) by (nonlinear_arith);
}

/// A straight line takes one step after the other: point `i` of the line from `a` to `b` is `i`
/// steps from `a` and that many fewer from `b`, and next to the point that follows it.
pub proof fn line_steps(a: Axial, b: Axial, i: int)
    requires
        0 <= i <= hex_distance(a, b),
    ensures
        ({
            let n = hex_distance(a, b);
            &&& hex_distance(a, line(a, b)[i]) == i
            &&& hex_distance(line(a, b)[i], b) == n - i
            &&& i < n ==> hex_distance(line(a, b)[i], line(a, b)[i + 1]) == 1
        }),
{
    let n = hex_distance(a, b);
    if n > 0 {
        let (dq, dr) = (b.q - a.q, b.r - a.r);
        let ds = -dq - dr;
        line_goes_its_way(a, b, i);
        along_bounded(dq, n, i);
        along_bounded(dr, n, i);
        along_bounded(ds, n, i);
        if i < n {
            line_goes_its_way(a, b, i + 1);
            along_bounded(dq, n, i + 1);
            along_bounded(dr, n, i + 1);
            along_bounded(ds, n, i + 1);
            along_steps(dq, n, i);
            along_steps(dr, n, i);
            along_steps(ds, n, i);
        }
    }
}

/// Which hexes a straight line takes: the coordinate that differs most changes by one with every
/// step, and `q` is the nearest to the straight way, upwards where two are as near; where `q` differs
/// most, `r` is.
pub proof fn where_a_line_runs(a: Axial, b: Axial, i: int)
    requires
        a != b,
        0 <= i <= hex_distance(a, b),
    ensures
        ({
            let n = hex_distance(a, b);
            let h = line(a, b)[i];
            let (dq, dr) = (b.q - a.q, b.r - a.r);
            let (x, y) = (h.q - a.q, h.r - a.r);
            &&& (2 * x - 1) * n <= 2 * (dq * i) < (2 * x + 1) * n
            &&& dq == n ==> x == i && (2 * y - 1) * n <= 2 * (dr * i) < (2 * y + 1) * n
            &&& dq == -n ==> x == -i && (2 * y - 1) * n <= 2 * (dr * i) < (2 * y + 1) * n
            &&& dr == n ==> y == i
            &&& dr == -n ==> y == -i
            &&& dq + dr == n ==> x + y == i || dq == n || dr == n
            &&& dq + dr == -n ==> x + y == -i || dq == -n || dr == -n
        }),
{
    let n = hex_distance(a, b);
    let (dq, dr) = (b.q - a.q, b.r - a.r);
    assert(n > 0) by {
        if n == 0 {
            assert(a.q == b.q && a.r == b.r);
        }
    }
    line_goes_its_way(a, b, i);
    along_bounded(dq, n, i);
    along_bounded(dr, n, i);
    along_bounded(-dq - dr, n, i);
    nearest_around(dq * i, n);
    nearest_around(dr * i, n);
    line_steps(a, b, i);
    let c = line_coords(a, b, n, i);
    assert(-n <= c.0 - a.q <= n && -n <= c.1 - a.r <= n);
    assert(i32::MIN <= c.0 <= i32::MAX && i32::MIN <= c.1 <= i32::MAX);
}

// ---------- hexes as map keys ----------

impl MapKey for Axial {
    /// By `q`, and among equal `q` by `r`.
    open spec fn precedes(a: Axial, b: Axial) -> bool {
        a.q < b.q || (a.q == b.q && a.r < b.r)
    }

    proof fn order_laws() {
    }

    fn before(&self, other: &Self) -> (r: bool) {
        self.q < other.q || (self.q == other.q && self.r < other.r)
    }
}

impl Dup for Axial {
    fn dup(&self) -> (r: Self) {
        *self
    }
}

} // verus!
