//! The circle through three grid locations.

use vstd::prelude::*;
use vstd::arithmetic::div_mod::{lemma_div_multiples_vanish, lemma_fundamental_div_mod};
use crate::point::{Location, Point, MAX_SIZE};

verus! {

/// Division that rounds towards zero, as machine division of signed integers
/// does.
pub open spec fn trunc_div(n: int, d: int) -> int
    recommends
        d != 0,
{
    if n >= 0 && d > 0 {
        n / d
    } else if n < 0 && d < 0 {
        (-n) / (-d)
    } else if n < 0 {
        -((-n) / d)
    } else {
        -(n / (-d))
    }
}

/// The squared distance of a location from the origin.
pub open spec fn norm_squared(p: Location) -> int {
    p.x * p.x + p.y * p.y
}

/// Twice the signed area of the triangle `a`, `b`, `c`. It is zero exactly
/// when the three locations lie on one line.
pub open spec fn det_area(a: Location, b: Location, c: Location) -> int {
    a.x * b.y + b.x * c.y + c.x * a.y - a.x * c.y - b.x * a.y - c.x * b.y
}

/// The determinant whose quotient by twice `det_area` is the first
/// coordinate of the circumcentre.
pub open spec fn det_x(a: Location, b: Location, c: Location) -> int {
    norm_squared(a) * b.y + norm_squared(b) * c.y + norm_squared(c) * a.y - norm_squared(a) * c.y
        - norm_squared(b) * a.y - norm_squared(c) * b.y
}

/// The determinant whose quotient by twice `det_area` is the second
/// coordinate of the circumcentre.
pub open spec fn det_y(a: Location, b: Location, c: Location) -> int {
    a.x * norm_squared(b) + b.x * norm_squared(c) + c.x * norm_squared(a) - a.x * norm_squared(c)
        - b.x * norm_squared(a) - c.x * norm_squared(b)
}

/// The three locations lie on one line, so no circle passes through them.
pub open spec fn collinear(a: Location, b: Location, c: Location) -> bool {
    det_area(a, b, c) == 0
}

/// The first coordinate of the centre of the circle through `a`, `b` and
/// `c`, in integers: the determinant is halved and then divided by
/// `det_area`, both times rounding towards zero.
pub open spec fn center_x(a: Location, b: Location, c: Location) -> int {
    trunc_div(trunc_div(det_x(a, b, c), 2), det_area(a, b, c))
}

/// The second coordinate of that centre, computed in the same way.
pub open spec fn center_y(a: Location, b: Location, c: Location) -> int {
    trunc_div(trunc_div(det_y(a, b, c), 2), det_area(a, b, c))
}

/// The squared distance from the point `(x, y)` to the location `p`.
pub open spec fn reach_squared(x: int, y: int, p: Location) -> int {
    (x - p.x) * (x - p.x) + (y - p.y) * (y - p.y)
}

/// The point `(x, y)` is equally far from `a`, `b` and `c`.
pub open spec fn equidistant(x: int, y: int, a: Location, b: Location, c: Location) -> bool {
    &&& reach_squared(x, y, a) == reach_squared(x, y, b)
    &&& reach_squared(x, y, a) == reach_squared(x, y, c)
}

/// The true circumcentre has integer coordinates, so that neither division
/// of `center_x` and `center_y` leaves a remainder.
pub open spec fn center_is_exact(a: Location, b: Location, c: Location) -> bool {
    &&& det_x(a, b, c) % (2 * det_area(a, b, c)) == 0
    &&& det_y(a, b, c) % (2 * det_area(a, b, c)) == 0
}

/// No coordinate of a circumcentre of locations below `MAX_SIZE` exceeds this
/// in magnitude.
pub const MAX_CENTER: i64 = 3_458_764_513_820_540_928;

/// The point lies within `MAX_CENTER` of the origin in both coordinates.
pub open spec fn center_in_bounds(p: Point) -> bool {
    &&& -MAX_CENTER <= p.x <= MAX_CENTER
    &&& -MAX_CENTER <= p.y <= MAX_CENTER
}

/// The product of a squared norm and a coordinate.
fn weigh(n: i64, v: i64) -> (r: i64)
    requires
        0 <= n < 0x200_0000_0000,
        0 <= v < 0x10_0000,
    ensures
        r == n * v,
        0 <= r < 0x2000_0000_0000_0000,
{
    assert(0 <= n * v < 0x2000_0000_0000_0000) by (nonlinear_arith)
        requires
            0 <= n < 0x200_0000_0000,
            0 <= v < 0x10_0000,
    ;
    n * v
}

/// Machine division, rounding towards zero.
fn divide(n: i64, d: i64) -> (q: i64)
    requires
        d != 0,
        -0x7000_0000_0000_0000 <= n <= 0x7000_0000_0000_0000,
        -0x7000_0000_0000_0000 <= d <= 0x7000_0000_0000_0000,
    ensures
        q == trunc_div(n as int, d as int),
        n >= 0 ==> -n <= q <= n,
        n < 0 ==> n <= q <= -n,
{
    if n >= 0 && d > 0 {
        let q = n / d;
        assert(0 <= n / d <= n) by (nonlinear_arith)
            requires
                n >= 0,
                d > 0,
        ;
        q
    } else if n < 0 && d < 0 {
        let m = -n;
        let e = -d;
        assert(0 <= m / e <= m) by (nonlinear_arith)
            requires
                m >= 0,
                e > 0,
        ;
        m / e
    } else if n < 0 {
        let m = -n;
        assert(0 <= m / d <= m) by (nonlinear_arith)
            requires
                m >= 0,
                d > 0,
        ;
        -(m / d)
    } else {
        let e = -d;
        assert(0 <= n / e <= n) by (nonlinear_arith)
            requires
                n >= 0,
                e > 0,
        ;
        -(n / e)
    }
}

fn squared_norm(p: Location) -> (n: i64)
    requires
        p.within(MAX_SIZE as int),
    ensures
        n == norm_squared(p),
        0 <= n < 0x200_0000_0000,
{
    let x = p.x as i64;
    let y = p.y as i64;
    assert(0 <= x * x < 0x100_0000_0000) by (nonlinear_arith)
        requires
            0 <= x < 0x10_0000,
    ;
    assert(0 <= y * y < 0x100_0000_0000) by (nonlinear_arith)
        requires
            0 <= y < 0x10_0000,
    ;
    x * x + y * y
}

/// The circumcentre of three locations, or `None` when they lie on one line.
pub fn circumcenter(a: Location, b: Location, c: Location) -> (center: Option<Point>)
    requires
        a.within(MAX_SIZE as int),
        b.within(MAX_SIZE as int),
        c.within(MAX_SIZE as int),
    ensures
        center is None <==> collinear(a, b, c),
        center matches Some(p) ==> {
            &&& p.x == center_x(a, b, c)
            &&& p.y == center_y(a, b, c)
            &&& center_in_bounds(p)
        },
{
    let ax = a.x as i64;
    let ay = a.y as i64;
    let bx = b.x as i64;
    let by = b.y as i64;
    let cx = c.x as i64;
    let cy = c.y as i64;
    let a2 = squared_norm(a);
    let b2 = squared_norm(b);
    let c2 = squared_norm(c);
    let nx = weigh(a2, by) + weigh(b2, cy) + weigh(c2, ay) - weigh(a2, cy) - weigh(b2, ay) - weigh(
        c2,
        by,
    );
    let ny = weigh(b2, ax) + weigh(c2, bx) + weigh(a2, cx) - weigh(c2, ax) - weigh(a2, bx) - weigh(
        b2,
        cx,
    );
    let da = weigh(ax, by) + weigh(bx, cy) + weigh(cx, ay) - weigh(ax, cy) - weigh(bx, ay) - weigh(
        cx,
        by,
    );
    proof {
        assert(nx == det_x(a, b, c));
        assert(ny == det_y(a, b, c)) by (nonlinear_arith)
            requires
                ny == b2 * ax + c2 * bx + a2 * cx - c2 * ax - a2 * bx - b2 * cx,
                a2 == norm_squared(a),
                b2 == norm_squared(b),
                c2 == norm_squared(c),
                ax == a.x,
                bx == b.x,
                cx == c.x,
        ;
        assert(da == det_area(a, b, c));
    }
    if da == 0 {
        return None;
    }
    let sx = divide(nx, 2);
    let sy = divide(ny, 2);
    let px = divide(sx, da);
    let py = divide(sy, da);
    Some(Point { x: px, y: py })
}

/// Rounding towards zero loses nothing when the divisor divides the
/// dividend.
proof fn lemma_trunc_div_exact(m: int, d: int)
    requires
        d != 0,
    ensures
        trunc_div(m * d, d) == m,
{
    let n = m * d;
    if d > 0 {
        if n >= 0 {
            assert(n == d * m) by (nonlinear_arith)
                requires
                    n == m * d,
            ;
            lemma_div_multiples_vanish(m, d);
        } else {
            assert(-n == d * (-m)) by (nonlinear_arith)
                requires
                    n == m * d,
            ;
            lemma_div_multiples_vanish(-m, d);
        }
    } else {
        let e = -d;
        if n >= 0 {
            assert(n == e * (-m)) by (nonlinear_arith)
                requires
                    n == m * d,
                    e == -d,
            ;
            lemma_div_multiples_vanish(-m, e);
        } else {
            assert(-n == e * m) by (nonlinear_arith)
                requires
                    n == m * d,
                    e == -d,
            ;
            lemma_div_multiples_vanish(m, e);
        }
    }
}

/// A determinant that is the point's coordinate times twice the area gives
/// that coordinate back under the two rounding divisions.
proof fn lemma_center_coordinate(n: int, d: int, k: int)
    requires
        d != 0,
        n == 2 * d * k,
    ensures
        trunc_div(trunc_div(n, 2), d) == k,
        n % (2 * d) == 0,
{
    assert(n == (d * k) * 2 && n == (k * d) * 2 && d * k == k * d && n == k * (2 * d))
        by (nonlinear_arith)
        requires
            n == 2 * d * k,
    ;
    lemma_trunc_div_exact(d * k, 2);
    lemma_trunc_div_exact(k, d);
    if d > 0 {
        vstd::arithmetic::div_mod::lemma_fundamental_div_mod_converse(n, 2 * d, k, 0);
    } else {
        assert(n == (-k) * (-(2 * d))) by (nonlinear_arith)
            requires
                n == k * (2 * d),
        ;
        lemma_mod_of_multiple(n, 2 * d, k);
    }
}

/// A multiple of a nonzero number leaves no remainder, whatever the signs.
proof fn lemma_mod_of_multiple(n: int, m: int, k: int)
    requires
        m != 0,
        n == k * m,
    ensures
        n % m == 0,
{
    lemma_fundamental_div_mod(n, m);
    let q = n / m;
    let r = n % m;
    assert(r == 0) by (nonlinear_arith)
        requires
            n == k * m,
            n == m * q + r,
            m != 0,
            0 <= r,
            m > 0 ==> r < m,
            m < 0 ==> r < -m,
    {
        assert(r == (k - q) * m);
    }
}

/// A number that leaves no remainder is a multiple of the divisor.
proof fn lemma_multiple_of_mod(n: int, m: int) -> (k: int)
    requires
        m != 0,
        n % m == 0,
    ensures
        n == m * k,
{
    lemma_fundamental_div_mod(n, m);
    n / m
}

/// The two determinants and the area are tied by an identity that holds for
/// every point: the area times the gap between two squared distances is a
/// combination of the determinants.
proof fn lemma_gap_identity(
    ax: int,
    ay: int,
    bx: int,
    by: int,
    cx: int,
    cy: int,
    x: int,
    y: int,
)
    ensures
        ({
            let a2 = ax * ax + ay * ay;
            let b2 = bx * bx + by * by;
            let c2 = cx * cx + cy * cy;
            let d = ax * by + bx * cy + cx * ay - ax * cy - bx * ay - cx * by;
            let nx = a2 * by + b2 * cy + c2 * ay - a2 * cy - b2 * ay - c2 * by;
            let ny = ax * b2 + bx * c2 + cx * a2 - ax * c2 - bx * a2 - cx * b2;
            let ra = (x - ax) * (x - ax) + (y - ay) * (y - ay);
            let rb = (x - bx) * (x - bx) + (y - by) * (y - by);
            let rc = (x - cx) * (x - cx) + (y - cy) * (y - cy);
            &&& d * (ra - rb) == (ax - bx) * (nx - 2 * d * x) + (ay - by) * (ny - 2 * d * y)
            &&& d * (ra - rc) == (ax - cx) * (nx - 2 * d * x) + (ay - cy) * (ny - 2 * d * y)
            &&& (by - ay) * (ra - rc) - (cy - ay) * (ra - rb) == nx - 2 * d * x
            &&& (cx - ax) * (ra - rb) - (bx - ax) * (ra - rc) == ny - 2 * d * y
        }),
{
    let a2 = ax * ax + ay * ay;
    let b2 = bx * bx + by * by;
    let c2 = cx * cx + cy * cy;
    let d = ax * by + bx * cy + cx * ay - ax * cy - bx * ay - cx * by;
    let nx = a2 * by + b2 * cy + c2 * ay - a2 * cy - b2 * ay - c2 * by;
    let ny = ax * b2 + bx * c2 + cx * a2 - ax * c2 - bx * a2 - cx * b2;
    let ra = (x - ax) * (x - ax) + (y - ay) * (y - ay);
    let rb = (x - bx) * (x - bx) + (y - by) * (y - by);
    let rc = (x - cx) * (x - cx) + (y - cy) * (y - cy);
    let p1 = ax - bx;
    let q1 = ay - by;
    let p2 = ax - cx;
    let q2 = ay - cy;
    let s1 = a2 - b2;
    let s2 = a2 - c2;
    let u = 2 * x;
    let v = 2 * y;
    let gb = ra - rb;
    let gc = ra - rc;
    assert(gb == s1 - u * p1 - v * q1) by (nonlinear_arith)
        requires
            s1 == (ax * ax + ay * ay) - (bx * bx + by * by),
            gb == ((x - ax) * (x - ax) + (y - ay) * (y - ay)) - ((x - bx) * (x - bx) + (y - by) * (y
                - by)),
            p1 == ax - bx,
            q1 == ay - by,
            u == 2 * x,
            v == 2 * y,
    ;
    assert(gc == s2 - u * p2 - v * q2) by (nonlinear_arith)
        requires
            s2 == (ax * ax + ay * ay) - (cx * cx + cy * cy),
            gc == ((x - ax) * (x - ax) + (y - ay) * (y - ay)) - ((x - cx) * (x - cx) + (y - cy) * (y
                - cy)),
            p2 == ax - cx,
            q2 == ay - cy,
            u == 2 * x,
            v == 2 * y,
    ;
    assert(d == p1 * q2 - p2 * q1) by (nonlinear_arith)
        requires
            d == ax * by + bx * cy + cx * ay - ax * cy - bx * ay - cx * by,
            p1 == ax - bx,
            q1 == ay - by,
            p2 == ax - cx,
            q2 == ay - cy,
    ;
    assert(nx == q2 * s1 - q1 * s2) by (nonlinear_arith)
        requires
            nx == a2 * by + b2 * cy + c2 * ay - a2 * cy - b2 * ay - c2 * by,
            q1 == ay - by,
            q2 == ay - cy,
            s1 == a2 - b2,
            s2 == a2 - c2,
    ;
    assert(ny == p1 * s2 - p2 * s1) by (nonlinear_arith)
        requires
            ny == ax * b2 + bx * c2 + cx * a2 - ax * c2 - bx * a2 - cx * b2,
            p1 == ax - bx,
            p2 == ax - cx,
            s1 == a2 - b2,
            s2 == a2 - c2,
    ;
    let ex = nx - u * d;
    let ey = ny - v * d;
    assert(q2 * gb - q1 * gc == ex) by (nonlinear_arith)
        requires
            gb == s1 - u * p1 - v * q1,
            gc == s2 - u * p2 - v * q2,
            d == p1 * q2 - p2 * q1,
            nx == q2 * s1 - q1 * s2,
            ex == nx - u * d,
    ;
    assert(p1 * gc - p2 * gb == ey) by (nonlinear_arith)
        requires
            gb == s1 - u * p1 - v * q1,
            gc == s2 - u * p2 - v * q2,
            d == p1 * q2 - p2 * q1,
            ny == p1 * s2 - p2 * s1,
            ey == ny - v * d,
    ;
    assert(d * gb == p1 * ex + q1 * ey) by (nonlinear_arith)
        requires
            d == p1 * q2 - p2 * q1,
            q2 * gb - q1 * gc == ex,
            p1 * gc - p2 * gb == ey,
    ;
    assert(d * gc == p2 * ex + q2 * ey) by (nonlinear_arith)
        requires
            d == p1 * q2 - p2 * q1,
            q2 * gb - q1 * gc == ex,
            p1 * gc - p2 * gb == ey,
    ;
    assert(u * d == 2 * d * x && v * d == 2 * d * y) by (nonlinear_arith)
        requires
            u == 2 * x,
            v == 2 * y,
    ;
    assert((by - ay) * gc - (cy - ay) * gb == q2 * gb - q1 * gc) by (nonlinear_arith)
        requires
            q1 == ay - by,
            q2 == ay - cy,
    ;
    assert((cx - ax) * gb - (bx - ax) * gc == p1 * gc - p2 * gb) by (nonlinear_arith)
        requires
            p1 == ax - bx,
            p2 == ax - cx,
    ;
}

/// Where the three locations are not collinear and the true circumcentre has
/// integer coordinates, the computed centre is equally far from all three.
pub proof fn lemma_center_equidistant(a: Location, b: Location, c: Location)
    requires
        !collinear(a, b, c),
        center_is_exact(a, b, c),
    ensures
        equidistant(center_x(a, b, c), center_y(a, b, c), a, b, c),
{
    let d = det_area(a, b, c);
    let kx = lemma_multiple_of_mod(det_x(a, b, c), 2 * d);
    let ky = lemma_multiple_of_mod(det_y(a, b, c), 2 * d);
    assert(det_x(a, b, c) == 2 * d * kx && det_y(a, b, c) == 2 * d * ky) by (nonlinear_arith)
        requires
            det_x(a, b, c) == (2 * d) * kx,
            det_y(a, b, c) == (2 * d) * ky,
    ;
    lemma_center_coordinate(det_x(a, b, c), d, kx);
    lemma_center_coordinate(det_y(a, b, c), d, ky);
    assert(center_x(a, b, c) == kx && center_y(a, b, c) == ky);
    lemma_gap_identity(a.x as int, a.y as int, b.x as int, b.y as int, c.x as int, c.y as int, kx, ky);
    let gb = reach_squared(kx, ky, a) - reach_squared(kx, ky, b);
    let gc = reach_squared(kx, ky, a) - reach_squared(kx, ky, c);
    assert(d * gb == 0 && d * gc == 0) by (nonlinear_arith)
        requires
            d * gb == (a.x - b.x) * (det_x(a, b, c) - 2 * d * kx) + (a.y - b.y) * (det_y(a, b, c)
                - 2 * d * ky),
            d * gc == (a.x - c.x) * (det_x(a, b, c) - 2 * d * kx) + (a.y - c.y) * (det_y(a, b, c)
                - 2 * d * ky),
            det_x(a, b, c) == 2 * d * kx,
            det_y(a, b, c) == 2 * d * ky,
    ;
    assert(gb == 0 && gc == 0) by (nonlinear_arith)
        requires
            d != 0,
            d * gb == 0,
            d * gc == 0,
    ;
}

/// Conversely, a point with integer coordinates that is equally far from
/// three locations not on one line is the computed centre,
/// and the divisions that compute it are exact. So the computed centre is
/// equidistant on exactly the inputs that `center_is_exact` admits.
pub proof fn lemma_equidistant_is_center(a: Location, b: Location, c: Location, x: int, y: int)
    requires
        !collinear(a, b, c),
        equidistant(x, y, a, b, c),
    ensures
        center_x(a, b, c) == x,
        center_y(a, b, c) == y,
        center_is_exact(a, b, c),
{
    let d = det_area(a, b, c);
    lemma_gap_identity(a.x as int, a.y as int, b.x as int, b.y as int, c.x as int, c.y as int, x, y);
    let gb = reach_squared(x, y, a) - reach_squared(x, y, b);
    let gc = reach_squared(x, y, a) - reach_squared(x, y, c);
    assert(gb == 0 && gc == 0);
    assert(det_x(a, b, c) - 2 * d * x == 0) by (nonlinear_arith)
        requires
            (b.y - a.y) * gc - (c.y - a.y) * gb == det_x(a, b, c) - 2 * d * x,
            gb == 0,
            gc == 0,
    ;
    assert(det_y(a, b, c) - 2 * d * y == 0) by (nonlinear_arith)
        requires
            (c.x - a.x) * gb - (b.x - a.x) * gc == det_y(a, b, c) - 2 * d * y,
            gb == 0,
            gc == 0,
    ;
    lemma_center_coordinate(det_x(a, b, c), d, x);
    lemma_center_coordinate(det_y(a, b, c), d, y);
}

} // verus!
