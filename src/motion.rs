//! Integer motion arithmetic: square roots, the per-tick travel distance and
//! a constant-speed step toward a target. Lengths are in thousandths of a
//! world unit.

use vstd::prelude::*;

verus! {

/// The largest value whose square never exceeds any squared distance
/// between two `i32` points, plus one.
pub const SQRT_BOUND: u128 = 0x2_0000_0000;

/// `r` is the floor of the square root of `n`.
pub open spec fn is_floor_sqrt(n: int, r: int) -> bool {
    0 <= r && r * r <= n && n < (r + 1) * (r + 1)
}

/// The floor of the square root of a non-negative integer.
pub open spec fn floor_sqrt(n: int) -> int {
    choose|r: int| #[trigger] is_floor_sqrt(n, r)
}

/// Squared Euclidean length of `(dx, dy)`.
pub open spec fn dist_sq(dx: int, dy: int) -> int {
    dx * dx + dy * dy
}

/// Thousandths of a world unit covered in `dt_ms` milliseconds at `speed`
/// world units per second: exactly `speed * dt`.
pub open spec fn travel_of(speed: int, dt_ms: int) -> int {
    speed * dt_ms
}

/// The least integer whose square is at least `n`.
pub open spec fn ceil_sqrt(n: int) -> int {
    let r = floor_sqrt(n);
    if r * r == n {
        r
    } else {
        r + 1
    }
}

/// `c * travel / dist`, rounded toward zero.
pub open spec fn scaled(c: int, travel: int, dist: int) -> int {
    if c >= 0 {
        c * travel / dist
    } else {
        -((-c) * travel / dist)
    }
}

pub open spec fn sign(v: int) -> int {
    if v > 0 {
        1
    } else if v < 0 {
        -1
    } else {
        0
    }
}

pub open spec fn abs(v: int) -> int {
    if v >= 0 { v } else { -v }
}

/// Whether a point `(dx, dy)` away is within one tick's `travel`.
pub open spec fn within_reach(dx: int, dy: int, travel: int) -> bool {
    dist_sq(dx, dy) <= travel * travel
}

/// The step taken toward a point `(dx, dy)` away that is out of reach: the
/// direction scaled to length `travel`, each axis rounded toward zero (so the
/// step is never longer than `travel`); where both axes round to zero, one
/// thousandth along the dominant axis, so that a moving player always gains.
pub open spec fn step_of(dx: int, dy: int, travel: int) -> (int, int) {
    let dist = ceil_sqrt(dist_sq(dx, dy));
    let sx = scaled(dx, travel, dist);
    let sy = scaled(dy, travel, dist);
    if sx == 0 && sy == 0 && travel > 0 {
        if abs(dx) >= abs(dy) {
            (sign(dx), 0)
        } else {
            (0, sign(dy))
        }
    } else {
        (sx, sy)
    }
}

/// Position after one tick moving from `(x, y)` toward `(tx, ty)`: the target
/// itself when within reach, otherwise one step along the direction to it.
pub open spec fn motion_step(x: int, y: int, tx: int, ty: int, travel: int) -> (int, int) {
    let dx = tx - x;
    let dy = ty - y;
    if within_reach(dx, dy, travel) {
        (tx, ty)
    } else {
        let s = step_of(dx, dy, travel);
        (x + s.0, y + s.1)
    }
}

/// Position and remaining target after `n` ticks of motion at `travel` units per tick.
pub open spec fn glide(x: int, y: int, target: Option<(int, int)>, travel: int, n: nat) -> (
    (int, int),
    Option<(int, int)>,
)
    decreases n,
{
    if n == 0 {
        ((x, y), target)
    } else {
        match target {
            None => ((x, y), None),
            Some(t) => {
                let p = motion_step(x, y, t.0, t.1, travel);
                let rest = if within_reach(t.0 - x, t.1 - y, travel) {
                    None
                } else {
                    target
                };
                glide(p.0, p.1, rest, travel, (n - 1) as nat)
            },
        }
    }
}

/// Motion converges: moving toward `(tx, ty)` at a positive per-tick travel,
/// after more ticks than the Manhattan distance to it the entity stands
/// exactly on the target and the target is cleared.
pub proof fn lemma_motion_converges(x: int, y: int, tx: int, ty: int, travel: int, n: nat)
    requires
        travel >= 1,
        n > abs(tx - x) + abs(ty - y),
    ensures
        glide(x, y, Some((tx, ty)), travel, n) == ((tx, ty), None::<(int, int)>),
    decreases n,
{
    let dx = tx - x;
    let dy = ty - y;
    if within_reach(dx, dy, travel) {
        assert(glide(tx, ty, None, travel, (n - 1) as nat) == ((tx, ty), None::<(int, int)>));
    } else {
        lemma_step_bounds(dx, dy, travel);
        let p = motion_step(x, y, tx, ty, travel);
        if dx == 0 && dy == 0 {
            assert(dist_sq(dx, dy) == 0);
            assert(travel * travel >= 0) by (nonlinear_arith);
        }
        assert(abs(tx - p.0) + abs(ty - p.1) < abs(dx) + abs(dy));
        lemma_motion_converges(p.0, p.1, tx, ty, travel, (n - 1) as nat);
    }
}

/// A single tick never moves past the target on either axis, and never
/// farther than `travel`.
pub proof fn lemma_no_overshoot(x: int, y: int, tx: int, ty: int, travel: int)
    requires
        travel >= 0,
    ensures
        ({
            let p = motion_step(x, y, tx, ty, travel);
            &&& abs(tx - p.0) <= abs(tx - x)
            &&& abs(ty - p.1) <= abs(ty - y)
            &&& (x <= tx ==> x <= p.0 <= tx)
            &&& (tx <= x ==> tx <= p.0 <= x)
            &&& (y <= ty ==> y <= p.1 <= ty)
            &&& (ty <= y ==> ty <= p.1 <= y)
            &&& dist_sq(p.0 - x, p.1 - y) <= travel * travel
        }),
{
    let dx = tx - x;
    let dy = ty - y;
    if !within_reach(dx, dy, travel) {
        lemma_step_bounds(dx, dy, travel);
    }
}

/// The floor square root is unique.
pub proof fn lemma_floor_sqrt_unique(n: int, r: int)
    requires
        is_floor_sqrt(n, r),
    ensures
        floor_sqrt(n) == r,
{
    let s = floor_sqrt(n);
    assert(is_floor_sqrt(n, s));
    if s < r {
        assert((s + 1) * (s + 1) <= r * r) by (nonlinear_arith)
            requires 0 <= s, s + 1 <= r;
    }
    if r < s {
        assert((r + 1) * (r + 1) <= s * s) by (nonlinear_arith)
            requires 0 <= r, r + 1 <= s;
    }
}

/// Floor square root by bisection.
pub fn isqrt(n: u128) -> (r: u64)
    requires
        n < SQRT_BOUND * SQRT_BOUND,
    ensures
        is_floor_sqrt(n as int, r as int),
        r as int == floor_sqrt(n as int),
{
    let mut lo: u128 = 0;
    let mut hi: u128 = SQRT_BOUND;
    while lo + 1 < hi
        invariant
            lo < hi <= SQRT_BOUND,
            lo * lo <= n,
            n < hi * hi,
        decreases hi - lo,
    {
        let mid: u128 = lo + (hi - lo) / 2;
        assert(mid * mid <= SQRT_BOUND * SQRT_BOUND) by (nonlinear_arith)
            requires mid <= SQRT_BOUND;
        if mid * mid <= n {
            lo = mid;
        } else {
            hi = mid;
        }
    }
    assert(lo < SQRT_BOUND);
    proof {
        lemma_floor_sqrt_unique(n as int, lo as int);
    }
    lo as u64
}

/// Thousandths of a world unit covered in one tick of `dt_ms` milliseconds at
/// `speed` world units per second.
pub fn travel(speed: u32, dt_ms: u32) -> (r: u64)
    ensures
        r as int == travel_of(speed as int, dt_ms as int),
{
    assert(speed as u64 * dt_ms as u64 <= 0xffff_ffff_ffff_ffff) by (nonlinear_arith)
        requires speed <= 0xffff_ffff, dt_ms <= 0xffff_ffff;
    speed as u64 * dt_ms as u64
}

/// `a = c * travel / dist` rounded down lies in `[0, c]`, and `a * dist`
/// stays within `c * travel`, squares included.
proof fn lemma_scaled_bounds(c: int, travel: int, dist: int)
    requires
        0 <= c,
        0 <= travel < dist,
    ensures
        0 <= c * travel / dist <= c,
        (c * travel / dist) * (c * travel / dist) * (dist * dist) <= c * c * (travel * travel),
{
    let p = c * travel;
    assert(0 <= p <= c * dist) by (nonlinear_arith)
        requires p == c * travel, 0 <= c, 0 <= travel < dist;
    vstd::arithmetic::div_mod::lemma_fundamental_div_mod(p, dist);
    let a = p / dist;
    let r = p % dist;
    assert(0 <= r < dist);
    assert(0 <= a) by (nonlinear_arith)
        requires p == dist * a + r, 0 <= p, r < dist, 0 < dist;
    assert(a * dist <= p) by (nonlinear_arith)
        requires p == dist * a + r, 0 <= r;
    assert(a <= c) by (nonlinear_arith)
        requires a * dist <= p, p <= c * dist, 0 < dist;
    assert(a * dist * (a * dist) <= p * p) by (nonlinear_arith)
        requires 0 <= a * dist <= p, 0 <= a, 0 < dist;
    assert(a * a * (dist * dist) == a * dist * (a * dist)) by (nonlinear_arith);
    assert(p * p == c * c * (travel * travel)) by (nonlinear_arith)
        requires p == c * travel;
}

/// A step toward a point out of reach stays within `travel`, never passes
/// the point on either axis, and makes progress whenever `travel` is positive.
pub proof fn lemma_step_bounds(dx: int, dy: int, travel: int)
    requires
        0 <= travel,
        dist_sq(dx, dy) > travel * travel,
    ensures
        ceil_sqrt(dist_sq(dx, dy)) > travel,
        ceil_sqrt(dist_sq(dx, dy)) * ceil_sqrt(dist_sq(dx, dy)) >= dist_sq(dx, dy),
        ceil_sqrt(dist_sq(dx, dy)) <= floor_sqrt(dist_sq(dx, dy)) + 1,
        is_floor_sqrt(dist_sq(dx, dy), floor_sqrt(dist_sq(dx, dy))),
        ({
            let s = step_of(dx, dy, travel);
            &&& abs(s.0) <= abs(dx)
            &&& abs(s.1) <= abs(dy)
            &&& (dx >= 0 ==> s.0 >= 0) && (dx < 0 ==> s.0 <= 0)
            &&& (dy >= 0 ==> s.1 >= 0) && (dy < 0 ==> s.1 <= 0)
            &&& dist_sq(s.0, s.1) <= travel * travel
            &&& (travel > 0 ==> abs(s.0) + abs(s.1) >= 1)
        }),
{
    let n = dist_sq(dx, dy);
    assert(travel * travel >= 0) by (nonlinear_arith);
    lemma_floor_sqrt_exists(n);
    let r = floor_sqrt(n);
    assert(is_floor_sqrt(n, r));
    let d = ceil_sqrt(n);
    assert(d * d >= n) by (nonlinear_arith)
        requires d == (if r * r == n { r } else { r + 1 }), n < (r + 1) * (r + 1);
    if d <= travel {
        assert(d * d <= travel * travel) by (nonlinear_arith)
            requires 0 <= d <= travel;
    }
    let ax = abs(dx);
    let ay = abs(dy);
    assert(ax * ax == dx * dx) by (nonlinear_arith)
        requires ax == abs(dx);
    assert(ay * ay == dy * dy) by (nonlinear_arith)
        requires ay == abs(dy);
    lemma_scaled_bounds(ax, travel, d);
    lemma_scaled_bounds(ay, travel, d);
    let a = ax * travel / d;
    let b = ay * travel / d;
    let sa = if dx >= 0 { a } else { -a };
    let sb = if dy >= 0 { b } else { -b };
    assert(scaled(dx, travel, d) == sa);
    assert(scaled(dy, travel, d) == sb);
    assert(sa * sa == a * a) by (nonlinear_arith)
        requires sa == a || sa == -a;
    assert(sb * sb == b * b) by (nonlinear_arith)
        requires sb == b || sb == -b;
    assert(a * a + b * b <= travel * travel) by (nonlinear_arith)
        requires
            a * a * (d * d) <= ax * ax * (travel * travel),
            b * b * (d * d) <= ay * ay * (travel * travel),
            ax * ax + ay * ay == n,
            n <= d * d,
            d > 0,
            travel >= 0;
    assert(dist_sq(sa, sb) == a * a + b * b);
    let st = step_of(dx, dy, travel);
    if a == 0 && b == 0 && travel > 0 {
        if dx == 0 && dy == 0 {
            assert(n == 0);
        }
        assert(1 <= travel * travel) by (nonlinear_arith)
            requires travel >= 1;
        if ax >= ay {
            assert(dx != 0);
            assert(st == (sign(dx), 0int));
            assert(sign(dx) * sign(dx) == 1) by (nonlinear_arith)
                requires sign(dx) == 1 || sign(dx) == -1;
            assert(dist_sq(sign(dx), 0) == 1) by (nonlinear_arith)
                requires sign(dx) * sign(dx) == 1;
        } else {
            assert(dy != 0);
            assert(st == (0int, sign(dy)));
            assert(sign(dy) * sign(dy) == 1) by (nonlinear_arith)
                requires sign(dy) == 1 || sign(dy) == -1;
            assert(dist_sq(0, sign(dy)) == 1) by (nonlinear_arith)
                requires sign(dy) * sign(dy) == 1;
        }
    } else {
        assert(st == (sa, sb));
        if travel > 0 && a == 0 && b == 0 {
        } else if travel > 0 {
            assert(abs(sa) + abs(sb) >= 1);
        }
    }
}

/// Magnitude of one component of a step: `a * travel / dist` rounded down.
fn step_len(a: u128, travel: u128, dist: u128) -> (r: u128)
    requires
        a <= 0x1_0000_0000,
        1 <= dist <= SQRT_BOUND,
        travel < dist,
    ensures
        r as int == (a as int) * (travel as int) / (dist as int),
{
    assert(a * travel <= 0x1_0000_0000 * SQRT_BOUND) by (nonlinear_arith)
        requires a <= 0x1_0000_0000, travel < dist, dist <= SQRT_BOUND;
    (a * travel) / dist
}

/// One tick of constant-speed motion from `(x, y)` toward `(tx, ty)`.
pub fn step_toward(x: i32, y: i32, tx: i32, ty: i32, travel: u64) -> (r: (i32, i32))
    ensures
        (r.0 as int, r.1 as int) == motion_step(x as int, y as int, tx as int, ty as int, travel as int),
{
    let dx: i64 = tx as i64 - x as i64;
    let dy: i64 = ty as i64 - y as i64;
    let ax: u128 = if dx >= 0 { dx as u128 } else { (-dx) as u128 };
    let ay: u128 = if dy >= 0 { dy as u128 } else { (-dy) as u128 };
    assert(ax * ax <= 0x1_0000_0000_0000_0000) by (nonlinear_arith)
        requires ax <= 0x1_0000_0000;
    assert(ay * ay <= 0x1_0000_0000_0000_0000) by (nonlinear_arith)
        requires ay <= 0x1_0000_0000;
    let dsq: u128 = ax * ax + ay * ay;
    let t: u128 = travel as u128;
    proof {
        assert(dsq as int == dist_sq(dx as int, dy as int)) by (nonlinear_arith)
            requires
                dsq == ax * ax + ay * ay,
                ax == abs(dx as int),
                ay == abs(dy as int);
    }
    assert(t * t <= 0xffff_ffff_ffff_ffff * 0xffff_ffff_ffff_ffff) by (nonlinear_arith)
        requires t <= 0xffff_ffff_ffff_ffff;
    if dsq <= t * t {
        return (tx, ty);
    }
    let r: u128 = isqrt(dsq) as u128;
    proof {
        lemma_step_bounds(dx as int, dy as int, travel as int);
        lemma_floor_sqrt_unique(dsq as int, r as int);
        if r >= SQRT_BOUND {
            assert(r * r >= SQRT_BOUND * SQRT_BOUND) by (nonlinear_arith)
                requires r >= SQRT_BOUND;
        }
    }
    let dist: u128 = if r * r == dsq { r } else { r + 1 };
    let sx: u128 = step_len(ax, t, dist);
    let sy: u128 = step_len(ay, t, dist);
    let (mx, my): (i64, i64) = if sx == 0 && sy == 0 && t > 0 {
        if ax >= ay {
            (if dx > 0 { 1 } else { -1 }, 0)
        } else {
            (0, if dy > 0 { 1 } else { -1 })
        }
    } else {
        (if dx >= 0 { sx as i64 } else { -(sx as i64) }, if dy >= 0 { sy as i64 } else { -(sy as i64) })
    };
    proof {
        assert(scaled(dx as int, travel as int, dist as int) == (if dx >= 0 { sx as int } else { -(sx as int) }));
        assert(scaled(dy as int, travel as int, dist as int) == (if dy >= 0 { sy as int } else { -(sy as int) }));
        if sx == 0 && sy == 0 && t > 0 && ax >= ay {
            assert(dx != 0);
        }
        if sx == 0 && sy == 0 && t > 0 && ax < ay {
            assert(dy != 0);
        }
    }
    ((x as i64 + mx) as i32, (y as i64 + my) as i32)
}

/// Every non-negative integer below the bound has a floor square root.
pub proof fn lemma_floor_sqrt_exists(n: int)
    requires
        0 <= n,
    ensures
        exists|r: int| #[trigger] is_floor_sqrt(n, r),
    decreases n,
{
    if n == 0 {
        assert(is_floor_sqrt(0, 0));
    } else {
        lemma_floor_sqrt_exists(n - 1);
        let r = choose|r: int| #[trigger] is_floor_sqrt(n - 1, r);
        if n < (r + 1) * (r + 1) {
            assert(is_floor_sqrt(n, r));
        } else {
            assert(n == (r + 1) * (r + 1));
            assert(n < (r + 2) * (r + 2)) by (nonlinear_arith)
                requires n == (r + 1) * (r + 1), 0 <= r;
            assert(is_floor_sqrt(n, r + 1));
        }
    }
}

} // verus!
