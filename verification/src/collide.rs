//! Immutable 2-D collision segments and the point-versus-segment resolution
//! that keeps the camera inside the level bounds.
//!
//! Every test is carried out in exact integer arithmetic: the tolerant
//! on-segment test and the radius test, real-valued as usually written, have
//! exact squared equivalents (derived in the doc comments below), so no
//! square root enters the classification. A square root (rounded down) is
//! used only for the length of the push-back direction.

use vstd::prelude::*;

use crate::fixed::{
    div_tz, div_tz_spec, isqrt, lemma_div_tz_exact, lemma_div_tz_mag, lemma_mul_mag,
    lemma_sqrt_floor_is, lemma_square_nonneg, mag, sqrt_floor, DRIFT_LIMIT, EYE_LIMIT,
    SPEED_LIMIT, WORLD_LIMIT,
};
use crate::vec2::{dot_from, in_box2, sq_dist2, Vec2};

verus! {

/// Slack of the on-segment test, in fixed-point world units: a closest point
/// may overshoot an endpoint by up to half of this and still count as hitting
/// the segment, an intentional allowance against snagging on corners.
pub const TOLERANCE: i64 = 500;

/// Largest camera position magnitude a query point may have: the widest
/// camera bound plus the movement step, plus the push-back drift allowance.
pub const POS_LIMIT: i64 = EYE_LIMIT + 2 * SPEED_LIMIT + DRIFT_LIMIT;

/// Largest position magnitude of a candidate handed to [`resolve_position`]:
/// a camera position displaced by at most one diagonal movement step.
pub const CAND_LIMIT: i64 = EYE_LIMIT + 2 * SPEED_LIMIT;

/// An immutable 2-D collision segment. The squared length is cached when the
/// segment is built and never recomputed; the resolver relies on the cache
/// being faithful (see [`wf_collider`]).
#[derive(Clone, Copy, PartialEq, Eq, Structural, Debug)]
pub struct LineCollider {
    /// Start of the line segment.
    pub from: Vec2,
    /// End of the line segment.
    pub to: Vec2,
    /// Cached squared length of the segment.
    pub len2: i64,
}

/// A collision segment is well formed when its endpoints are distinct level
/// coordinates and its cached squared length is the true one.
pub open spec fn wf_collider(c: LineCollider) -> bool {
    &&& in_box2(c.from, WORLD_LIMIT as int)
    &&& in_box2(c.to, WORLD_LIMIT as int)
    &&& c.from != c.to
    &&& c.len2 == sq_dist2(c.from, c.to)
}

impl LineCollider {
    /// Build a collision segment, caching its squared length.
    pub fn new(from: Vec2, to: Vec2) -> (c: LineCollider)
        requires
            in_box2(from, WORLD_LIMIT as int),
            in_box2(to, WORLD_LIMIT as int),
            from != to,
        ensures
            c == (LineCollider { from, to, len2: sq_dist2(from, to) as i64 }),
            wf_collider(c),
    {
        let dx: i128 = (to.x - from.x) as i128;
        let dz: i128 = (to.z - from.z) as i128;
        proof {
            lemma_mul_mag(dx as int, dx as int, 0x100000, 0x100000);
            lemma_mul_mag(dz as int, dz as int, 0x100000, 0x100000);
        }
        let len2: i128 = dx * dx + dz * dz;
        LineCollider { from, to, len2: len2 as i64 }
    }
}

/// The tolerant on-segment test. With `d` the scalar product of `p - from`
/// with `to - from` and `L` the real segment length, the test demands
/// `d_from + d_to <= L + TOLERANCE` of the closest point on the infinite
/// line (its companion lower bound `>= L - TOLERANCE` holds for every point
/// of the line, so it adds nothing). Writing `t = d / L^2` for the projection
/// parameter, the sum is `L` itself for `0 <= t <= 1` and exceeds it by twice
/// the overshoot past the nearer endpoint otherwise; squaring the overshoot
/// arm gives the exact integer form used here.
pub open spec fn in_segment_range(c: LineCollider, p: Vec2) -> bool {
    let d = dot_from(c.from, c.to, p);
    if d < 0 {
        4 * (d * d) <= TOLERANCE * TOLERANCE * c.len2
    } else if d > c.len2 {
        4 * ((d - c.len2) * (d - c.len2)) <= TOLERANCE * TOLERANCE * c.len2
    } else {
        true
    }
}

/// The radius test: the distance from `p` to the closest point on the
/// infinite line through the segment is at most `radius`. That distance
/// squared is `|p - from|^2 - d^2 / L^2`; multiplying through by the positive
/// `L^2` gives the exact integer form.
pub open spec fn within_radius(c: LineCollider, p: Vec2, radius: int) -> bool {
    let d = dot_from(c.from, c.to, p);
    sq_dist2(c.from, p) * c.len2 - d * d <= radius * radius * c.len2
}

/// A query point collides with a segment when its closest point on the line
/// passes the tolerant on-segment test and lies within the player radius.
pub open spec fn collides(c: LineCollider, p: Vec2, radius: int) -> bool {
    in_segment_range(c, p) && within_radius(c, p, radius)
}

/// The push-back applied to a colliding point: move `p` away from the closest
/// point on the line, along their connecting direction, by `step` (the
/// planar movement length of the frame). The connecting vector is carried as
/// the numerator `w = p * L^2 - closest * L^2`, whose length is rounded down
/// by the integer square root; a point exactly on the line (`w == 0`) is left
/// in place rather than given an arbitrary direction.
pub open spec fn pushed_point(c: LineCollider, p: Vec2, step: int) -> Vec2 {
    let d = dot_from(c.from, c.to, p);
    let wx = (p.x - c.from.x) * c.len2 - d * (c.to.x - c.from.x);
    let wz = (p.z - c.from.z) * c.len2 - d * (c.to.z - c.from.z);
    let wl = sqrt_floor((wx * wx + wz * wz) as nat) as int;
    if wl == 0 {
        p
    } else {
        Vec2 {
            x: (p.x + div_tz_spec(wx * step, wl)) as i64,
            z: (p.z + div_tz_spec(wz * step, wl)) as i64,
        }
    }
}

/// One resolution step against one segment: a colliding point is pushed back,
/// any other point is left untouched.
pub open spec fn push_step(c: LineCollider, p: Vec2, step: int, radius: int) -> Vec2 {
    if collides(c, p, radius) {
        pushed_point(c, p, step)
    } else {
        p
    }
}

/// Resolution against a sequence of segments, in order, each step reading the
/// position left by the previous one.
pub open spec fn resolve_rec(segs: Seq<LineCollider>, p: Vec2, step: int, radius: int) -> Vec2
    decreases segs.len(),
{
    if segs.len() == 0 {
        p
    } else {
        resolve_rec(segs.drop_first(), push_step(segs[0], p, step, radius), step, radius)
    }
}

/// A query point whose closest point on the infinite line lies outside the
/// tolerant on-segment range is never pushed back by that segment, however
/// close to the line it may be.
pub proof fn lemma_out_of_range_untouched(c: LineCollider, p: Vec2, step: int, radius: int)
    requires
        !in_segment_range(c, p),
    ensures
        push_step(c, p, step, radius) == p,
{
}

/// Against a vertical wall (a segment of constant `x`), the push-back is
/// exact: the closest point sits straight across, so a colliding point moves
/// exactly one step away from the wall line, and its `z` does not change.
pub proof fn lemma_vertical_wall_push(c: LineCollider, p: Vec2, step: int, radius: int)
    requires
        wf_collider(c),
        c.from.x == c.to.x,
        p.x != c.from.x,
        in_box2(p, POS_LIMIT as int),
        0 <= step <= 2 * SPEED_LIMIT,
        collides(c, p, radius),
    ensures
        push_step(c, p, step, radius) == (Vec2 {
            x: (if p.x > c.from.x {
                p.x + step
            } else {
                p.x - step
            }) as i64,
            z: p.z,
        }),
{
    lemma_collider_len2(c);
    let dz = c.to.z - c.from.z;
    let ex = p.x - c.from.x;
    let ez = p.z - c.from.z;
    let d = dot_from(c.from, c.to, p);
    assert(ex * (c.to.x - c.from.x) == 0) by (nonlinear_arith)
        requires
            c.to.x - c.from.x == 0,
    ;
    assert(d == ez * dz);
    let wx = ex * c.len2 - d * (c.to.x - c.from.x);
    let wz = ez * c.len2 - d * dz;
    assert(d * (c.to.x - c.from.x) == 0) by (nonlinear_arith)
        requires
            c.to.x - c.from.x == 0,
    ;
    assert(wz == 0) by (nonlinear_arith)
        requires
            wz == ez * c.len2 - (ez * dz) * dz,
            c.len2 == 0 * 0 + dz * dz,
    ;
    assert(wx == ex * c.len2);
    assert(wx != 0) by (nonlinear_arith)
        requires
            ex != 0,
            c.len2 > 0,
            wx == ex * c.len2,
    ;
    let m = mag(wx);
    assert(wx * wx + wz * wz == m * m) by (nonlinear_arith)
        requires
            wz == 0,
            m == mag(wx),
    ;
    assert(m * m < (m + 1) * (m + 1)) by (nonlinear_arith)
        requires
            m >= 0,
    ;
    lemma_sqrt_floor_is((wx * wx + wz * wz) as nat, m as nat);
    let wl = sqrt_floor((wx * wx + wz * wz) as nat) as int;
    assert(wl == m);
    assert(wl > 0);
    if wx > 0 {
        assert(wx * step == step * wl) by (nonlinear_arith)
            requires
                wx == wl,
        ;
        lemma_div_tz_exact(step, wl);
        assert(div_tz_spec(wx * step, wl) == step);
        assert(ex > 0) by (nonlinear_arith)
            requires
                wx == ex * c.len2,
                wx > 0,
                c.len2 > 0,
        ;
    } else {
        assert(wx * step == (-step) * wl) by (nonlinear_arith)
            requires
                wx == -wl,
        ;
        lemma_div_tz_exact(-step, wl);
        assert(div_tz_spec(wx * step, wl) == -step);
        assert(ex < 0) by (nonlinear_arith)
            requires
                wx == ex * c.len2,
                wx < 0,
                c.len2 > 0,
        ;
    }
    assert(wz * step == 0 * wl) by (nonlinear_arith)
        requires
            wz == 0,
    ;
    lemma_div_tz_exact(0, wl);
    assert(div_tz_spec(wz * step, wl) == 0);
}

/// Against a vertical wall whose span covers the query point, the resolver
/// never leaves a point nearer the wall line than the collision radius,
/// provided the point did not start more than one step inside it: a point
/// beyond the radius is untouched, a point within it is pushed straight back
/// out.
pub proof fn lemma_vertical_wall_keeps_distance(c: LineCollider, p: Vec2, step: int, radius: int)
    requires
        wf_collider(c),
        c.from.x == c.to.x,
        p.x != c.from.x,
        in_segment_range(c, p),
        in_box2(p, POS_LIMIT as int),
        0 <= step <= 2 * SPEED_LIMIT,
        0 <= radius,
        mag(p.x - c.from.x) >= radius - step,
    ensures
        mag(push_step(c, p, step, radius).x - c.from.x) >= radius,
{
    let ex = p.x - c.from.x;
    if collides(c, p, radius) {
        lemma_vertical_wall_push(c, p, step, radius);
    } else {
        // For a vertical wall the radius test is exactly |p.x - x0| <= radius,
        // so a non-colliding point already stands beyond the radius and is
        // untouched.
        lemma_collider_len2(c);
        let dz = c.to.z - c.from.z;
        let d = dot_from(c.from, c.to, p);
        assert(ex * (c.to.x - c.from.x) == 0) by (nonlinear_arith)
            requires
                c.to.x - c.from.x == 0,
        ;
        let ez = p.z - c.from.z;
        assert(d == ez * dz);
        assert(!within_radius(c, p, radius));
        assert(sq_dist2(c.from, p) * c.len2 - d * d > radius * radius * c.len2);
        assert(ex * ex > radius * radius) by (nonlinear_arith)
            requires
                (ex * ex + ez * ez) * (0 * 0 + dz * dz) - (ez * dz) * (ez * dz) > radius * radius
                    * (0 * 0 + dz * dz),
                sq_dist2(c.from, p) == ex * ex + ez * ez,
                c.len2 == 0 * 0 + dz * dz,
                d == ez * dz,
        ;
        assert(mag(ex) > radius) by (nonlinear_arith)
            requires
                ex * ex > radius * radius,
                radius >= 0,
                mag(ex) == if ex < 0 {
                    -ex
                } else {
                    ex
                },
        ;
    }
}

/// A point that collides with no segment of the level is never moved by the
/// resolution, whatever the order of the segments.
pub proof fn lemma_resolve_untouched(segs: Seq<LineCollider>, p: Vec2, step: int, radius: int)
    requires
        forall|i: int| 0 <= i < segs.len() ==> !collides(#[trigger] segs[i], p, radius),
    ensures
        resolve_rec(segs, p, step, radius) == p,
    decreases segs.len(),
{
    if segs.len() > 0 {
        assert(push_step(segs[0], p, step, radius) == p);
        assert(forall|i: int|
            0 <= i < segs.drop_first().len() ==> !collides(
                #[trigger] segs.drop_first()[i],
                p,
                radius,
            ));
        lemma_resolve_untouched(segs.drop_first(), p, step, radius);
    }
}

/// The cached squared length of a well-formed segment is positive and within
/// the range that keeps all collision arithmetic inside `i128`.
pub proof fn lemma_collider_len2(c: LineCollider)
    requires
        wf_collider(c),
    ensures
        0 < c.len2 <= 0x8000000000,
{
    let dx = c.to.x - c.from.x;
    let dz = c.to.z - c.from.z;
    lemma_mul_mag(dx, dx, 0x80000, 0x80000);
    lemma_mul_mag(dz, dz, 0x80000, 0x80000);
    lemma_square_nonneg(dx);
    lemma_square_nonneg(dz);
    assert(dx != 0 || dz != 0);
    assert(dx * dx + dz * dz > 0) by (nonlinear_arith)
        requires
            dx != 0 || dz != 0,
    ;
}

/// Executable form of [`collides`].
pub fn collides_with(c: &LineCollider, p: Vec2, radius: i64) -> (b: bool)
    requires
        wf_collider(*c),
        in_box2(p, POS_LIMIT as int),
        0 <= radius <= WORLD_LIMIT,
    ensures
        b == collides(*c, p, radius as int),
{
    segment_in_range(c, p) && segment_within_radius(c, p, radius)
}

/// Executable form of [`in_segment_range`].
pub fn segment_in_range(c: &LineCollider, p: Vec2) -> (b: bool)
    requires
        wf_collider(*c),
        in_box2(p, POS_LIMIT as int),
    ensures
        b == in_segment_range(*c, p),
{
    proof {
        lemma_collider_len2(*c);
    }
    let dx: i128 = (c.to.x - c.from.x) as i128;
    let dz: i128 = (c.to.z - c.from.z) as i128;
    let ex: i128 = (p.x - c.from.x) as i128;
    let ez: i128 = (p.z - c.from.z) as i128;
    proof {
        lemma_mul_mag(ex as int, dx as int, 0x180000, 0x100000);
        lemma_mul_mag(ez as int, dz as int, 0x180000, 0x100000);
    }
    let d: i128 = ex * dx + ez * dz;
    let len2: i128 = c.len2 as i128;
    proof {
        lemma_mul_mag(TOLERANCE as int, TOLERANCE as int, 500, 500);
        lemma_mul_mag(
            (TOLERANCE as int) * (TOLERANCE as int),
            len2 as int,
            250000,
            0x8000000000,
        );
    }
    let bound: i128 = (TOLERANCE as i128) * (TOLERANCE as i128) * len2;
    if d < 0 {
        proof {
            lemma_mul_mag(d as int, d as int, 0x30000000000, 0x30000000000);
        }
        let q: i128 = d * d;
        4 * q <= bound
    } else if d > len2 {
        let o: i128 = d - len2;
        proof {
            lemma_mul_mag(o as int, o as int, 0x30000000000, 0x30000000000);
        }
        let q: i128 = o * o;
        4 * q <= bound
    } else {
        true
    }
}

/// Executable form of [`within_radius`].
pub fn segment_within_radius(c: &LineCollider, p: Vec2, radius: i64) -> (b: bool)
    requires
        wf_collider(*c),
        in_box2(p, POS_LIMIT as int),
        0 <= radius <= WORLD_LIMIT,
    ensures
        b == within_radius(*c, p, radius as int),
{
    proof {
        lemma_collider_len2(*c);
    }
    let dx: i128 = (c.to.x - c.from.x) as i128;
    let dz: i128 = (c.to.z - c.from.z) as i128;
    let ex: i128 = (p.x - c.from.x) as i128;
    let ez: i128 = (p.z - c.from.z) as i128;
    proof {
        lemma_mul_mag(ex as int, dx as int, 0x180000, 0x100000);
        lemma_mul_mag(ez as int, dz as int, 0x180000, 0x100000);
        lemma_mul_mag(ex as int, ex as int, 0x180000, 0x180000);
        lemma_mul_mag(ez as int, ez as int, 0x180000, 0x180000);
    }
    let d: i128 = ex * dx + ez * dz;
    let e2: i128 = ex * ex + ez * ez;
    let len2: i128 = c.len2 as i128;
    proof {
        lemma_mul_mag(e2 as int, len2 as int, 0x48000000000, 0x8000000000);
        lemma_mul_mag(d as int, d as int, 0x30000000000, 0x30000000000);
        lemma_mul_mag(radius as int, radius as int, 0x40000, 0x40000);
        lemma_mul_mag((radius as int) * (radius as int), len2 as int, 0x1000000000, 0x8000000000);
    }
    let r2: i128 = (radius as i128) * (radius as i128);
    e2 * len2 - d * d <= r2 * len2
}

/// Executable form of [`push_step`]: resolve one query point against one
/// segment, pushing it back by at most `step` per coordinate.
fn resolve_against(c: &LineCollider, p: Vec2, step: i64, radius: i64) -> (r: Vec2)
    requires
        wf_collider(*c),
        in_box2(p, POS_LIMIT as int),
        0 <= step <= 2 * SPEED_LIMIT,
        0 <= radius <= WORLD_LIMIT,
    ensures
        r == push_step(*c, p, step as int, radius as int),
        mag(r.x as int) <= mag(p.x as int) + step,
        mag(r.z as int) <= mag(p.z as int) + step,
{
    if !collides_with(c, p, radius) {
        return p;
    }
    proof {
        lemma_collider_len2(*c);
    }
    let dx: i128 = (c.to.x - c.from.x) as i128;
    let dz: i128 = (c.to.z - c.from.z) as i128;
    let ex: i128 = (p.x - c.from.x) as i128;
    let ez: i128 = (p.z - c.from.z) as i128;
    proof {
        lemma_mul_mag(ex as int, dx as int, 0x180000, 0x100000);
        lemma_mul_mag(ez as int, dz as int, 0x180000, 0x100000);
    }
    let d: i128 = ex * dx + ez * dz;
    let len2: i128 = c.len2 as i128;
    proof {
        lemma_mul_mag(ex as int, len2 as int, 0x180000, 0x8000000000);
        lemma_mul_mag(ez as int, len2 as int, 0x180000, 0x8000000000);
        lemma_mul_mag(d as int, dx as int, 0x30000000000, 0x100000);
        lemma_mul_mag(d as int, dz as int, 0x30000000000, 0x100000);
    }
    let wx: i128 = ex * len2 - d * dx;
    let wz: i128 = ez * len2 - d * dz;
    proof {
        lemma_mul_mag(wx as int, wx as int, 0x4000000000000000, 0x4000000000000000);
        lemma_mul_mag(wz as int, wz as int, 0x4000000000000000, 0x4000000000000000);
        lemma_square_nonneg(wx as int);
        lemma_square_nonneg(wz as int);
    }
    let w2: u128 = (wx * wx + wz * wz) as u128;
    let wl: u64 = isqrt(w2);
    if wl == 0 {
        p
    } else {
        proof {
            assert(wx * wx <= w2);
            assert(wz * wz <= w2);
            assert(-(wl as int) <= wx as int <= wl as int) by (nonlinear_arith)
                requires
                    wx * wx <= w2,
                    w2 < (wl + 1) * (wl + 1),
                    wl >= 0,
            ;
            assert(-(wl as int) <= wz as int <= wl as int) by (nonlinear_arith)
                requires
                    wz * wz <= w2,
                    w2 < (wl + 1) * (wl + 1),
                    wl >= 0,
            ;
            lemma_mul_mag(wx as int, step as int, wl as int, step as int);
            lemma_mul_mag(wz as int, step as int, wl as int, step as int);
            lemma_mul_mag(wl as int, step as int, 0xffffffffffffffff, 0x2000);
            lemma_div_tz_mag((wx as int) * (step as int), wl as int, step as int);
            lemma_div_tz_mag((wz as int) * (step as int), wl as int, step as int);
        }
        let px: i128 = div_tz(wx * (step as i128), wl as i128);
        let pz: i128 = div_tz(wz * (step as i128), wl as i128);
        Vec2 { x: (p.x as i128 + px) as i64, z: (p.z as i128 + pz) as i64 }
    }
}

/// Resolve a candidate camera position against every collision segment of the
/// level, in order, pushing it back by the frame's planar movement length
/// wherever it collides. The drift cap keeps every intermediate position
/// within the coordinate range of the arithmetic.
pub fn resolve_position(segments: &Vec<LineCollider>, pos: Vec2, step: i64, radius: i64) -> (r:
    Vec2)
    requires
        forall|i: int| 0 <= i < segments@.len() ==> wf_collider(#[trigger] segments@[i]),
        in_box2(pos, CAND_LIMIT as int),
        0 <= step <= 2 * SPEED_LIMIT,
        0 <= radius <= WORLD_LIMIT,
        step * segments@.len() <= DRIFT_LIMIT,
    ensures
        r == resolve_rec(segments@, pos, step as int, radius as int),
        mag(r.x as int) <= mag(pos.x as int) + step * segments@.len(),
        mag(r.z as int) <= mag(pos.z as int) + step * segments@.len(),
{
    let mut cur: Vec2 = pos;
    let mut i: usize = 0;
    proof {
        assert(segments@.skip(0) =~= segments@);
    }
    while i < segments.len()
        invariant
            forall|k: int| 0 <= k < segments@.len() ==> wf_collider(#[trigger] segments@[k]),
            0 <= i <= segments@.len(),
            0 <= step <= 2 * SPEED_LIMIT,
            0 <= radius <= WORLD_LIMIT,
            step * segments@.len() <= DRIFT_LIMIT,
            in_box2(pos, CAND_LIMIT as int),
            mag(cur.x as int) <= mag(pos.x as int) + step * i,
            mag(cur.z as int) <= mag(pos.z as int) + step * i,
            resolve_rec(segments@, pos, step as int, radius as int) == resolve_rec(
                segments@.skip(i as int),
                cur,
                step as int,
                radius as int,
            ),
        decreases segments@.len() - i,
    {
        proof {
            assert(step * i <= step * segments@.len()) by (nonlinear_arith)
                requires
                    0 <= step,
                    0 <= i < segments@.len(),
            ;
            assert(step * (i + 1) <= step * segments@.len()) by (nonlinear_arith)
                requires
                    0 <= step,
                    0 <= i + 1 <= segments@.len(),
            ;
            assert(step * (i + 1) == step * (i as int) + step) by (nonlinear_arith);
            assert(segments@.skip(i as int).drop_first() =~= segments@.skip(i as int + 1));
            assert(segments@.skip(i as int)[0] == segments@[i as int]);
        }
        cur = resolve_against(&segments[i], cur, step, radius);
        i = i + 1;
    }
    proof {
        assert(segments@.skip(segments@.len() as int).len() == 0);
    }
    cur
}

} // verus!
