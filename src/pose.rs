//! Skeletal poses of the walk cycle and their linear blend.

use vstd::prelude::*;

verus! {

/// Blend progress is counted in thousandths: `FACTOR_ONE` is a full blend.
pub const FACTOR_ONE: u32 = 1000;

/// Number of poses in the walk cycle.
pub const POSE_COUNT: usize = 5;

/// Limb endpoints relative to the body, in world units.
#[derive(Clone, Copy, Debug, PartialEq, Eq)]
pub struct Pose {
    pub left_arm: (i32, i32),
    pub right_arm: (i32, i32),
    pub left_leg: (i32, i32),
    pub right_leg: (i32, i32),
}

/// Limb endpoints relative to the body, in thousandths of a world unit.
#[derive(Clone, Copy, Debug, PartialEq, Eq)]
pub struct BlendedPose {
    pub left_arm: (i64, i64),
    pub right_arm: (i64, i64),
    pub left_leg: (i64, i64),
    pub right_leg: (i64, i64),
}

/// `a + (b - a) * t / FACTOR_ONE`, scaled by `FACTOR_ONE`.
pub open spec fn blend(a: int, b: int, t: int) -> int {
    a * FACTOR_ONE + (b - a) * t
}

pub open spec fn blend_limb(a: (i32, i32), b: (i32, i32), t: int) -> (int, int) {
    (blend(a.0 as int, b.0 as int, t), blend(a.1 as int, b.1 as int, t))
}

pub open spec fn limb_view(l: (i64, i64)) -> (int, int) {
    (l.0 as int, l.1 as int)
}

/// The componentwise blend of two poses at progress `t` thousandths.
pub open spec fn is_blend(r: BlendedPose, start: Pose, end: Pose, t: int) -> bool {
    &&& limb_view(r.left_arm) == blend_limb(start.left_arm, end.left_arm, t)
    &&& limb_view(r.right_arm) == blend_limb(start.right_arm, end.right_arm, t)
    &&& limb_view(r.left_leg) == blend_limb(start.left_leg, end.left_leg, t)
    &&& limb_view(r.right_leg) == blend_limb(start.right_leg, end.right_leg, t)
}

pub open spec fn pose_spec(l: (int, int), r: (int, int), ll: (int, int), rl: (int, int)) -> Pose {
    Pose {
        left_arm: (l.0 as i32, l.1 as i32),
        right_arm: (r.0 as i32, r.1 as i32),
        left_leg: (ll.0 as i32, ll.1 as i32),
        right_leg: (rl.0 as i32, rl.1 as i32),
    }
}

/// The walk cycle: legs alternate forward, passing through mid-stride poses,
/// and end on a neutral stance.
pub open spec fn run_pose_spec(i: int) -> Pose {
    if i == 0 {
        pose_spec((-20, 30), (20, 30), (-10, 60), (15, 60))
    } else if i == 1 {
        pose_spec((-15, 30), (15, 30), (-5, 60), (10, 60))
    } else if i == 2 {
        pose_spec((-20, 30), (20, 30), (15, 60), (-10, 60))
    } else if i == 3 {
        pose_spec((-15, 30), (15, 30), (10, 60), (-5, 60))
    } else {
        pose_spec((-20, 30), (20, 30), (-10, 60), (10, 60))
    }
}

/// The stance of an entity standing still.
pub open spec fn idle_pose_spec() -> Pose {
    pose_spec((-20, 30), (20, 30), (-10, 60), (10, 60))
}

/// Pose `i` of the walk cycle.
pub fn run_pose(i: usize) -> (r: Pose)
    requires
        i < POSE_COUNT,
    ensures
        r == run_pose_spec(i as int),
{
    if i == 0 {
        Pose { left_arm: (-20, 30), right_arm: (20, 30), left_leg: (-10, 60), right_leg: (15, 60) }
    } else if i == 1 {
        Pose { left_arm: (-15, 30), right_arm: (15, 30), left_leg: (-5, 60), right_leg: (10, 60) }
    } else if i == 2 {
        Pose { left_arm: (-20, 30), right_arm: (20, 30), left_leg: (15, 60), right_leg: (-10, 60) }
    } else if i == 3 {
        Pose { left_arm: (-15, 30), right_arm: (15, 30), left_leg: (10, 60), right_leg: (-5, 60) }
    } else {
        Pose { left_arm: (-20, 30), right_arm: (20, 30), left_leg: (-10, 60), right_leg: (10, 60) }
    }
}

/// The stance of an entity standing still.
pub fn idle_pose() -> (r: Pose)
    ensures
        r == idle_pose_spec(),
{
    Pose { left_arm: (-20, 30), right_arm: (20, 30), left_leg: (-10, 60), right_leg: (10, 60) }
}

fn blend_one(a: i32, b: i32, t: u32) -> (r: i64)
    requires
        t <= FACTOR_ONE,
    ensures
        r == blend(a as int, b as int, t as int),
{
    let d: i64 = b as i64 - a as i64;
    assert(-0x1_0000_0000 * 1000 <= d * t <= 0x1_0000_0000 * 1000) by (nonlinear_arith)
        requires -0x1_0000_0000 <= d <= 0x1_0000_0000, 0 <= t <= 1000;
    let base: i64 = a as i64 * 1000;
    let delta: i64 = d * t as i64;
    base + delta
}

fn blend_pair(a: (i32, i32), b: (i32, i32), t: u32) -> (r: (i64, i64))
    requires
        t <= FACTOR_ONE,
    ensures
        limb_view(r) == blend_limb(a, b, t as int),
{
    (blend_one(a.0, b.0, t), blend_one(a.1, b.1, t))
}

/// Linear blend of two poses, limb by limb and axis by axis, at progress `t`
/// thousandths; the result is in thousandths of a world unit.
pub fn lerp_pose(start: &Pose, end: &Pose, t: u32) -> (r: BlendedPose)
    requires
        t <= FACTOR_ONE,
    ensures
        is_blend(r, *start, *end, t as int),
{
    BlendedPose {
        left_arm: blend_pair(start.left_arm, end.left_arm, t),
        right_arm: blend_pair(start.right_arm, end.right_arm, t),
        left_leg: blend_pair(start.left_leg, end.left_leg, t),
        right_leg: blend_pair(start.right_leg, end.right_leg, t),
    }
}

/// A pose at full scale, with no blending.
pub fn scale_pose(p: &Pose) -> (r: BlendedPose)
    ensures
        is_blend(r, *p, *p, 0),
{
    lerp_pose(p, p, 0)
}

} // verus!
