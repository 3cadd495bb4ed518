//! A player avatar: position, motion target, walk-cycle animation,
//! transient chat message and the flags the send scheduler reads.

use vstd::prelude::*;
use crate::motion::{glide, lemma_no_overshoot, motion_step, step_toward, travel, travel_of, within_reach};
use crate::pose::{
    idle_pose, idle_pose_spec, is_blend, lerp_pose, run_pose, run_pose_spec, scale_pose,
    BlendedPose, FACTOR_ONE, POSE_COUNT,
};

verus! {

/// Movement speed of every player, in world units per second.
pub const PLAYER_SPEED: u32 = 250;

/// Side of a remote player's bounding box, in thousandths of a world unit.
pub const REMOTE_SIZE: u32 = 30_000;

/// Time a walk-cycle pose is held before the cycle advances.
pub const POSE_INTERVAL_MS: u64 = 100;

/// Age at which a chat message is cleared.
pub const MESSAGE_LIFETIME_MS: u64 = 15_000;

/// Milliseconds from `since` to `now`; zero if the clock reads earlier.
pub open spec fn elapsed(now: u64, since: u64) -> int {
    if now >= since {
        now - since
    } else {
        0
    }
}

pub fn elapsed_ms(now: u64, since: u64) -> (r: u64)
    ensures
        r == elapsed(now, since),
{
    if now >= since {
        now - since
    } else {
        0
    }
}

/// Growth of the blend factor per frame: one full blend per pose interval at
/// `fps` frames per second (a full blend at once when the rate is unknown).
pub open spec fn factor_step(fps: u32) -> int {
    if fps == 0 {
        FACTOR_ONE as int
    } else {
        (FACTOR_ONE * 1000) as int / (POSE_INTERVAL_MS * fps) as int
    }
}

pub open spec fn min(a: int, b: int) -> int {
    if a <= b {
        a
    } else {
        b
    }
}

/// One tick of motion toward the target, if there is one: a step of
/// `travel`, or a snap onto the target (clearing it) once it is within reach.
pub open spec fn after_motion(p: Player, travel: int) -> Player {
    match p.target {
        None => p,
        Some(t) => {
            let q = motion_step(p.x as int, p.y as int, t.0 as int, t.1 as int, travel);
            let arrived = within_reach(t.0 - p.x, t.1 - p.y, travel);
            Player {
                x: q.0 as i32,
                y: q.1 as i32,
                target: if arrived {
                    None
                } else {
                    p.target
                },
                is_moving: !arrived,
                position_changed: true,
                ..p
            }
        },
    }
}

/// A message (and its timer) is cleared once it is fifteen seconds old.
pub open spec fn after_expiry(p: Player, now: u64) -> Player {
    if elapsed(now, p.message_set_ms) >= MESSAGE_LIFETIME_MS {
        Player { message: None, message_set_ms: now, ..p }
    } else {
        p
    }
}

/// While moving, the walk cycle advances every pose interval and blends in
/// between, and the bobbing clock runs; while still, the bobbing clock is zero.
pub open spec fn after_animation(p: Player, now: u64, dt_ms: u32, fps: u32) -> Player {
    if p.is_moving {
        let q = if elapsed(now, p.last_pose_update_ms) >= POSE_INTERVAL_MS {
            Player {
                current_pose_index: p.next_pose_index,
                next_pose_index: ((p.next_pose_index + 1) % (POSE_COUNT as int)) as usize,
                pose_interp_factor: 0,
                last_pose_update_ms: now,
                ..p
            }
        } else {
            Player {
                pose_interp_factor: min(
                    p.pose_interp_factor + factor_step(fps),
                    FACTOR_ONE as int,
                ) as u32,
                ..p
            }
        };
        Player { bobbing_time_ms: min(p.bobbing_time_ms + dt_ms, u64::MAX as int) as u64, ..q }
    } else {
        Player { bobbing_time_ms: 0, ..p }
    }
}

/// A player after one tick of `dt_ms` at time `now` and `fps` frames per second.
pub open spec fn advanced(p: Player, now: u64, dt_ms: u32, fps: u32) -> Player {
    after_animation(
        after_expiry(after_motion(p, travel_of(p.speed as int, dt_ms as int)), now),
        now,
        dt_ms,
        fps,
    )
}

/// The remote player first reported with `id` at `(x, y)` at time `now`:
/// standing there, targeting that same point.
pub open spec fn remote_at(id: usize, x: i32, y: i32, now: u64) -> Player {
    Player {
        id,
        x,
        y,
        width: REMOTE_SIZE,
        height: REMOTE_SIZE,
        speed: PLAYER_SPEED,
        target: Some((x, y)),
        message: None,
        message_set_ms: now,
        last_message_send_ms: now,
        message_sent: true,
        position_changed: false,
        current_pose_index: 0,
        next_pose_index: 1,
        last_pose_update_ms: now,
        pose_interp_factor: 0,
        is_local: false,
        is_moving: false,
        bobbing_time_ms: 0,
    }
}

#[derive(Clone, Debug)]
pub struct Player {
    /// Server-assigned identity; 0 until the server has assigned one.
    pub id: usize,
    /// Position, in thousandths of a world unit.
    pub x: i32,
    pub y: i32,
    /// Size of the bounding box, in thousandths of a world unit.
    pub width: u32,
    pub height: u32,
    /// World units per second.
    pub speed: u32,
    /// Destination the player glides toward, if any.
    pub target: Option<(i32, i32)>,
    pub message: Option<String>,
    /// When the message was set or received, or last expired.
    pub message_set_ms: u64,
    /// When the scheduler last transmitted the message.
    pub last_message_send_ms: u64,
    /// Whether the current message has been transmitted.
    pub message_sent: bool,
    /// Whether the position changed since it was last transmitted.
    pub position_changed: bool,
    pub current_pose_index: usize,
    pub next_pose_index: usize,
    pub last_pose_update_ms: u64,
    /// Progress of the blend from the current to the next pose, in thousandths.
    pub pose_interp_factor: u32,
    pub is_local: bool,
    pub is_moving: bool,
    /// Time spent moving since the player last stood still; drives the
    /// vertical bobbing offset, which is zero exactly when this is zero.
    pub bobbing_time_ms: u64,
}

impl Player {
    /// The local player as created at `(x, y)`.
    pub open spec fn new_local_spec(x: i32, y: i32, width: u32, height: u32, now_ms: u64) -> Player {
        Player {
            id: 0,
            x,
            y,
            width,
            height,
            speed: PLAYER_SPEED,
            target: None,
            message: None,
            message_set_ms: now_ms,
            last_message_send_ms: now_ms,
            message_sent: false,
            position_changed: false,
            current_pose_index: 0,
            next_pose_index: 1,
            last_pose_update_ms: now_ms,
            pose_interp_factor: 0,
            is_local: true,
            is_moving: false,
            bobbing_time_ms: 0,
        }
    }

    /// Pose indices stay in the cycle and the blend factor stays in `[0, 1]`.
    pub open spec fn wf(&self) -> bool {
        &&& self.current_pose_index < POSE_COUNT
        &&& self.next_pose_index < POSE_COUNT
        &&& self.pose_interp_factor <= FACTOR_ONE
    }

    /// The local player, not yet assigned an identity, at `(x, y)` with no target.
    pub fn new_local(x: i32, y: i32, width: u32, height: u32, now_ms: u64) -> (r: Player)
        ensures
            r.wf(),
            r == Player::new_local_spec(x, y, width, height, now_ms),
    {
        Player {
            id: 0,
            x,
            y,
            width,
            height,
            speed: PLAYER_SPEED,
            target: None,
            message: None,
            message_set_ms: now_ms,
            last_message_send_ms: now_ms,
            message_sent: false,
            position_changed: false,
            current_pose_index: 0,
            next_pose_index: 1,
            last_pose_update_ms: now_ms,
            pose_interp_factor: 0,
            is_local: true,
            is_moving: false,
            bobbing_time_ms: 0,
        }
    }

    /// A remote player first reported at `(x, y)`, targeting that same point.
    pub fn new_other(id: usize, x: i32, y: i32, now_ms: u64) -> (r: Player)
        ensures
            r.wf(),
            r == remote_at(id, x, y, now_ms),
    {
        Player {
            id,
            x,
            y,
            width: REMOTE_SIZE,
            height: REMOTE_SIZE,
            speed: PLAYER_SPEED,
            target: Some((x, y)),
            message: None,
            message_set_ms: now_ms,
            last_message_send_ms: now_ms,
            message_sent: true,
            position_changed: false,
            current_pose_index: 0,
            next_pose_index: 1,
            last_pose_update_ms: now_ms,
            pose_interp_factor: 0,
            is_local: false,
            is_moving: false,
            bobbing_time_ms: 0,
        }
    }

    /// Advances the player by one tick of `dt_ms` at time `now_ms`, the frame
    /// rate being `fps`: moves it toward its target, expires an old message
    /// and animates the walk cycle.
    pub fn update(&mut self, now_ms: u64, dt_ms: u32, fps: u32)
        requires
            old(self).wf(),
        ensures
            final(self).wf(),
            *final(self) == advanced(*old(self), now_ms, dt_ms, fps),
    {
        if let Some(t) = self.target {
            let step: u64 = travel(self.speed, dt_ms);
            let dx: i64 = t.0 as i64 - self.x as i64;
            let dy: i64 = t.1 as i64 - self.y as i64;
            let arrived = within_reach_exec(dx, dy, step);
            let (nx, ny) = step_toward(self.x, self.y, t.0, t.1, step);
            self.x = nx;
            self.y = ny;
            if arrived {
                self.target = None;
                self.is_moving = false;
            } else {
                self.is_moving = true;
            }
            self.position_changed = true;
        }
        if elapsed_ms(now_ms, self.message_set_ms) >= MESSAGE_LIFETIME_MS {
            self.message = None;
            self.message_set_ms = now_ms;
        }
        if self.is_moving {
            if elapsed_ms(now_ms, self.last_pose_update_ms) >= POSE_INTERVAL_MS {
                self.current_pose_index = self.next_pose_index;
                self.next_pose_index = (self.next_pose_index + 1) % POSE_COUNT;
                self.pose_interp_factor = 0;
                self.last_pose_update_ms = now_ms;
            } else {
                let grown: u64 = self.pose_interp_factor as u64 + factor_step_exec(fps);
                self.pose_interp_factor = if grown > FACTOR_ONE as u64 {
                    FACTOR_ONE
                } else {
                    grown as u32
                };
            }
            self.bobbing_time_ms = self.bobbing_time_ms.saturating_add(dt_ms as u64);
        } else {
            self.bobbing_time_ms = 0;
        }
    }

    /// Sets a new chat message, due to be transmitted and to expire fifteen
    /// seconds from `now_ms`.
    pub fn set_message(&mut self, text: String, now_ms: u64)
        ensures
            *final(self) == (Player {
                message: Some(text),
                message_sent: false,
                message_set_ms: now_ms,
                ..*old(self)
            }),
    {
        self.message = Some(text);
        self.message_sent = false;
        self.message_set_ms = now_ms;
    }

    /// The pose to draw, in thousandths of a world unit: the idle stance when
    /// still, otherwise the blend between the current and next pose of the
    /// walk cycle at the current progress.
    pub fn get_current_pose(&self) -> (r: BlendedPose)
        requires
            self.wf(),
        ensures
            self.is_moving ==> is_blend(
                r,
                run_pose_spec(self.current_pose_index as int),
                run_pose_spec(self.next_pose_index as int),
                self.pose_interp_factor as int,
            ),
            !self.is_moving ==> is_blend(r, idle_pose_spec(), idle_pose_spec(), 0),
    {
        if self.is_moving {
            let start = run_pose(self.current_pose_index);
            let end = run_pose(self.next_pose_index);
            lerp_pose(&start, &end, self.pose_interp_factor)
        } else {
            scale_pose(&idle_pose())
        }
    }
}

fn factor_step_exec(fps: u32) -> (r: u64)
    ensures
        r == factor_step(fps),
{
    if fps == 0 {
        FACTOR_ONE as u64
    } else {
        (FACTOR_ONE as u64 * 1000) / (POSE_INTERVAL_MS * fps as u64)
    }
}

fn within_reach_exec(dx: i64, dy: i64, step: u64) -> (r: bool)
    requires
        -0x1_0000_0000 <= dx <= 0x1_0000_0000,
        -0x1_0000_0000 <= dy <= 0x1_0000_0000,
    ensures
        r == within_reach(dx as int, dy as int, step as int),
{
    let ax: u128 = if dx >= 0 { dx as u128 } else { (-dx) as u128 };
    let ay: u128 = if dy >= 0 { dy as u128 } else { (-dy) as u128 };
    assert(ax * ax <= 0x1_0000_0000_0000_0000) by (nonlinear_arith)
        requires ax <= 0x1_0000_0000;
    assert(ay * ay <= 0x1_0000_0000_0000_0000) by (nonlinear_arith)
        requires ay <= 0x1_0000_0000;
    let dsq: u128 = ax * ax + ay * ay;
    assert(dsq == dx * dx + dy * dy) by (nonlinear_arith)
        requires dsq == ax * ax + ay * ay, ax == (if dx >= 0 { dx as int } else { -dx }),
            ay == (if dy >= 0 { dy as int } else { -dy });
    let t: u128 = step as u128;
    assert(t * t <= 0xffff_ffff_ffff_ffff * 0xffff_ffff_ffff_ffff) by (nonlinear_arith)
        requires t <= 0xffff_ffff_ffff_ffff;
    dsq <= t * t
}

/// A target as a point of integers.
pub open spec fn target_view(t: Option<(i32, i32)>) -> Option<(int, int)> {
    match t {
        Some(p) => Some((p.0 as int, p.1 as int)),
        None => None,
    }
}

/// One update moves a player by exactly one tick of `glide`, so that the
/// convergence of `glide` holds of repeated updates.
pub proof fn lemma_update_glides(p: Player, now: u64, dt_ms: u32, fps: u32)
    ensures
        ({
            let a = advanced(p, now, dt_ms, fps);
            glide(p.x as int, p.y as int, target_view(p.target), travel_of(p.speed as int, dt_ms as int), 1)
                == ((a.x as int, a.y as int), target_view(a.target))
        }),
{
    let tr = travel_of(p.speed as int, dt_ms as int);
    assert(tr >= 0) by (nonlinear_arith)
        requires tr == p.speed as int * dt_ms as int, p.speed >= 0, dt_ms >= 0;
    reveal_with_fuel(glide, 2);
    if let Some(t) = p.target {
        lemma_no_overshoot(p.x as int, p.y as int, t.0 as int, t.1 as int, tr);
        let q = motion_step(p.x as int, p.y as int, t.0 as int, t.1 as int, tr);
        let m = after_motion(p, tr);
        assert(m.x as int == q.0 && m.y as int == q.1);
    }
}

/// The blend factor stays within `[0, 1]` on every tick, and only falls when
/// the walk cycle advances, back to zero.
pub proof fn lemma_pose_factor(p: Player, now: u64, dt_ms: u32, fps: u32)
    requires
        p.wf(),
    ensures
        ({
            let a = advanced(p, now, dt_ms, fps);
            &&& a.wf()
            &&& 0 <= a.pose_interp_factor <= FACTOR_ONE
            &&& (a.pose_interp_factor < p.pose_interp_factor ==> a.pose_interp_factor == 0
                && a.current_pose_index == p.next_pose_index
                && a.next_pose_index == (p.next_pose_index + 1) % (POSE_COUNT as int))
        }),
{
}

/// A player that is not moving after a tick has a bobbing clock (and so a
/// bobbing offset) of exactly zero.
pub proof fn lemma_idle_reset(p: Player, now: u64, dt_ms: u32, fps: u32)
    ensures
        !advanced(p, now, dt_ms, fps).is_moving ==> advanced(p, now, dt_ms, fps).bobbing_time_ms == 0,
{
}

/// After a tick, a message still held is less than fifteen seconds old.
pub proof fn lemma_message_expiry(p: Player, now: u64, dt_ms: u32, fps: u32)
    ensures
        ({
            let a = advanced(p, now, dt_ms, fps);
            a.message.is_some() ==> elapsed(now, a.message_set_ms) < MESSAGE_LIFETIME_MS
        }),
{
}

} // verus!
