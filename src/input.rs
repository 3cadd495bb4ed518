//! Local input: walking with direction keys, gliding to a clicked point,
//! chat phrases, and one tick of the whole world.

use vstd::prelude::*;
use crate::motion::{floor_sqrt, isqrt, travel, travel_of};
use crate::player::{advanced, Player};
use crate::world::Game;

verus! {

/// Width of the playing field, in thousandths of a world unit.
pub const FIELD_WIDTH: i32 = 800_000;

/// Height of the playing field, in thousandths of a world unit.
pub const FIELD_HEIGHT: i32 = 600_000;

/// Longest walking travel considered in one tick; any longer one leaves the
/// coordinate range, even diagonally, and is clamped to the field anyway.
pub const WALK_CAP: u64 = 0x2_0000_0000;

/// A chat phrase bound to a key.
#[derive(Clone, Copy, Debug, PartialEq, Eq, Structural)]
pub enum Phrase {
    Hello,
    ComeOver,
    Okay,
}

pub open spec fn phrase_text(p: Phrase) -> Seq<char> {
    match p {
        Phrase::Hello => "Hello, world!"@,
        Phrase::ComeOver => "Come over here."@,
        Phrase::Okay => "Okay."@,
    }
}

impl Phrase {
    /// The text of the phrase.
    pub fn text(&self) -> (r: String)
        ensures
            r@ == phrase_text(*self),
    {
        match self {
            Phrase::Hello => String::from_str("Hello, world!"),
            Phrase::ComeOver => String::from_str("Come over here."),
            Phrase::Okay => String::from_str("Okay."),
        }
    }
}

/// The keys and mouse events of one frame.
#[derive(Clone, Copy, Debug, PartialEq, Eq)]
pub struct InputState {
    /// Restart the walk cycle.
    pub reset_pose: bool,
    pub up: bool,
    pub down: bool,
    pub left: bool,
    pub right: bool,
    pub say_hello: bool,
    pub say_come_over: bool,
    pub say_okay: bool,
    /// A point clicked as a destination this frame.
    pub right_click: Option<(i32, i32)>,
}

/// The phrase chosen this frame; of several keys, the last one checked wins.
pub open spec fn chosen_phrase(i: InputState) -> Option<Phrase> {
    if i.say_okay {
        Some(Phrase::Okay)
    } else if i.say_come_over {
        Some(Phrase::ComeOver)
    } else if i.say_hello {
        Some(Phrase::Hello)
    } else {
        None
    }
}

/// Direction along one axis: -1, 0 or 1.
pub open spec fn axis(neg: bool, pos: bool) -> int {
    (if pos { 1int } else { 0int }) - (if neg { 1int } else { 0int })
}

/// Distance walked along each moving axis: the whole travel along one axis,
/// `travel / sqrt(2)` rounded down along each of two.
pub open spec fn walk_step(travel: int, dx: int, dy: int) -> int {
    let t = if travel > WALK_CAP { WALK_CAP as int } else { travel };
    if dx != 0 && dy != 0 {
        floor_sqrt(t * t / 2)
    } else {
        t
    }
}

/// `v` limited to `[0, hi]` (to `0` alone when `hi` is negative).
pub open spec fn clamp_field(v: int, hi: int) -> int {
    let m = if v > hi { hi } else { v };
    if m < 0 {
        0
    } else {
        m
    }
}

/// The local player after this frame's input, its message aside.
pub open spec fn after_input(p: Player, i: InputState, now: u64, dt_ms: u32) -> Player {
    let p1 = if i.reset_pose {
        Player {
            current_pose_index: 0,
            next_pose_index: 1,
            pose_interp_factor: 0,
            last_pose_update_ms: now,
            ..p
        }
    } else {
        p
    };
    let p2 = if chosen_phrase(i).is_some() {
        Player { message_sent: false, message_set_ms: now, ..p1 }
    } else {
        p1
    };
    let dx = axis(i.left, i.right);
    let dy = axis(i.up, i.down);
    let walking = dx != 0 || dy != 0;
    let s = walk_step(travel_of(p.speed as int, dt_ms as int), dx, dy);
    let nx = clamp_field(p.x + dx * s, FIELD_WIDTH - p.width);
    let ny = clamp_field(p.y + dy * s, FIELD_HEIGHT - p.height);
    let p3 = if walking {
        Player {
            x: nx as i32,
            y: ny as i32,
            position_changed: p.position_changed || nx != p.x || ny != p.y,
            ..p2
        }
    } else {
        p2
    };
    let p4 = match i.right_click {
        Some(t) => Player { target: Some(t), ..p3 },
        None => p3,
    };
    Player { is_moving: walking || i.right_click.is_some() || p4.target.is_some(), ..p4 }
}

/// `p` holding the message `m`.
pub open spec fn with_message(p: Player, m: Option<String>) -> Player {
    Player { message: m, ..p }
}

fn axis_exec(neg: bool, pos: bool) -> (r: i64)
    ensures
        r == axis(neg, pos),
{
    let a: i64 = if pos { 1 } else { 0 };
    let b: i64 = if neg { 1 } else { 0 };
    a - b
}

fn clamp_exec(v: i64, hi: i64) -> (r: i64)
    ensures
        r == clamp_field(v as int, hi as int),
{
    let m = if v > hi { hi } else { v };
    if m < 0 {
        0
    } else {
        m
    }
}

fn walk_step_exec(travel: u64, diagonal: bool) -> (r: u64)
    ensures
        r == walk_step(travel as int, if diagonal { 1int } else { 0int }, if diagonal { 1int } else { 0int }),
        r <= WALK_CAP,
{
    let t: u64 = if travel > WALK_CAP { WALK_CAP } else { travel };
    if diagonal {
        assert(t * t <= WALK_CAP * WALK_CAP) by (nonlinear_arith)
            requires t <= WALK_CAP;
        let half: u128 = (t as u128 * t as u128) / 2;
        let r = isqrt(half);
        assert(r * r <= t * t) by (nonlinear_arith)
            requires r * r <= half, half == t * t / 2;
        if r > t {
            assert(r * r > t * t) by (nonlinear_arith)
                requires r > t, t >= 0;
        }
        r
    } else {
        t
    }
}

impl Game {
    /// Applies one frame of local input at `now_ms`, the frame lasting `dt_ms`.
    pub fn handle_input(&mut self, input: &InputState, now_ms: u64, dt_ms: u32)
        requires
            old(self).wf(),
        ensures
            final(self).wf(),
            final(self).other_players@ == old(self).other_players@,
            final(self).last_send_ms == old(self).last_send_ms,
            final(self).local_player == (Player {
                message: final(self).local_player.message,
                ..after_input(old(self).local_player, *input, now_ms, dt_ms)
            }),
            match chosen_phrase(*input) {
                Some(p) => final(self).local_player.message.is_some()
                    && final(self).local_player.message->Some_0@ == phrase_text(p),
                None => final(self).local_player.message == old(self).local_player.message,
            },
    {
        if input.reset_pose {
            self.local_player.current_pose_index = 0;
            self.local_player.next_pose_index = 1;
            self.local_player.pose_interp_factor = 0;
            self.local_player.last_pose_update_ms = now_ms;
        }
        let dx = axis_exec(input.left, input.right);
        let dy = axis_exec(input.up, input.down);
        let phrase = if input.say_okay {
            Some(Phrase::Okay)
        } else if input.say_come_over {
            Some(Phrase::ComeOver)
        } else if input.say_hello {
            Some(Phrase::Hello)
        } else {
            None
        };
        if let Some(p) = phrase {
            self.local_player.set_message(p.text(), now_ms);
        }
        let walking = dx != 0 || dy != 0;
        if walking {
            let s = walk_step_exec(travel(self.local_player.speed, dt_ms), dx != 0 && dy != 0);
            let ghost gs = walk_step(
                travel_of(self.local_player.speed as int, dt_ms as int),
                dx as int,
                dy as int,
            );
            assert(s == gs);
            let step: i64 = s as i64;
            let nx: i64 = if dx > 0 {
                self.local_player.x as i64 + step
            } else if dx < 0 {
                self.local_player.x as i64 - step
            } else {
                self.local_player.x as i64
            };
            let ny: i64 = if dy > 0 {
                self.local_player.y as i64 + step
            } else if dy < 0 {
                self.local_player.y as i64 - step
            } else {
                self.local_player.y as i64
            };
            assert(nx == self.local_player.x + dx * s) by (nonlinear_arith)
                requires
                    dx == -1 || dx == 0 || dx == 1,
                    dx > 0 ==> nx == self.local_player.x + s,
                    dx < 0 ==> nx == self.local_player.x - s,
                    dx == 0 ==> nx == self.local_player.x;
            assert(ny == self.local_player.y + dy * s) by (nonlinear_arith)
                requires
                    dy == -1 || dy == 0 || dy == 1,
                    dy > 0 ==> ny == self.local_player.y + s,
                    dy < 0 ==> ny == self.local_player.y - s,
                    dy == 0 ==> ny == self.local_player.y;
            let cx = clamp_exec(nx, FIELD_WIDTH as i64 - self.local_player.width as i64) as i32;
            let cy = clamp_exec(ny, FIELD_HEIGHT as i64 - self.local_player.height as i64) as i32;
            if cx != self.local_player.x || cy != self.local_player.y {
                self.local_player.position_changed = true;
            }
            self.local_player.x = cx;
            self.local_player.y = cy;
        }
        if let Some(t) = input.right_click {
            self.local_player.target = Some(t);
        }
        self.local_player.is_moving = walking || input.right_click.is_some()
            || self.local_player.target.is_some();
    }
}

impl Game {
    /// Advances every remote player by one tick.
    pub fn update_others(&mut self, now_ms: u64, dt_ms: u32, fps: u32)
        requires
            old(self).wf(),
        ensures
            final(self).wf(),
            final(self).local_player == old(self).local_player,
            final(self).last_send_ms == old(self).last_send_ms,
            final(self).other_players@.len() == old(self).other_players@.len(),
            forall|k: int|
                0 <= k < old(self).other_players@.len() ==> #[trigger] final(self).other_players@[k]
                    == advanced(old(self).other_players@[k], now_ms, dt_ms, fps),
    {
        let ghost before = self.other_players@;
        let mut i: usize = 0;
        while i < self.other_players.len()
            invariant
                self.local_player == old(self).local_player,
                self.last_send_ms == old(self).last_send_ms,
                before == old(self).other_players@,
                old(self).wf(),
                i <= self.other_players@.len(),
                self.other_players@.len() == before.len(),
                forall|k: int| 0 <= k < i ==> #[trigger] self.other_players@[k] == advanced(before[k], now_ms, dt_ms, fps),
                forall|k: int| i <= k < before.len() ==> #[trigger] self.other_players@[k] == before[k],
                forall|k: int| 0 <= k < before.len() ==> #[trigger] self.other_players@[k].wf(),
            decreases before.len() - i,
        {
            self.other_players[i].update(now_ms, dt_ms, fps);
            i += 1;
        }
        proof {
            let s = self.other_players@;
            assert forall|a: int, b: int| 0 <= a < s.len() && 0 <= b < s.len() && a != b
                implies #[trigger] s[a].id != #[trigger] s[b].id by {
                assert(before[a].id != before[b].id);
            }
        }
    }

    /// One tick of the world: local input, then every player advances.
    pub fn update(&mut self, input: &InputState, now_ms: u64, dt_ms: u32, fps: u32)
        requires
            old(self).wf(),
        ensures
            final(self).wf(),
            final(self).last_send_ms == old(self).last_send_ms,
            final(self).other_players@.len() == old(self).other_players@.len(),
            forall|k: int|
                0 <= k < old(self).other_players@.len() ==> #[trigger] final(self).other_players@[k]
                    == advanced(old(self).other_players@[k], now_ms, dt_ms, fps),
            exists|m: Option<String>|
                final(self).local_player == advanced(
                    #[trigger] with_message(after_input(old(self).local_player, *input, now_ms, dt_ms), m),
                    now_ms,
                    dt_ms,
                    fps,
                ) && match chosen_phrase(*input) {
                    Some(p) => m.is_some() && m->Some_0@ == phrase_text(p),
                    None => m == old(self).local_player.message,
                },
    {
        self.handle_input(input, now_ms, dt_ms);
        let ghost m = self.local_player.message;
        assert(self.local_player == with_message(after_input(old(self).local_player, *input, now_ms, dt_ms), m));
        self.local_player.update(now_ms, dt_ms, fps);
        self.update_others(now_ms, dt_ms, fps);
    }
}

} // verus!
