//! Back-to-front drawing order of the players.

use vstd::prelude::*;
use crate::world::{Game, GameView};

verus! {

/// Vertical position of drawing slot `k`: slot `n` (the number of remote
/// players) is the local player, slot `k < n` the remote player at `k`.
pub open spec fn slot_y(g: GameView, k: int) -> int {
    if k == g.other_players.len() {
        g.local_player.y as int
    } else {
        g.other_players[k].y as int
    }
}

/// Slot `a` is drawn before slot `b`: it is higher on the field, or level
/// with it and earlier in slot order.
pub open spec fn drawn_before(g: GameView, a: int, b: int) -> bool {
    slot_y(g, a) < slot_y(g, b) || (slot_y(g, a) == slot_y(g, b) && a < b)
}

/// `r` lists every slot once, back to front.
pub open spec fn is_draw_order(g: GameView, r: Seq<usize>) -> bool {
    &&& r.len() == g.other_players.len() + 1
    &&& forall|i: int| 0 <= i < r.len() ==> #[trigger] r[i] <= g.other_players.len()
    &&& forall|i: int, j: int| 0 <= i < j < r.len() ==> drawn_before(g, #[trigger] r[i] as int, #[trigger] r[j] as int)
    &&& forall|k: int| 0 <= k <= g.other_players.len() ==> #[trigger] r.contains(k as usize)
}

impl Game {
    fn slot_y_exec(&self, k: usize) -> (r: i32)
        requires
            k <= self.other_players@.len(),
        ensures
            r == slot_y(self@, k as int),
    {
        if k == self.other_players.len() {
            self.local_player.y
        } else {
            self.other_players[k].y
        }
    }

    /// The order in which to draw the players so that those lower on the
    /// field cover those above them: slots sorted by vertical position, level
    /// slots in slot order, the local player being the last slot.
    pub fn draw_order(&self) -> (r: Vec<usize>)
        requires
            self.other_players@.len() < usize::MAX,
        ensures
            is_draw_order(self@, r@),
    {
        let n = self.other_players.len();
        let ghost g = self@;
        let mut out: Vec<usize> = Vec::new();
        let mut k: usize = 0;
        while k <= n
            invariant
                n == g.other_players.len(),
                n < usize::MAX,
                g == self@,
                k <= n + 1,
                out@.len() == k,
                forall|i: int| 0 <= i < out@.len() ==> #[trigger] out@[i] < k,
                forall|i: int, j: int| 0 <= i < j < out@.len() ==> drawn_before(g, #[trigger] out@[i] as int, #[trigger] out@[j] as int),
                forall|m: int| 0 <= m < k ==> #[trigger] out@.contains(m as usize),
            decreases n + 1 - k,
        {
            let yk = self.slot_y_exec(k);
            let mut p: usize = 0;
            while p < out.len() && self.slot_y_exec(out[p]) <= yk
                invariant
                    n == g.other_players.len(),
                    g == self@,
                    k <= n,
                    yk == slot_y(g, k as int),
                    out@.len() == k,
                    forall|i: int| 0 <= i < out@.len() ==> #[trigger] out@[i] < k,
                    p <= out@.len(),
                    forall|i: int| 0 <= i < p ==> drawn_before(g, #[trigger] out@[i] as int, k as int),
                decreases out@.len() - p,
            {
                p += 1;
            }
            let ghost old_out = out@;
            out.insert(p, k);
            proof {
                let s = out@;
                assert(s == old_out.insert(p as int, k));
                assert forall|i: int| 0 <= i < s.len() implies #[trigger] s[i] < k + 1 by {
                    if i < p {
                        assert(s[i] == old_out[i]);
                    } else if i > p {
                        assert(s[i] == old_out[i - 1]);
                    }
                }
                if p < old_out.len() {
                    assert(drawn_before(g, k as int, old_out[p as int] as int));
                }
                assert forall|i: int, j: int| 0 <= i < j < s.len() implies drawn_before(g, #[trigger] s[i] as int, #[trigger] s[j] as int) by {
                    if j < p {
                        assert(s[i] == old_out[i] && s[j] == old_out[j]);
                    } else if j == p {
                        assert(s[i] == old_out[i]);
                    } else if i < p {
                        assert(s[i] == old_out[i] && s[j] == old_out[j - 1]);
                    } else if i == p {
                        assert(s[j] == old_out[j - 1]);
                        if j - 1 > p {
                            assert(drawn_before(g, old_out[p as int] as int, old_out[j - 1] as int));
                        }
                    } else {
                        assert(s[i] == old_out[i - 1] && s[j] == old_out[j - 1]);
                    }
                }
                assert forall|m: int| 0 <= m < k + 1 implies #[trigger] s.contains(m as usize) by {
                    if m == k {
                        assert(s[p as int] == k);
                    } else {
                        assert(old_out.contains(m as usize));
                        let idx = choose|idx: int| 0 <= idx < old_out.len() && old_out[idx] == m as usize;
                        if idx < p {
                            assert(s[idx] == m as usize);
                        } else {
                            assert(s[idx + 1] == m as usize);
                        }
                    }
                }
            }
            k += 1;
        }
        out
    }
}

} // verus!
