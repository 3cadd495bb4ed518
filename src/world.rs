//! The world: the local player, the remote players, and the applier of
//! inbound network events.

use vstd::prelude::*;
use crate::player::{remote_at, Player};
use crate::protocol::{ClientMessage, DecodeError};

verus! {

/// The world as a mathematical value.
pub struct GameView {
    pub local_player: Player,
    pub other_players: Seq<Player>,
    pub last_send_ms: u64,
}

/// Some remote player carries `id`.
pub open spec fn has_id(s: Seq<Player>, id: usize) -> bool {
    exists|i: int| 0 <= i < s.len() && #[trigger] s[i].id == id
}

/// `i` is the first position of `s` whose player carries `id`.
pub open spec fn is_first_with_id(s: Seq<Player>, id: usize, i: int) -> bool {
    &&& 0 <= i < s.len()
    &&& s[i].id == id
    &&& forall|j: int| 0 <= j < i ==> #[trigger] s[j].id != id
}

/// The position of the remote player that carries `id`.
pub open spec fn index_of(s: Seq<Player>, id: usize) -> int {
    choose|i: int| is_first_with_id(s, id, i)
}

/// No two remote players share an id.
pub open spec fn ids_unique(s: Seq<Player>) -> bool {
    forall|i: int, j: int| 0 <= i < s.len() && 0 <= j < s.len() && i != j ==> #[trigger] s[i].id != #[trigger] s[j].id
}

/// The effect of one inbound message on the world.
pub open spec fn applied(g: GameView, msg: ClientMessage, now: u64) -> GameView {
    let others = g.other_players;
    match msg {
        ClientMessage::AssignPlayerId { id } => GameView {
            local_player: Player { id, ..g.local_player },
            ..g
        },
        ClientMessage::PlayerPosition { id, x, y } => {
            if id == g.local_player.id {
                g
            } else if has_id(others, id) {
                let i = index_of(others, id);
                GameView {
                    other_players: others.update(i, Player { target: Some((x, y)), ..others[i] }),
                    ..g
                }
            } else {
                GameView { other_players: others.push(remote_at(id, x, y, now)), ..g }
            }
        },
        ClientMessage::UpdateMessage { id, message } => {
            if id != g.local_player.id && has_id(others, id) {
                let i = index_of(others, id);
                GameView {
                    other_players: others.update(
                        i,
                        Player { message: Some(message), message_set_ms: now, ..others[i] },
                    ),
                    ..g
                }
            } else {
                g
            }
        },
        ClientMessage::OtherPlayerDisconnected { id } => {
            if has_id(others, id) {
                GameView { other_players: others.remove(index_of(others, id)), ..g }
            } else {
                g
            }
        },
    }
}

pub struct Game {
    pub local_player: Player,
    pub other_players: Vec<Player>,
    /// When the local position was last transmitted.
    pub last_send_ms: u64,
}

impl View for Game {
    type V = GameView;

    open spec fn view(&self) -> GameView {
        GameView {
            local_player: self.local_player,
            other_players: self.other_players@,
            last_send_ms: self.last_send_ms,
        }
    }
}

impl GameView {
    /// Every player is well formed and remote ids are unique.
    pub open spec fn wf(&self) -> bool {
        &&& self.local_player.wf()
        &&& forall|i: int| 0 <= i < self.other_players.len() ==> #[trigger] self.other_players[i].wf()
        &&& ids_unique(self.other_players)
    }
}

impl Game {
    pub open spec fn wf(&self) -> bool {
        self@.wf()
    }

    /// A world holding only the local player, unassigned, at the field's centre.
    pub fn new(now_ms: u64) -> (r: Game)
        ensures
            r.wf(),
            r.local_player == Player::new_local_spec(400_000, 300_000, 30_000, 30_000, now_ms),
            r.other_players@.len() == 0,
            r.last_send_ms == now_ms,
    {
        Game { local_player: Player::new_local(400_000, 300_000, 30_000, 30_000, now_ms), other_players: Vec::new(), last_send_ms: now_ms }
    }

    /// Position of the remote player that carries `id`, if any.
    pub fn find_player(&self, id: usize) -> (r: Option<usize>)
        ensures
            match r {
                Some(i) => is_first_with_id(self.other_players@, id, i as int)
                    && i == index_of(self.other_players@, id),
                None => !has_id(self.other_players@, id),
            },
    {
        let mut i: usize = 0;
        while i < self.other_players.len()
            invariant
                i <= self.other_players@.len(),
                forall|j: int| 0 <= j < i ==> #[trigger] self.other_players@[j].id != id,
            decreases self.other_players@.len() - i,
        {
            if self.other_players[i].id == id {
                proof {
                    lemma_first_unique(self.other_players@, id, i as int);
                }
                return Some(i);
            }
            i += 1;
        }
        None
    }
}

/// The first position carrying an id is `index_of`.
proof fn lemma_first_unique(s: Seq<Player>, id: usize, i: int)
    requires
        is_first_with_id(s, id, i),
    ensures
        index_of(s, id) == i,
{
    let k = index_of(s, id);
    assert(is_first_with_id(s, id, k));
    if k < i {
        assert(s[k].id != id);
    }
    if i < k {
        assert(s[i].id != id);
    }
}

impl Game {
    /// Applies one inbound message at time `now_ms`: assigns the local
    /// identity, retargets or creates a remote player, replaces a remote
    /// player's message, or removes a remote player.
    pub fn apply_message(&mut self, msg: ClientMessage, now_ms: u64)
        requires
            old(self).wf(),
        ensures
            final(self).wf(),
            final(self)@ == applied(old(self)@, msg, now_ms),
    {
        match msg {
            ClientMessage::AssignPlayerId { id } => {
                self.local_player.id = id;
            },
            ClientMessage::PlayerPosition { id, x, y } => {
                if id != self.local_player.id {
                    match self.find_player(id) {
                        Some(i) => {
                            self.other_players[i].target = Some((x, y));
                            proof {
                                assert forall|a: int, b: int|
                                    0 <= a < self.other_players@.len() && 0 <= b < self.other_players@.len()
                                    && a != b implies #[trigger] self.other_players@[a].id
                                    != #[trigger] self.other_players@[b].id by {
                                    assert(old(self).other_players@[a].id != old(self).other_players@[b].id);
                                }
                                assert forall|a: int| 0 <= a < self.other_players@.len() implies #[trigger] self.other_players@[a].wf() by {
                                    assert(old(self).other_players@[a].wf());
                                }
                                assert(self.other_players@ =~= old(self).other_players@.update(
                                    i as int,
                                    Player { target: Some((x, y)), ..old(self).other_players@[i as int] },
                                ));
                            }
                        },
                        None => {
                            let p = Player::new_other(id, x, y, now_ms);
                            self.other_players.push(p);
                            proof {
                                let s = self.other_players@;
                                assert forall|a: int, b: int|
                                    0 <= a < s.len() && 0 <= b < s.len() && a != b implies #[trigger] s[a].id
                                    != #[trigger] s[b].id by {
                                    if a < s.len() - 1 && b < s.len() - 1 {
                                        assert(old(self).other_players@[a].id != old(self).other_players@[b].id);
                                    } else if a < s.len() - 1 {
                                        assert(old(self).other_players@[a].id != id);
                                    } else {
                                        assert(old(self).other_players@[b].id != id);
                                    }
                                }
                                assert forall|a: int| 0 <= a < s.len() implies #[trigger] s[a].wf() by {
                                    if a < s.len() - 1 {
                                        assert(old(self).other_players@[a].wf());
                                    }
                                }
                            }
                        },
                    }
                }
            },
            ClientMessage::UpdateMessage { id, message } => {
                if id != self.local_player.id {
                    match self.find_player(id) {
                        Some(i) => {
                            self.other_players[i].message = Some(message);
                            self.other_players[i].message_set_ms = now_ms;
                            proof {
                                assert forall|a: int| 0 <= a < self.other_players@.len() implies #[trigger] self.other_players@[a].wf() by {
                                    assert(old(self).other_players@[a].wf());
                                }
                                assert(self.other_players@ =~= old(self).other_players@.update(
                                    i as int,
                                    Player { message: self.other_players@[i as int].message, message_set_ms: now_ms, ..old(self).other_players@[i as int] },
                                ));
                                assert forall|a: int, b: int|
                                    0 <= a < self.other_players@.len() && 0 <= b < self.other_players@.len()
                                    && a != b implies #[trigger] self.other_players@[a].id
                                    != #[trigger] self.other_players@[b].id by {
                                    assert(old(self).other_players@[a].id != old(self).other_players@[b].id);
                                }
                            }
                        },
                        None => {},
                    }
                }
            },
            ClientMessage::OtherPlayerDisconnected { id } => {
                match self.find_player(id) {
                    Some(i) => {
                        self.other_players.remove(i);
                        proof {
                            let s = self.other_players@;
                            let o = old(self).other_players@;
                            assert forall|a: int, b: int|
                                0 <= a < s.len() && 0 <= b < s.len() && a != b implies #[trigger] s[a].id
                                != #[trigger] s[b].id by {
                                let oa = if a < i { a } else { a + 1 };
                                let ob = if b < i { b } else { b + 1 };
                                assert(s[a] == o[oa]);
                                assert(s[b] == o[ob]);
                                assert(o[oa].id != o[ob].id);
                            }
                            assert forall|a: int| 0 <= a < s.len() implies #[trigger] s[a].wf() by {
                                let oa = if a < i { a } else { a + 1 };
                                assert(s[a] == o[oa]);
                            }
                        }
                    },
                    None => {},
                }
            },
        }
    }

    /// Applies one decoded inbound payload; a payload that failed to decode
    /// is dropped and leaves the world unchanged. Returns whether a message
    /// was applied.
    pub fn apply_inbound(&mut self, decoded: Result<ClientMessage, DecodeError>, now_ms: u64) -> (r: bool)
        requires
            old(self).wf(),
        ensures
            final(self).wf(),
            r == decoded.is_ok(),
            match decoded {
                Ok(msg) => final(self)@ == applied(old(self)@, msg, now_ms),
                Err(_) => final(self)@ == old(self)@,
            },
    {
        match decoded {
            Ok(msg) => {
                self.apply_message(msg, now_ms);
                true
            },
            Err(_) => false,
        }
    }
}

/// Applying the same position report twice in a row leaves the world as
/// applying it once does.
pub proof fn lemma_position_idempotent(g: GameView, id: usize, x: i32, y: i32, t1: u64, t2: u64)
    requires
        g.wf(),
    ensures
        ({
            let m = ClientMessage::PlayerPosition { id, x, y };
            applied(applied(g, m, t1), m, t2) == applied(g, m, t1)
        }),
{
    let m = ClientMessage::PlayerPosition { id, x, y };
    let once = applied(g, m, t1);
    let s = g.other_players;
    if id != g.local_player.id {
        if has_id(s, id) {
            let i = index_of(s, id);
            let w = choose|w: int| 0 <= w < s.len() && #[trigger] s[w].id == id;
            let f = choose|f: int| 0 <= f <= w && s[f].id == id && forall|j: int| 0 <= j < f ==> #[trigger] s[j].id != id;
            assert(is_first_with_id(s, id, f)) by {
                lemma_first_exists(s, id, w);
            }
            lemma_first_unique(s, id, f);
            let s1 = once.other_players;
            assert(is_first_with_id(s1, id, i));
            lemma_first_unique(s1, id, i);
            assert(s1[i].id == id);
            assert(s1.update(i, Player { target: Some((x, y)), ..s1[i] }) =~= s1);
        } else {
            let s1 = once.other_players;
            let k = s.len() as int;
            assert(s1[k].id == id);
            assert(has_id(s1, id)) by {
                assert(s1[k].id == id);
            }
            assert(is_first_with_id(s1, id, k));
            lemma_first_unique(s1, id, k);
            assert(s1.update(k, Player { target: Some((x, y)), ..s1[k] }) =~= s1);
        }
    }
}

/// Where some position carries `id`, a first such position exists at or before it.
proof fn lemma_first_exists(s: Seq<Player>, id: usize, w: int)
    requires
        0 <= w < s.len(),
        s[w].id == id,
    ensures
        exists|f: int| 0 <= f <= w && s[f].id == id && forall|j: int| 0 <= j < f ==> #[trigger] s[j].id != id,
    decreases w,
{
    if exists|j: int| 0 <= j < w && #[trigger] s[j].id == id {
        let j = choose|j: int| 0 <= j < w && #[trigger] s[j].id == id;
        lemma_first_exists(s, id, j);
    } else {
        assert(forall|j: int| 0 <= j < w ==> #[trigger] s[j].id != id);
    }
}

} // verus!
