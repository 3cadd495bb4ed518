//! The send scheduler: decides each tick which local state to transmit.

use vstd::prelude::*;
use crate::player::{advanced, elapsed, elapsed_ms, Player};
use crate::input::{after_input, chosen_phrase, with_message, InputState};
use crate::protocol::ClientMessage;
use crate::world::{Game, GameView};

verus! {

/// Shortest gap between change-triggered position sends.
pub const SEND_INTERVAL_MS: u64 = 16;

/// Longest gap between position sends: the heartbeat period.
pub const HEARTBEAT_MS: u64 = 1000;

/// Shortest gap between message sends.
pub const MESSAGE_SEND_INTERVAL_MS: u64 = 1000;

/// The local position is due: the player has an identity and either a
/// heartbeat period has passed since the last send, or the position changed
/// and the short send interval has passed.
pub open spec fn position_due(g: GameView, now: u64) -> bool {
    let since = elapsed(now, g.last_send_ms);
    &&& g.local_player.id != 0
    &&& (since >= HEARTBEAT_MS || (since >= SEND_INTERVAL_MS && g.local_player.position_changed))
}

/// The local message is due: the player has an identity, holds a message not
/// yet transmitted, and a message send interval has passed since the last one.
pub open spec fn chat_due(g: GameView, now: u64) -> bool {
    &&& g.local_player.id != 0
    &&& elapsed(now, g.local_player.last_message_send_ms) >= MESSAGE_SEND_INTERVAL_MS
    &&& g.local_player.message.is_some()
    &&& !g.local_player.message_sent
}

/// The world after the scheduler ran at `now`.
pub open spec fn synced(g: GameView, now: u64) -> GameView {
    let g1 = if position_due(g, now) {
        GameView {
            last_send_ms: now,
            local_player: Player { position_changed: false, ..g.local_player },
            ..g
        }
    } else {
        g
    };
    if chat_due(g, now) {
        GameView {
            local_player: Player { message_sent: true, last_message_send_ms: now, ..g1.local_player },
            ..g1
        }
    } else {
        g1
    }
}

/// What the scheduler sends at `now`.
pub open spec fn outbox_of(g: GameView, now: u64) -> (Option<ClientMessage>, Option<ClientMessage>) {
    let p = g.local_player;
    (
        if position_due(g, now) {
            Some(ClientMessage::PlayerPosition { id: p.id, x: p.x, y: p.y })
        } else {
            None
        },
        if chat_due(g, now) {
            Some(ClientMessage::UpdateMessage { id: p.id, message: p.message->Some_0 })
        } else {
            None
        },
    )
}

/// The messages due for transmission in one tick: at most one position
/// report and at most one chat message.
#[derive(Clone, Debug, PartialEq, Eq)]
pub struct Outbox {
    pub position: Option<ClientMessage>,
    pub chat: Option<ClientMessage>,
}

impl Game {
    /// Runs the send scheduler at `now_ms`: returns the messages due and
    /// records them as sent.
    pub fn sync(&mut self, now_ms: u64) -> (r: Outbox)
        requires
            old(self).wf(),
        ensures
            final(self).wf(),
            final(self)@ == synced(old(self)@, now_ms),
            (r.position, r.chat) == outbox_of(old(self)@, now_ms),
    {
        let ghost g = self@;
        let since: u64 = elapsed_ms(now_ms, self.last_send_ms);
        let position = if self.local_player.id != 0 && (since >= HEARTBEAT_MS || (since
            >= SEND_INTERVAL_MS && self.local_player.position_changed)) {
            self.last_send_ms = now_ms;
            self.local_player.position_changed = false;
            Some(
                ClientMessage::PlayerPosition {
                    id: self.local_player.id,
                    x: self.local_player.x,
                    y: self.local_player.y,
                },
            )
        } else {
            None
        };
        let chat = if self.local_player.id != 0 && elapsed_ms(
            now_ms,
            self.local_player.last_message_send_ms,
        ) >= MESSAGE_SEND_INTERVAL_MS && !self.local_player.message_sent {
            match &self.local_player.message {
                Some(text) => {
                    let out = ClientMessage::UpdateMessage {
                        id: self.local_player.id,
                        message: text.clone(),
                    };
                    self.local_player.message_sent = true;
                    self.local_player.last_message_send_ms = now_ms;
                    Some(out)
                },
                None => None,
            }
        } else {
            None
        };
        Outbox { position, chat }
    }
}

/// Heartbeat: while the player has an identity and its position is
/// unchanged, a position report is due exactly when a full heartbeat period
/// has passed since the last one; after a report at `t1`, the next comes
/// exactly when a further period has passed, once per period.
pub proof fn lemma_heartbeat(g: GameView, t1: u64, t2: u64)
    requires
        g.local_player.id != 0,
        !g.local_player.position_changed,
        t1 <= t2,
    ensures
        position_due(g, t1) <==> elapsed(t1, g.last_send_ms) >= HEARTBEAT_MS,
        position_due(g, t1) ==> synced(g, t1).last_send_ms == t1,
        position_due(g, t1) ==> (position_due(synced(g, t1), t2) <==> t2 - t1 >= HEARTBEAT_MS),
        !position_due(g, t1) ==> synced(g, t1).last_send_ms == g.last_send_ms,
{
}

/// A message is transmitted at most once: once sent, it is not due again at
/// any later time, through any world tick whose input sets no new message
/// (`Game::update` holds the local player to `advanced` of `after_input`),
/// until a new message is set.
pub proof fn lemma_message_single_send(
    g: GameView,
    t1: u64,
    t2: u64,
    input: InputState,
    m: Option<String>,
    dt_ms: u32,
    fps: u32,
)
    requires
        chat_due(g, t1),
        chosen_phrase(input).is_none(),
    ensures
        outbox_of(g, t1).1.is_some(),
        synced(g, t1).local_player.message_sent,
        !chat_due(synced(g, t1), t2),
        ({
            let s = synced(g, t1);
            let ticked = advanced(with_message(after_input(s.local_player, input, t2, dt_ms), m), t2, dt_ms, fps);
            &&& ticked.message_sent
            &&& !chat_due(GameView { local_player: ticked, ..s }, t2)
        }),
{
}

} // verus!
