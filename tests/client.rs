use multiplayer_client::input::{InputState, Phrase, FIELD_WIDTH};
use multiplayer_client::motion::{isqrt, step_toward, travel};
use multiplayer_client::player::Player;
use multiplayer_client::pose::{idle_pose, lerp_pose, run_pose, FACTOR_ONE, POSE_COUNT};
use multiplayer_client::protocol::{ClientMessage, DecodeError};
use multiplayer_client::world::Game;

fn no_input() -> InputState {
    InputState {
        reset_pose: false,
        up: false,
        down: false,
        left: false,
        right: false,
        say_hello: false,
        say_come_over: false,
        say_okay: false,
        right_click: None,
    }
}

#[test]
fn glides_to_target_in_ten_ticks() {
    let mut p = Player::new_other(1, 0, 0, 0);
    p.speed = 100;
    p.target = Some((100_000, 0));
    for tick in 1..=10u64 {
        p.update(tick * 100, 100, 60);
        if tick < 10 {
            assert_eq!((p.x, p.y), (10_000 * tick as i32, 0));
            assert!(p.target.is_some());
        }
    }
    assert_eq!((p.x, p.y), (100_000, 0));
    assert_eq!(p.target, None);
    assert!(!p.is_moving);
}

#[test]
fn converges_diagonally_without_overshoot() {
    let mut p = Player::new_other(1, 3_000, -7_000, 0);
    p.target = Some((-250_000, 411_000));
    let mut last = i64::MAX;
    let mut ticks = 0;
    while p.target.is_some() {
        let (tx, ty) = p.target.unwrap();
        assert!(p.x >= -250_000 && p.x <= 3_000 && p.y >= -7_000 && p.y <= 411_000);
        let d = (tx - p.x).abs() as i64 + (ty - p.y).abs() as i64;
        assert!(d < last);
        last = d;
        ticks += 1;
        p.update(ticks * 16, 16, 60);
        assert!(ticks < 1000);
    }
    assert_eq!((p.x, p.y), (-250_000, 411_000));
    p.update(ticks * 16 + 16, 16, 60);
    assert_eq!((p.x, p.y), (-250_000, 411_000));
}

#[test]
fn slow_ticks_still_reach_target() {
    // 250 units/s for 1 ms covers a quarter of a unit.
    let mut p = Player::new_other(1, 0, 0, 0);
    p.target = Some((1_000, 0));
    for tick in 1..=3u64 {
        p.update(tick, 1, 60);
        assert_eq!((p.x, p.y), (250 * tick as i32, 0));
    }
    p.update(4, 1, 60);
    assert_eq!((p.x, p.y), (1_000, 0));
    assert_eq!(p.target, None);
}

#[test]
fn snaps_when_within_one_tick() {
    // |(4, 1)| = 4.12 units, below 250 units/s * 17 ms = 4.25 units.
    let mut p = Player::new_other(1, 0, 0, 0);
    p.target = Some((4_000, 1_000));
    p.update(17, 17, 60);
    assert_eq!((p.x, p.y), (4_000, 1_000));
    assert_eq!(p.target, None);
    assert!(!p.is_moving);
    assert!(p.position_changed);
}

#[test]
fn step_is_rounded_away_from_zero() {
    // Direction (3, 3) with a travel of one: both axes round to zero, so
    // the step is one along the dominant axis.
    assert_eq!(step_toward(0, 0, 3, 3, 1), (1, 0));
    assert_eq!(step_toward(0, 0, 1, 0, 0), (0, 0));
    assert_eq!(step_toward(0, 0, 3_000, 4_000, 1_000), (600, 800));
    assert_eq!(step_toward(5, 5, 5, 5, 0), (5, 5));
    assert_eq!(step_toward(0, 0, 6, 8, 10), (6, 8));
    assert_eq!(step_toward(0, 0, 30, 40, 10), (6, 8));
    assert_eq!(step_toward(0, 0, -30, -40, 10), (-6, -8));
}

#[test]
fn integer_square_root() {
    assert_eq!(isqrt(0), 0);
    assert_eq!(isqrt(15), 3);
    assert_eq!(isqrt(16), 4);
    assert_eq!(isqrt(2 * (1u128 << 64)), 6_074_000_999);
    assert_eq!(travel(250, 16), 4_000);
    assert_eq!(travel(250, 17), 4_250);
    assert_eq!(travel(100, 100), 10_000);
}

#[test]
fn pose_factor_stays_in_range() {
    let mut p = Player::new_other(2, 0, 0, 0);
    p.target = Some((10_000_000, 0));
    let mut now = 0u64;
    for _ in 0..200 {
        let before = p.pose_interp_factor;
        let next = p.next_pose_index;
        now += 17;
        p.update(now, 17, 60);
        assert!(p.pose_interp_factor <= FACTOR_ONE);
        assert!(p.current_pose_index < POSE_COUNT && p.next_pose_index < POSE_COUNT);
        if p.pose_interp_factor < before {
            assert_eq!(p.pose_interp_factor, 0);
            assert_eq!(p.current_pose_index, next);
        }
    }
}

#[test]
fn blend_grows_by_frame_rate() {
    let mut p = Player::new_other(2, 0, 0, 0);
    p.target = Some((10_000_000, 0));
    p.update(50, 16, 60);
    assert_eq!(p.pose_interp_factor, 166);
    p.update(99, 16, 60);
    assert_eq!(p.pose_interp_factor, 332);
    p.update(100, 16, 60);
    assert_eq!((p.current_pose_index, p.next_pose_index, p.pose_interp_factor), (1, 2, 0));
    p.update(150, 16, 0);
    assert_eq!(p.pose_interp_factor, FACTOR_ONE);
}

#[test]
fn idle_resets_bobbing() {
    let mut p = Player::new_other(3, 0, 0, 0);
    p.target = Some((500_000, 0));
    p.update(10, 16, 60);
    p.update(20, 16, 60);
    assert!(p.is_moving);
    assert_eq!(p.bobbing_time_ms, 32);
    p.target = None;
    p.is_moving = false;
    p.update(30, 16, 60);
    assert_eq!(p.bobbing_time_ms, 0);
}

#[test]
fn lerp_pose_blends_limbs() {
    let a = run_pose(0);
    let b = run_pose(1);
    let half = lerp_pose(&a, &b, 500);
    assert_eq!(half.left_arm, (-17_500, 30_000));
    assert_eq!(half.right_leg, (12_500, 60_000));
    let full = lerp_pose(&a, &b, FACTOR_ONE);
    assert_eq!(full.left_leg, (-5_000, 60_000));
    let idle = idle_pose();
    let mut p = Player::new_local(0, 0, 30, 30, 0);
    p.is_moving = false;
    let drawn = p.get_current_pose();
    assert_eq!(drawn.left_arm, (idle.left_arm.0 as i64 * 1000, idle.left_arm.1 as i64 * 1000));
}

#[test]
fn heartbeat_once_per_second() {
    let mut g = Game::new(0);
    g.apply_message(ClientMessage::AssignPlayerId { id: 7 }, 0);
    let mut sends = Vec::new();
    for now in (0..=3500u64).step_by(10) {
        let out = g.sync(now);
        if out.position.is_some() {
            sends.push(now);
        }
    }
    assert_eq!(sends, vec![1000, 2000, 3000]);
}

#[test]
fn change_sends_after_short_interval() {
    let mut g = Game::new(0);
    g.apply_message(ClientMessage::AssignPlayerId { id: 7 }, 0);
    g.local_player.position_changed = true;
    assert_eq!(g.sync(10).position, None);
    assert_eq!(
        g.sync(16).position,
        Some(ClientMessage::PlayerPosition { id: 7, x: 400_000, y: 300_000 })
    );
    assert!(!g.local_player.position_changed);
    assert_eq!(g.sync(40).position, None);
}

#[test]
fn unassigned_player_sends_nothing() {
    let mut g = Game::new(0);
    g.local_player.position_changed = true;
    g.local_player.set_message("hi".to_string(), 0);
    let out = g.sync(5000);
    assert_eq!(out.position, None);
    assert_eq!(out.chat, None);
}

#[test]
fn message_sent_once_and_expires() {
    let mut g = Game::new(0);
    g.apply_message(ClientMessage::AssignPlayerId { id: 4 }, 0);
    let mut input = no_input();
    input.say_come_over = true;
    g.update(&input, 500, 16, 60);
    assert_eq!(g.local_player.message.as_deref(), Some("Come over here."));
    assert_eq!(g.sync(600).chat, None);
    assert_eq!(
        g.sync(1000).chat,
        Some(ClientMessage::UpdateMessage { id: 4, message: "Come over here.".to_string() })
    );
    let mut chats = 0;
    let mut now = 1000;
    while now < 16_000 {
        now += 100;
        g.update(&no_input(), now, 100, 60);
        if g.sync(now).chat.is_some() {
            chats += 1;
        }
        if now >= 15_500 {
            assert_eq!(g.local_player.message, None);
        }
    }
    assert_eq!(chats, 0);
}

#[test]
fn later_key_wins_for_phrase() {
    let mut g = Game::new(0);
    let mut input = no_input();
    input.say_hello = true;
    input.say_okay = true;
    g.handle_input(&input, 0, 16);
    assert_eq!(g.local_player.message.as_deref(), Some("Okay."));
    assert_eq!(Phrase::Hello.text(), "Hello, world!");
}

#[test]
fn walking_is_normalised_and_clamped() {
    let mut g = Game::new(0);
    let mut input = no_input();
    input.right = true;
    g.handle_input(&input, 0, 17);
    assert_eq!((g.local_player.x, g.local_player.y), (404_250, 300_000));
    assert!(g.local_player.position_changed && g.local_player.is_moving);
    g.handle_input(&input, 0, 83);
    assert_eq!((g.local_player.x, g.local_player.y), (425_000, 300_000));
    input.up = true;
    g.handle_input(&input, 0, 100);
    // 25 units diagonally: 25 / sqrt 2 on each axis, in thousandths.
    assert_eq!((g.local_player.x, g.local_player.y), (442_677, 282_323));
    let mut far = no_input();
    far.right = true;
    g.handle_input(&far, 0, 10_000);
    assert_eq!(g.local_player.x, FIELD_WIDTH - 30_000);
    g.handle_input(&no_input(), 0, 16);
    assert!(!g.local_player.is_moving);
}

#[test]
fn standing_still_on_zero_step_is_not_a_change() {
    let mut g = Game::new(0);
    let mut input = no_input();
    input.left = true;
    g.handle_input(&input, 0, 0);
    assert_eq!((g.local_player.x, g.local_player.y), (400_000, 300_000));
    assert!(!g.local_player.position_changed);
    g.local_player.x = 0;
    g.handle_input(&input, 0, 16);
    assert_eq!(g.local_player.x, 0);
    assert!(!g.local_player.position_changed);
}

#[test]
fn right_click_sets_target() {
    let mut g = Game::new(0);
    let mut input = no_input();
    input.right_click = Some((10_000, 20_000));
    g.handle_input(&input, 0, 16);
    assert_eq!(g.local_player.target, Some((10_000, 20_000)));
    assert!(g.local_player.is_moving);
}

#[test]
fn reset_key_restarts_cycle() {
    let mut g = Game::new(0);
    g.local_player.current_pose_index = 3;
    g.local_player.next_pose_index = 4;
    g.local_player.pose_interp_factor = 700;
    let mut input = no_input();
    input.reset_pose = true;
    g.handle_input(&input, 1234, 16);
    let p = &g.local_player;
    assert_eq!((p.current_pose_index, p.next_pose_index, p.pose_interp_factor, p.last_pose_update_ms), (0, 1, 0, 1234));
}

#[test]
fn position_report_creates_then_disconnect_removes() {
    let mut g = Game::new(0);
    g.apply_message(ClientMessage::PlayerPosition { id: 5, x: 10_000, y: 10_000 }, 0);
    assert_eq!(g.other_players.len(), 1);
    assert_eq!((g.other_players[0].id, g.other_players[0].x, g.other_players[0].y), (5, 10_000, 10_000));
    assert_eq!(g.other_players[0].target, Some((10_000, 10_000)));
    g.apply_message(ClientMessage::OtherPlayerDisconnected { id: 5 }, 0);
    assert!(g.other_players.is_empty());
    g.apply_message(ClientMessage::OtherPlayerDisconnected { id: 5 }, 0);
    assert!(g.other_players.is_empty());
}

#[test]
fn repeated_position_report_is_idempotent() {
    let mut g = Game::new(0);
    g.apply_message(ClientMessage::PlayerPosition { id: 2, x: 1, y: 1 }, 0);
    g.apply_message(ClientMessage::PlayerPosition { id: 2, x: 50, y: 60 }, 10);
    let once: Vec<_> = g.other_players.iter().map(|p| (p.id, p.x, p.y, p.target)).collect();
    g.apply_message(ClientMessage::PlayerPosition { id: 2, x: 50, y: 60 }, 20);
    let twice: Vec<_> = g.other_players.iter().map(|p| (p.id, p.x, p.y, p.target)).collect();
    assert_eq!(once, twice);
    assert_eq!(once, vec![(2, 1, 1, Some((50, 60)))]);
}

#[test]
fn own_reports_and_messages_are_ignored() {
    let mut g = Game::new(0);
    g.apply_message(ClientMessage::AssignPlayerId { id: 9 }, 0);
    assert_eq!(g.local_player.id, 9);
    g.apply_message(ClientMessage::PlayerPosition { id: 9, x: 1, y: 1 }, 0);
    assert!(g.other_players.is_empty());
    g.apply_message(ClientMessage::PlayerPosition { id: 3, x: 1, y: 1 }, 0);
    g.apply_message(ClientMessage::UpdateMessage { id: 3, message: "yo".to_string() }, 77);
    assert_eq!(g.other_players[0].message.as_deref(), Some("yo"));
    assert_eq!(g.other_players[0].message_set_ms, 77);
    g.apply_message(ClientMessage::UpdateMessage { id: 8, message: "nobody".to_string() }, 77);
    assert_eq!(g.other_players.len(), 1);
}

#[test]
fn undecodable_payload_leaves_world_unchanged() {
    let mut g = Game::new(0);
    g.apply_message(ClientMessage::PlayerPosition { id: 5, x: 10, y: 10 }, 0);
    let before: Vec<_> = g.other_players.iter().map(|p| (p.id, p.x, p.y, p.target)).collect();
    let applied = g.apply_inbound(Err(DecodeError { reason: "truncated".to_string() }), 5);
    assert!(!applied);
    let after: Vec<_> = g.other_players.iter().map(|p| (p.id, p.x, p.y, p.target)).collect();
    assert_eq!(before, after);
    assert!(g.apply_inbound(Ok(ClientMessage::OtherPlayerDisconnected { id: 5 }), 5));
    assert!(g.other_players.is_empty());
}

#[test]
fn remote_players_glide_each_tick() {
    let mut g = Game::new(0);
    g.apply_message(ClientMessage::PlayerPosition { id: 5, x: 0, y: 0 }, 0);
    g.apply_message(ClientMessage::PlayerPosition { id: 5, x: 100_000, y: 0 }, 0);
    g.update(&no_input(), 16, 16, 60);
    assert_eq!((g.other_players[0].x, g.other_players[0].y), (4_000, 0));
}

#[test]
fn draw_order_is_back_to_front() {
    let mut g = Game::new(0);
    g.apply_message(ClientMessage::PlayerPosition { id: 1, x: 0, y: 500_000 }, 0);
    g.apply_message(ClientMessage::PlayerPosition { id: 2, x: 0, y: 100_000 }, 0);
    g.apply_message(ClientMessage::PlayerPosition { id: 3, x: 0, y: 300_000 }, 0);
    // Local player at y = 300_000, slot 3: drawn after the level remote.
    assert_eq!(g.draw_order(), vec![1, 2, 3, 0]);
    assert_eq!(Game::new(0).draw_order(), vec![0]);
}
