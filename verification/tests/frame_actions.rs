use game_core::game_state::{
    next_frame, system_exit_action, system_shake_action, Changes, Controls, GameState,
    FRAME_TIME_MS, SHAKE_SEED,
};

fn state(is_running: bool, home: bool, one: bool) -> GameState {
    GameState {
        is_running,
        changes: Changes {
            controls: Controls { home_button_down: home, one_button_down: one },
            delta_time_ms: 100,
        },
    }
}

#[test]
fn a_running_game_runs_on_while_home_is_down() {
    let mut s = state(true, true, false);
    system_exit_action(&mut s);
    assert!(s.is_running);
}

#[test]
fn a_running_game_stops_when_home_is_up() {
    let mut s = state(true, false, true);
    system_exit_action(&mut s);
    assert!(!s.is_running);
    assert_eq!(s.changes, state(true, false, true).changes);
}

#[test]
fn a_stopped_game_stays_stopped() {
    let mut s = state(false, true, false);
    system_exit_action(&mut s);
    assert!(!s.is_running);
    let mut s = state(false, false, false);
    system_exit_action(&mut s);
    assert!(!s.is_running);
}

#[test]
fn a_shake_draws_for_every_velocity() {
    assert_eq!(system_shake_action(&state(true, false, true), 5).len(), 5);
    assert_eq!(system_shake_action(&state(true, false, true), 0).len(), 0);
    assert_eq!(system_shake_action(&state(false, false, true), 3).len(), 3);
}

#[test]
fn nothing_is_drawn_while_the_one_button_is_up() {
    assert!(system_shake_action(&state(true, false, false), 5).is_empty());
    assert!(system_shake_action(&state(true, true, false), 5).is_empty());
}

#[test]
fn every_shake_starts_from_the_same_seed() {
    assert_eq!(SHAKE_SEED, 10);
    let first = system_shake_action(&state(true, false, true), 4);
    let second = system_shake_action(&state(true, false, true), 4);
    assert_eq!(first, second);
    assert_ne!(first[0], first[1]);
}

#[test]
fn the_home_button_ends_the_loop() {
    assert_eq!(next_frame(true, false), None);
    assert_eq!(next_frame(true, true), None);
}

#[test]
fn a_frame_carries_the_buttons_and_the_frame_time() {
    assert_eq!(FRAME_TIME_MS, 100);
    assert_eq!(
        next_frame(false, true),
        Some(Changes {
            controls: Controls { home_button_down: false, one_button_down: true },
            delta_time_ms: 100,
        })
    );
    assert_eq!(
        next_frame(false, false),
        Some(Changes {
            controls: Controls { home_button_down: false, one_button_down: false },
            delta_time_ms: 100,
        })
    );
}
