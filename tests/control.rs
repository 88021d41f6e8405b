use dino_run::control::{decode_key, run_tick, Intent, Key, LoopAction};
use dino_run::game::{Frame, GameState};
use dino_run::pacing::{sleep_nanos, tick_budget_nanos};

#[test]
fn keys_decode_to_intents() {
    assert_eq!(decode_key(Key::Char('q')), Intent::Quit);
    assert_eq!(decode_key(Key::Esc), Intent::Quit);
    assert_eq!(decode_key(Key::Interrupt), Intent::Quit);
    assert_eq!(decode_key(Key::Char(' ')), Intent::Jump);
    assert_eq!(decode_key(Key::Char('x')), Intent::Nothing);
    assert_eq!(decode_key(Key::Other), Intent::Nothing);
}

#[test]
fn shutdown_and_quit_leave_state_untouched() {
    let frame = Frame { width: 40, height: 10 };
    let mut g = GameState::new(&frame, 1, false, false);
    assert_eq!(run_tick(&mut g, &frame, true, None), LoopAction::Shutdown);
    assert_eq!(g.obstacles, vec![38]);
    assert_eq!(run_tick(&mut g, &frame, false, Some(Key::Char('q'))), LoopAction::Shutdown);
    assert_eq!(g.obstacles, vec![38]);
}

#[test]
fn tick_jumps_then_advances() {
    let frame = Frame { width: 40, height: 10 };
    let mut g = GameState::new(&frame, 1, false, false);
    g.player_y = 2;
    assert_eq!(run_tick(&mut g, &frame, false, Some(Key::Char(' '))), LoopAction::Continue);
    assert_eq!(g.player_y, 1);
    assert_eq!(g.player_velocity, 0);
    assert!(g.falling);
    assert_eq!(g.obstacles, vec![37]);
}

#[test]
fn tick_reports_game_over() {
    let frame = Frame { width: 40, height: 10 };
    let mut g = GameState::new(&frame, 1, false, false);
    g.obstacles = vec![4];
    g.score = 3;
    g.highscore = 3;
    assert_eq!(run_tick(&mut g, &frame, false, None), LoopAction::GameOver { score: 3 });
    assert_eq!(g.score, 0);
    assert_eq!(g.highscore, 3);
}

#[test]
fn pacing_at_120_fps() {
    let budget = tick_budget_nanos(120).unwrap();
    assert_eq!(budget, 8_333_333);
    assert_eq!(sleep_nanos(budget, 2_000_000), 6_333_333);
    assert_eq!(sleep_nanos(budget, 9_000_000), 0);
    assert_eq!(sleep_nanos(budget, budget), 0);
}

#[test]
fn zero_fps_has_no_budget() {
    assert_eq!(tick_budget_nanos(0), None);
    assert_eq!(tick_budget_nanos(1), Some(1_000_000_000));
}
