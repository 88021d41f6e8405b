use dino_run::game::{Frame, GameState, TickOutcome, OBSTACLE_SPEED};

fn state(obstacles: Vec<u16>, score: u64, highscore: u64, cheats: bool) -> GameState {
    GameState {
        player_y: 0,
        player_velocity: 0,
        falling: false,
        obstacles,
        score,
        highscore,
        obstacle_speed: 1,
        cheats,
        reseed_count: 0,
    }
}

#[test]
fn new_seeds_obstacles_at_spawn_column() {
    let frame = Frame { width: 80, height: 24 };
    let g = GameState::new(&frame, 3, false, false);
    assert_eq!(g.obstacles, vec![78, 78, 78]);
    assert_eq!(g.score, 0);
    assert_eq!(g.highscore, 0);
    assert_eq!(g.player_y, 0);
    assert!(!g.falling);
    assert_eq!(g.obstacle_speed, OBSTACLE_SPEED);
    assert_eq!(g.reseed_count, 0);
    let r = GameState::new(&frame, 3, true, true);
    assert!(r.cheats);
    assert_eq!(r.reseed_count, 3);
}

#[test]
fn recycles_front_obstacle_at_zero() {
    let frame = Frame { width: 80, height: 24 };
    let mut g = state(vec![0], 4, 4, false);
    let out = g.update(&frame);
    assert_eq!(out, TickOutcome::Continue);
    assert_eq!(g.obstacles, vec![78]);
    assert_eq!(g.score, 5);
    assert_eq!(g.highscore, 5);
}

#[test]
fn recycling_keeps_queue_length_and_moves_the_rest() {
    let frame = Frame { width: 80, height: 24 };
    let mut g = state(vec![0, 10, 40], 0, 7, false);
    g.update(&frame);
    assert_eq!(g.obstacles, vec![9, 39, 78]);
    assert_eq!(g.score, 1);
    assert_eq!(g.highscore, 7);
}

#[test]
fn obstacles_saturate_at_zero() {
    let frame = Frame { width: 80, height: 24 };
    let mut g = state(vec![5, 50], 0, 0, false);
    g.obstacle_speed = 7;
    g.update(&frame);
    assert_eq!(g.obstacles, vec![0, 43]);
    assert_eq!(g.score, 0);
}

#[test]
fn collision_iff_obstacle_in_columns_one_to_three() {
    for p in 0u16..10 {
        let g = state(vec![p], 0, 0, false);
        assert_eq!(g.collision(), (1..=3).contains(&p), "column {}", p);
    }
    assert!(!state(vec![], 0, 0, false).collision());
    assert!(state(vec![20, 2], 0, 0, false).collision());
}

#[test]
fn cheats_suppress_collision() {
    for p in 0u16..10 {
        assert!(!state(vec![p], 0, 0, true).collision());
    }
    let frame = Frame { width: 80, height: 24 };
    let mut g = state(vec![3], 2, 2, true);
    assert_eq!(g.update(&frame), TickOutcome::Continue);
    assert_eq!(g.obstacles, vec![2]);
}

#[test]
fn jump_from_ground_hits_ceiling_on_first_step() {
    let frame = Frame { width: 80, height: 24 };
    let mut g = state(vec![], 0, 0, false);
    g.jump();
    assert!(g.falling);
    assert_eq!(g.player_velocity, -1);
    g.update(&frame);
    assert_eq!(g.player_y, 0);
    assert!(!g.falling);
    assert_eq!(g.player_velocity, 0);
}

#[test]
fn no_double_jump() {
    let mut g = state(vec![], 0, 0, false);
    g.player_y = 4;
    g.falling = true;
    g.player_velocity = 2;
    g.jump();
    assert_eq!(g.player_velocity, 2);
    assert_eq!(g.player_y, 4);
}

#[test]
fn jump_arc_stays_within_bounds() {
    let frame = Frame { width: 80, height: 10 };
    let mut g = state(vec![], 0, 0, false);
    g.player_y = 3;
    g.jump();
    let mut seen = vec![];
    for _ in 0..10 {
        g.update(&frame);
        seen.push((g.player_y, g.player_velocity, g.falling));
        assert!(g.player_y >= 0 && g.player_y <= 7);
    }
    assert_eq!(seen[0], (2, 0, true));
    assert_eq!(seen[1], (2, 1, true));
    assert_eq!(seen[2], (3, 2, true));
    assert_eq!(seen[3], (5, 3, true));
    assert_eq!(seen[4], (7, 0, false));
    assert_eq!(seen[5], (7, 0, false));
}

#[test]
fn collision_resets_and_keeps_highscore() {
    let frame = Frame { width: 80, height: 24 };
    let mut g = state(vec![0, 3], 9, 9, false);
    let out = g.update(&frame);
    assert_eq!(out, TickOutcome::GameOver { score: 10 });
    assert_eq!(g.score, 0);
    assert_eq!(g.highscore, 10);
    assert!(g.obstacles.is_empty());
    assert_eq!(g.player_y, 0);
    assert!(!g.falling);
}

#[test]
fn reset_reseeds_when_configured() {
    let frame = Frame { width: 30, height: 12 };
    let mut g = GameState::new(&frame, 2, false, true);
    g.obstacles = vec![4, 28];
    let out = g.update(&frame);
    assert_eq!(out, TickOutcome::GameOver { score: 0 });
    assert_eq!(g.obstacles, vec![28, 28]);
}

#[test]
fn highscore_never_decreases_over_many_ticks() {
    let frame = Frame { width: 12, height: 8 };
    let mut g = GameState::new(&frame, 1, false, true);
    let mut last_high = 0;
    let mut max_score = 0;
    for t in 0..200 {
        g.obstacle_speed = if (t / 40) % 2 == 0 { 5 } else { 1 };
        if t % 7 == 0 {
            g.jump();
        }
        let out = g.update(&frame);
        if let TickOutcome::GameOver { score } = out {
            max_score = max_score.max(score);
        }
        max_score = max_score.max(g.score);
        assert!(g.highscore >= last_high);
        assert!(g.score <= g.highscore);
        assert_eq!(g.highscore, max_score);
        last_high = g.highscore;
    }
    assert!(last_high > 0);
}
