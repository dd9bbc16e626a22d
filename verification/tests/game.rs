use pong::entities::{Ball, Paddle, PaddleType};
use pong::game::{
    can_step, game_over_keyboard, game_reset, setup, simulate, step, step_with_serve, try_step,
    Event, Game, GameState, Score, ScoreEvent, Winner,
};
use pong::geometry::Vec2;
use pong::motion::{Controls, PaddleInput};
use pong::serve::{any_score, ball_reset, serve};

const TICK: u32 = 15_625;

fn idle() -> Controls {
    Controls { left: PaddleInput::idle(), right: PaddleInput::idle() }
}

fn speed_squared(v: Vec2) -> i128 {
    (v.x as i128) * (v.x as i128) + (v.y as i128) * (v.y as i128)
}

fn assert_base_speed(v: Vec2) {
    let s = speed_squared(v);
    assert!(s <= 400_000 * 400_000, "too fast: {:?}", v);
    assert!(s > 399_998 * 399_998, "too slow: {:?}", v);
}

#[test]
fn setup_gives_the_start_of_a_match() {
    let game = setup();
    assert_eq!(game.state, GameState::Playing);
    assert_eq!(game.score, Score(0, 0));
    assert_eq!(game.winner, Winner(None));
    assert_eq!(game.ball.position, Vec2::new(-610_000, 0));
    assert_eq!(game.ball.velocity, Vec2::new(282_842, -282_842));
    assert_eq!(game.left_paddle, Paddle { side: PaddleType::Left, y: 0 });
    assert_eq!(game.right_paddle, Paddle { side: PaddleType::Right, y: 0 });
    assert_base_speed(game.ball.velocity);
    assert!(can_step(&game, TICK));
}

#[test]
fn first_tick_moves_the_ball_and_the_paddles() {
    let mut game = setup();
    let controls = Controls {
        left: PaddleInput { up: true, down: false, boost: false },
        right: PaddleInput { up: false, down: true, boost: true },
    };
    let events = step_with_serve(&mut game, &controls, TICK, true, 300);
    assert_eq!(events, Vec::new());
    assert_eq!(game.ball.position, Vec2::new(-605_581, -4_419));
    assert_eq!(game.ball.velocity, Vec2::new(282_842, -282_842));
    assert_eq!(game.left_paddle.y, 7_812);
    assert_eq!(game.right_paddle.y, -15_625);
    assert_eq!(game.score, Score(0, 0));
    assert_eq!(game.state, GameState::Playing);
}

#[test]
fn ball_bounces_off_the_bottom_wall() {
    let mut game = setup();
    for _ in 0..101 {
        assert_eq!(step_with_serve(&mut game, &idle(), TICK, true, 300), Vec::new());
    }
    assert_eq!(game.ball.velocity, Vec2::new(282_842, -282_842));
    let events = step_with_serve(&mut game, &idle(), TICK, true, 300);
    assert_eq!(events, vec![Event::Collision]);
    assert_eq!(game.ball.position, Vec2::new(-159_262, -450_738));
    assert_eq!(game.ball.velocity, Vec2::new(282_842, 282_842));
}

#[test]
fn point_is_followed_by_a_serve_at_base_speed() {
    let mut game = setup();
    for _ in 0..280 {
        let events = step_with_serve(&mut game, &idle(), TICK, true, 300);
        assert!(!any_score(&events));
    }
    let events = step_with_serve(&mut game, &idle(), TICK, true, 300);
    assert_eq!(events, vec![Event::Score(ScoreEvent::Player1Scored)]);
    assert_eq!(game.score, Score(1, 0));
    assert_eq!(game.ball.position, Vec2::new(-600_000, 0));
    assert_eq!(game.ball.velocity, Vec2::new(383_130, 114_939));
    assert_base_speed(game.ball.velocity);
    assert_eq!(game.state, GameState::Playing);
}

#[test]
fn match_between_idle_players_is_won_by_the_left_player() {
    let mut game = setup();
    let mut ticks: u32 = 0;
    while game.state == GameState::Playing {
        assert!(can_step(&game, TICK));
        step_with_serve(&mut game, &idle(), TICK, true, 300);
        ticks += 1;
        assert!(ticks < 10_000);
        assert!(game.score.0 <= 9 && game.score.1 <= 9);
    }
    assert_eq!(ticks, 1_929);
    assert_eq!(game.score, Score(9, 0));
    assert_eq!(game.winner, Winner(Some(PaddleType::Left)));
    assert_eq!(game.ball.position, Vec2::new(-600_000, 0));
    assert_eq!(game.ball.velocity, Vec2::new(383_130, 114_939));
}

#[test]
fn match_that_is_over_is_frozen() {
    let mut game = setup();
    game.state = GameState::GameOver;
    game.winner = Winner(Some(PaddleType::Right));
    game.score = Score(4, 9);
    game.ball = Ball { position: Vec2::new(640_000, 0), velocity: Vec2::new(300_000, 0) };
    let before = game;
    let held = Controls {
        left: PaddleInput { up: true, down: false, boost: true },
        right: PaddleInput { up: false, down: true, boost: false },
    };
    for _ in 0..10 {
        assert_eq!(step_with_serve(&mut game, &held, TICK, false, 500), Vec::new());
        assert_eq!(simulate(&mut game, &held, TICK), Vec::new());
        assert_eq!(step(&mut game, &held, TICK), Vec::new());
        assert_eq!(game, before);
    }
    game_over_keyboard(&mut game, false);
    assert_eq!(game, before);
    assert!(can_step(&game, u32::MAX));
}

#[test]
fn restart_puts_everything_back() {
    let mut game = setup();
    game.state = GameState::GameOver;
    game.winner = Winner(Some(PaddleType::Left));
    game.score = Score(9, 6);
    game.ball = Ball { position: Vec2::new(-600_000, 0), velocity: Vec2::new(900_000, 300_000) };
    game.left_paddle.y = 400_000;
    game.right_paddle.y = -123_456;
    game_over_keyboard(&mut game, true);
    assert_eq!(game, setup());
    assert_eq!(game.state, GameState::Playing);
    assert_eq!(game.score, Score(0, 0));
    assert_eq!(game.winner, Winner(None));
    assert_eq!(game.ball.position, Vec2::new(-610_000, 0));
    assert_eq!(game.ball.velocity, Vec2::new(282_842, -282_842));
    assert_eq!(game.left_paddle.y, 0);
    assert_eq!(game.right_paddle.y, 0);
}

#[test]
fn restart_key_does_nothing_while_the_match_is_played() {
    let mut game = setup();
    game.score = Score(3, 5);
    game.left_paddle.y = 77_000;
    let before = game;
    game_over_keyboard(&mut game, true);
    assert_eq!(game, before);
    game_over_keyboard(&mut game, false);
    assert_eq!(game, before);
}

#[test]
fn game_reset_keeps_the_state() {
    let mut game = setup();
    game.state = GameState::GameOver;
    game.winner = Winner(Some(PaddleType::Right));
    game.score = Score(1, 9);
    game.left_paddle.y = -5;
    game_reset(&mut game);
    let mut expected = setup();
    expected.state = GameState::GameOver;
    assert_eq!(game, expected);
}

#[test]
fn paddles_never_leave_the_court() {
    let mut game = setup();
    let held = Controls {
        left: PaddleInput { up: true, down: false, boost: true },
        right: PaddleInput { up: false, down: true, boost: false },
    };
    for _ in 0..200 {
        step_with_serve(&mut game, &held, TICK, false, 100);
        assert!(-400_000 <= game.left_paddle.y && game.left_paddle.y <= 400_000);
        assert!(-400_000 <= game.right_paddle.y && game.right_paddle.y <= 400_000);
    }
    assert_eq!(game.left_paddle.y, 400_000);
    assert_eq!(game.right_paddle.y, -400_000);
}

#[test]
fn paddle_contacts_speed_the_ball_up_until_a_point_resets_it() {
    let mut game = setup();
    game.ball = Ball { position: Vec2::new(0, 0), velocity: Vec2::new(400_000, 0) };
    let mut contacts: u32 = 0;
    let mut expected: i64 = 400_000;
    while contacts < 6 {
        let events = step_with_serve(&mut game, &idle(), TICK, true, 100);
        assert!(!any_score(&events));
        if events == vec![Event::Collision] {
            contacts += 1;
            expected = expected * 6 / 5;
            assert_eq!(game.ball.velocity.y, 0);
            assert_eq!(game.ball.velocity.x.abs(), expected);
        }
    }
    // 400000 * 1.2^6
    assert_eq!(expected, 1_194_393);
    game.left_paddle.y = 300_000;
    game.right_paddle.y = 300_000;
    let mut scored = false;
    for _ in 0..200 {
        if any_score(&step_with_serve(&mut game, &idle(), TICK, true, 100)) {
            scored = true;
            break;
        }
    }
    assert!(scored);
    assert_base_speed(game.ball.velocity);
}

#[test]
fn serve_follows_the_slope_given() {
    let mut ball = Ball { position: Vec2::new(640_000, 33_000), velocity: Vec2::new(900_000, -5) };
    serve(&mut ball, true, 500);
    assert_eq!(ball.position, Vec2::new(-600_000, 0));
    assert_eq!(ball.velocity, Vec2::new(357_770, 178_885));
    let mut ball = Ball { position: Vec2::new(640_000, 33_000), velocity: Vec2::new(900_000, -5) };
    serve(&mut ball, false, 500);
    assert_eq!(ball.velocity, Vec2::new(357_770, -178_885));
    let mut ball = Ball { position: Vec2::new(-640_000, -1), velocity: Vec2::new(-1, 700_000) };
    serve(&mut ball, true, 100);
    assert_eq!(ball.position, Vec2::new(600_000, 0));
    assert_eq!(ball.velocity, Vec2::new(-398_014, -39_801));
    let mut ball = Ball { position: Vec2::new(0, 0), velocity: Vec2::new(-1, 700_000) };
    serve(&mut ball, false, 100);
    assert_eq!(ball.position, Vec2::new(600_000, 0));
    assert_eq!(ball.velocity, Vec2::new(-398_014, 39_801));
    assert_base_speed(ball.velocity);
}

#[test]
fn ball_without_sideways_speed_is_served_away_from_the_wall_behind_it() {
    let mut ball = Ball { position: Vec2::new(640_000, 0), velocity: Vec2::new(0, 700_000) };
    serve(&mut ball, true, 300);
    assert_eq!(ball.position, Vec2::new(-600_000, 0));
    assert_eq!(ball.velocity, Vec2::new(383_130, 114_939));
    assert_base_speed(ball.velocity);
    let mut ball = Ball { position: Vec2::new(-640_000, 0), velocity: Vec2::new(0, 300_000) };
    serve(&mut ball, true, 300);
    assert_eq!(ball.position, Vec2::new(600_000, 0));
    assert_eq!(ball.velocity, Vec2::new(-383_130, -114_939));
    assert_base_speed(ball.velocity);
    let mut ball = Ball { position: Vec2::new(0, 0), velocity: Vec2::new(0, 0) };
    serve(&mut ball, false, 500);
    assert_eq!(ball.position, Vec2::new(600_000, 0));
    assert_eq!(ball.velocity, Vec2::new(-357_770, 178_885));
    assert_base_speed(ball.velocity);
}

#[test]
fn ball_reset_gives_base_speed_to_a_ball_without_sideways_speed() {
    let events = vec![Event::Score(ScoreEvent::Player1Scored)];
    for _ in 0..50 {
        let mut ball = Ball { position: Vec2::new(640_000, 0), velocity: Vec2::new(0, 300_000) };
        ball_reset(&mut ball, &events);
        assert_eq!(ball.position, Vec2::new(-600_000, 0));
        assert_base_speed(ball.velocity);
        assert!(ball.velocity.x > 0);
    }
}

#[test]
fn serve_at_the_steepest_slope_still_goes_sideways() {
    let mut ball = Ball { position: Vec2::new(640_000, 0), velocity: Vec2::new(5, 0) };
    serve(&mut ball, true, u16::MAX);
    assert_eq!(ball.velocity, Vec2::new(6_102, 399_953));
    assert_base_speed(ball.velocity);
}

#[test]
fn ball_reset_waits_for_a_score() {
    let mut ball = Ball { position: Vec2::new(640_000, 5), velocity: Vec2::new(900_000, 1) };
    let before = ball;
    ball_reset(&mut ball, &Vec::new());
    assert_eq!(ball, before);
    ball_reset(&mut ball, &vec![Event::Collision, Event::Collision]);
    assert_eq!(ball, before);
}

#[test]
fn ball_reset_serves_at_base_speed_along_a_slope_in_range() {
    let events = vec![Event::Collision, Event::Score(ScoreEvent::Player1Scored)];
    let mut slopes: Vec<i64> = Vec::new();
    for _ in 0..300 {
        let mut ball =
            Ball { position: Vec2::new(640_000, 5), velocity: Vec2::new(900_000, 300_000) };
        ball_reset(&mut ball, &events);
        assert_eq!(ball.position, Vec2::new(-600_000, 0));
        assert_base_speed(ball.velocity);
        assert!(ball.velocity.x > 0);
        // |vy| / vx lies between a tenth and a half, give or take the rounding
        let rise = ball.velocity.y.abs();
        assert!(rise * 10 + 20 >= ball.velocity.x, "too flat: {:?}", ball.velocity);
        assert!(rise * 2 <= ball.velocity.x + 4, "too steep: {:?}", ball.velocity);
        if !slopes.contains(&ball.velocity.y) {
            slopes.push(ball.velocity.y);
        }
    }
    assert!(slopes.len() > 2);
    assert!(slopes.iter().any(|s| *s > 0));
    assert!(slopes.iter().any(|s| *s < 0));
}

#[test]
fn step_serves_at_random_after_a_point() {
    let mut game = setup();
    game.ball = Ball { position: Vec2::new(630_000, 200_000), velocity: Vec2::new(900_000, 0) };
    let events = step(&mut game, &idle(), TICK);
    assert_eq!(events, vec![Event::Score(ScoreEvent::Player1Scored)]);
    assert_eq!(game.score, Score(1, 0));
    assert_eq!(game.ball.position, Vec2::new(-600_000, 0));
    assert_base_speed(game.ball.velocity);
    assert!(game.ball.velocity.x > 0);
    assert_ne!(game.ball.velocity.y, 0);
}

#[test]
fn simulate_leaves_the_ball_where_it_scored() {
    let mut game = setup();
    game.ball = Ball { position: Vec2::new(630_000, 200_000), velocity: Vec2::new(900_000, 0) };
    let events = simulate(&mut game, &idle(), TICK);
    assert_eq!(events, vec![Event::Score(ScoreEvent::Player1Scored)]);
    assert_eq!(game.ball.position, Vec2::new(644_062, 200_000));
    assert_eq!(game.ball.velocity, Vec2::new(900_000, 0));
    assert_eq!(game.score, Score(1, 0));
}

#[test]
fn tick_that_would_overflow_is_told_apart() {
    let mut game: Game = setup();
    game.ball.velocity = Vec2::new(i64::MAX / 2, 0);
    assert!(!can_step(&game, TICK));
    game.ball.velocity = Vec2::new(1 << 40, -(1 << 40));
    assert!(can_step(&game, TICK));
    game.ball.position = Vec2::new(i64::MAX, 0);
    assert!(!can_step(&game, TICK));
    game.ball.position = Vec2::new(0, 0);
    game.score = Score(usize::MAX - 5, 0);
    assert!(!can_step(&game, TICK));
    game.score = Score(usize::MAX - 6, usize::MAX - 6);
    assert!(can_step(&game, TICK));
}

#[test]
fn try_step_runs_only_a_tick_that_fits() {
    let mut game = setup();
    assert_eq!(try_step(&mut game, &idle(), TICK), Some(Vec::new()));
    assert_eq!(game.ball.position, Vec2::new(-605_581, -4_419));
    game.ball.velocity = Vec2::new(i64::MAX, 0);
    let before = game;
    assert_eq!(try_step(&mut game, &idle(), TICK), None);
    assert_eq!(game, before);
    game.state = GameState::GameOver;
    game.winner = Winner(Some(PaddleType::Left));
    let before = game;
    assert_eq!(try_step(&mut game, &idle(), TICK), Some(Vec::new()));
    assert_eq!(game, before);
}
