use pong::collisions::check_for_collisions;
use pong::entities::{Ball, Collider, Paddle, PaddleType, Wall, WallLocation, WallType};
use pong::game::{setup, Event, Game, GameState, Score, ScoreEvent, Winner};
use pong::geometry::{Aabb2d, Vec2};
use pong::scene::play_collision_sound;
use pong::serve::any_score;

fn game_with_ball(x: i64, y: i64, vx: i64, vy: i64) -> Game {
    let mut game = setup();
    game.ball = Ball { position: Vec2::new(x, y), velocity: Vec2::new(vx, vy) };
    game
}

fn wall(location: WallLocation) -> Collider {
    Wall::new(location).collider()
}

/// A pass over one collider, and the one notice that it can give.
fn collide(game: &mut Game, collider: &Collider) -> Option<Event> {
    let mut events = check_for_collisions(game, &vec![*collider]);
    assert!(events.len() <= 1);
    events.pop()
}

#[test]
fn ball_on_the_right_wall_scores_for_the_left_player() {
    let mut game = game_with_ball(640_000, 0, 300_000, 100_000);
    let event = collide(&mut game, &wall(WallLocation::Right));
    assert_eq!(event, Some(Event::Score(ScoreEvent::Player1Scored)));
    assert_eq!(game.score, Score(1, 0));
    assert_eq!(game.ball.velocity, Vec2::new(300_000, 100_000));
    assert_eq!(game.ball.position, Vec2::new(640_000, 0));
    assert_eq!(game.state, GameState::Playing);
    assert_eq!(game.winner, Winner(None));
}

#[test]
fn ninth_point_on_the_right_wall_makes_the_left_player_win() {
    let mut game = game_with_ball(640_000, 0, 300_000, 100_000);
    game.score = Score(8, 3);
    let event = collide(&mut game, &wall(WallLocation::Right));
    assert_eq!(event, Some(Event::Score(ScoreEvent::Player1Scored)));
    assert_eq!(game.score, Score(9, 3));
    assert_eq!(game.winner, Winner(Some(PaddleType::Left)));
    assert_eq!(game.state, GameState::GameOver);
    assert_eq!(game.ball.velocity, Vec2::new(300_000, 100_000));
}

#[test]
fn ball_on_the_left_wall_scores_for_the_right_player() {
    let mut game = game_with_ball(-640_000, 100_000, -300_000, 100_000);
    game.score = Score(2, 7);
    let event = collide(&mut game, &wall(WallLocation::Left));
    assert_eq!(event, Some(Event::Score(ScoreEvent::Player2Scored)));
    assert_eq!(game.score, Score(2, 8));
    assert_eq!(game.state, GameState::Playing);
    assert_eq!(game.winner, Winner(None));
    let event = collide(&mut game, &wall(WallLocation::Left));
    assert_eq!(event, Some(Event::Score(ScoreEvent::Player2Scored)));
    assert_eq!(game.score, Score(2, 9));
    assert_eq!(game.state, GameState::GameOver);
    assert_eq!(game.winner, Winner(Some(PaddleType::Right)));
    assert_eq!(game.ball.velocity, Vec2::new(-300_000, 100_000));
}

#[test]
fn points_are_counted_up_to_the_target() {
    let mut game = game_with_ball(-640_000, 0, -300_000, 0);
    for points in 1..9 {
        let event = collide(&mut game, &wall(WallLocation::Left));
        assert_eq!(event, Some(Event::Score(ScoreEvent::Player2Scored)));
        assert_eq!(game.score, Score(0, points));
        assert_eq!(game.state, GameState::Playing);
        assert_eq!(game.winner, Winner(None));
    }
    let event = collide(&mut game, &wall(WallLocation::Left));
    assert_eq!(event, Some(Event::Score(ScoreEvent::Player2Scored)));
    assert_eq!(game.score, Score(0, 9));
    assert_eq!(game.state, GameState::GameOver);
    assert_eq!(game.winner, Winner(Some(PaddleType::Right)));
}

#[test]
fn pass_changes_nothing_once_the_match_is_over() {
    let mut game = game_with_ball(640_000, 0, 300_000, 100_000);
    game.score = Score(9, 4);
    game.winner = Winner(Some(PaddleType::Left));
    game.state = GameState::GameOver;
    let before = game;
    assert_eq!(collide(&mut game, &wall(WallLocation::Right)), None);
    assert_eq!(game, before);
    game.ball.position = Vec2::new(610_000, 0);
    let before = game;
    assert_eq!(collide(&mut game, &Paddle::new(PaddleType::Right).collider()), None);
    assert_eq!(game, before);
    let colliders = game.colliders();
    assert_eq!(check_for_collisions(&mut game, &colliders), Vec::new());
    assert_eq!(game, before);
    // nothing is asked of the numbers of a match that is over
    game.ball.velocity = Vec2::new(i64::MIN, i64::MAX);
    game.score = Score(usize::MAX, usize::MAX);
    let before = game;
    assert_eq!(check_for_collisions(&mut game, &colliders), Vec::new());
    assert_eq!(game, before);
}

#[test]
fn point_is_counted_however_fast_the_ball_is() {
    let mut game = game_with_ball(640_000, 0, i64::MAX, 0);
    game.score = Score(usize::MAX - 1, 0);
    let event = collide(&mut game, &wall(WallLocation::Right));
    assert_eq!(event, Some(Event::Score(ScoreEvent::Player1Scored)));
    assert_eq!(game.score, Score(usize::MAX, 0));
    assert_eq!(game.ball.velocity, Vec2::new(i64::MAX, 0));
}

#[test]
fn ball_striking_the_left_edge_of_a_paddle_is_sped_up_and_turned_back() {
    let mut game = game_with_ball(610_000, 0, 300_000, 100_000);
    let paddle = Paddle::new(PaddleType::Right).collider();
    let event = collide(&mut game, &paddle);
    assert_eq!(event, Some(Event::Collision));
    assert_eq!(game.ball.velocity, Vec2::new(-360_000, 120_000));
    assert_eq!(game.ball.position, Vec2::new(610_000, 0));
    assert_eq!(game.score, Score(0, 0));
}

#[test]
fn ball_that_leaves_a_paddle_is_sped_up_but_not_turned_again() {
    let mut game = game_with_ball(610_000, 0, -360_000, 120_000);
    let paddle = Paddle::new(PaddleType::Right).collider();
    let event = collide(&mut game, &paddle);
    assert_eq!(event, Some(Event::Collision));
    assert_eq!(game.ball.velocity, Vec2::new(-432_000, 144_000));
}

#[test]
fn top_and_bottom_walls_turn_the_ball_back_at_the_same_speed() {
    let mut game = game_with_ball(100_000, 452_000, 300_000, 100_000);
    let event = collide(&mut game, &wall(WallLocation::Top));
    assert_eq!(event, Some(Event::Collision));
    assert_eq!(game.ball.velocity, Vec2::new(300_000, -100_000));
    let event = collide(&mut game, &wall(WallLocation::Top));
    assert_eq!(event, Some(Event::Collision));
    assert_eq!(game.ball.velocity, Vec2::new(300_000, -100_000));
    let mut game = game_with_ball(100_000, -452_000, 300_000, -100_000);
    let event = collide(&mut game, &wall(WallLocation::Bottom));
    assert_eq!(event, Some(Event::Collision));
    assert_eq!(game.ball.velocity, Vec2::new(300_000, 100_000));
}

#[test]
fn collider_out_of_reach_changes_nothing() {
    let mut game = game_with_ball(0, 0, 300_000, 100_000);
    let before = game;
    assert_eq!(collide(&mut game, &wall(WallLocation::Right)), None);
    assert_eq!(collide(&mut game, &wall(WallLocation::Top)), None);
    assert_eq!(collide(&mut game, &Paddle::new(PaddleType::Left).collider()), None);
    assert_eq!(game, before);
}

#[test]
fn every_collider_that_is_touched_is_answered() {
    let mut game = game_with_ball(612_000, 452_000, 300_000, 100_000);
    game.right_paddle.y = 400_000;
    let colliders = game.colliders();
    assert_eq!(colliders.len(), 6);
    let events = check_for_collisions(&mut game, &colliders);
    assert_eq!(events, vec![Event::Collision, Event::Collision]);
    assert_eq!(game.ball.velocity, Vec2::new(-360_000, -120_000));
    assert_eq!(game.ball.position, Vec2::new(612_000, 452_000));
    assert_eq!(game.score, Score(0, 0));
    let sounds = play_collision_sound(&events);
    assert!(sounds.collision);
    assert!(!sounds.score);
    assert!(!any_score(&events));
}

#[test]
fn pass_over_no_colliders_changes_nothing() {
    let mut game = game_with_ball(640_000, 0, 300_000, 100_000);
    let before = game;
    let events = check_for_collisions(&mut game, &Vec::new());
    assert_eq!(events, Vec::new());
    assert_eq!(game, before);
}

#[test]
fn notices_come_in_the_order_of_the_colliders() {
    let here = Aabb2d::new(Vec2::new(0, 0), Vec2::new(5_000, 5_000));
    let goal_right = Collider { bounds: here, wall_type: Some(WallType::Right), paddle: false };
    let goal_left = Collider { bounds: here, wall_type: Some(WallType::Left), paddle: true };
    let post = Collider { bounds: here, wall_type: None, paddle: false };
    let far = Collider {
        bounds: Aabb2d::new(Vec2::new(500_000, 0), Vec2::new(5_000, 5_000)),
        wall_type: Some(WallType::Right),
        paddle: true,
    };
    let mut game = game_with_ball(0, 0, 300_000, 100_000);
    game.score = Score(8, 8);
    let events =
        check_for_collisions(&mut game, &vec![goal_left, far, post, goal_right, goal_left]);
    assert_eq!(
        events,
        vec![
            Event::Score(ScoreEvent::Player2Scored),
            Event::Collision,
            Event::Score(ScoreEvent::Player1Scored),
            Event::Score(ScoreEvent::Player2Scored),
        ]
    );
    assert_eq!(game.score, Score(9, 10));
    assert_eq!(game.winner, Winner(Some(PaddleType::Right)));
    assert_eq!(game.state, GameState::GameOver);
    // the ball lies inside the box: contact at the bottom, and it moves up, so it is turned
    assert_eq!(game.ball.velocity, Vec2::new(300_000, -100_000));
    let sounds = play_collision_sound(&events);
    assert!(sounds.collision);
    assert!(sounds.score);
}

#[test]
fn wall_that_is_also_a_paddle_speeds_the_ball_up() {
    let mut top = wall(WallLocation::Top);
    top.paddle = true;
    let mut game = game_with_ball(100_000, 452_000, 300_000, 100_000);
    assert_eq!(collide(&mut game, &top), Some(Event::Collision));
    assert_eq!(game.ball.velocity, Vec2::new(360_000, -120_000));
}
