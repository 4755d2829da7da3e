use pong::collision::{collide, Collision};
use pong::frame::run_frame;
use pong::geometry::{Playfield, Vec2};
use pong::systems::{
    detect_scoring, handle_collisions, handle_player_input, move_ball, move_paddles,
    project_positions, reset_ball, update_score, Score, Scorer, Transform,
};
use pong::world::{
    ball_bundle, gutter_bundle, paddle_bundle, spawn_ball, spawn_gutters, spawn_paddles, Entity,
    Kind, Role, World,
};

fn ball_at(x: i64, y: i64, vx: i64, vy: i64) -> Entity {
    let mut b = ball_bundle(vx, vy);
    b.position = Vec2::new(x, y);
    b
}

fn player_paddle(x: i64, y: i64) -> Entity {
    let mut p = paddle_bundle(x, y);
    p.player = true;
    p
}

#[test]
fn collide_classifies_each_side() {
    let s = Vec2::new(5, 5);
    let p = Vec2::new(10, 50);
    assert_eq!(collide(Vec2::new(0, 0), s, Vec2::new(6, 0), p), Some(Collision::Left));
    assert_eq!(collide(Vec2::new(0, 0), s, Vec2::new(-6, 0), p), Some(Collision::Right));
    let g = Vec2::new(800, 20);
    assert_eq!(collide(Vec2::new(0, 279), s, Vec2::new(0, 290), g), Some(Collision::Bottom));
    assert_eq!(collide(Vec2::new(0, -279), s, Vec2::new(0, -290), g), Some(Collision::Top));
    assert_eq!(collide(Vec2::new(0, 0), s, Vec2::new(0, 0), p), Some(Collision::Inside));
    assert_eq!(collide(Vec2::new(0, 0), s, Vec2::new(100, 0), p), None);
    // touching edges do not overlap
    assert_eq!(collide(Vec2::new(0, 0), Vec2::new(4, 4), Vec2::new(7, 0), p), None);
}

#[test]
fn collide_picks_shallowest_axis() {
    let s = Vec2::new(10, 10);
    // x penetration 1, y penetration 3: the horizontal side wins
    assert_eq!(
        collide(Vec2::new(0, 0), s, Vec2::new(9, 7), Vec2::new(10, 10)),
        Some(Collision::Left)
    );
    // x penetration 3, y penetration 1: the vertical side wins
    assert_eq!(
        collide(Vec2::new(0, 0), s, Vec2::new(7, 9), Vec2::new(10, 10)),
        Some(Collision::Bottom)
    );
    // equal penetration goes to the horizontal axis
    assert_eq!(
        collide(Vec2::new(0, 0), s, Vec2::new(8, 8), Vec2::new(10, 10)),
        Some(Collision::Left)
    );
}

#[test]
fn paddle_hit_reverses_horizontal_velocity() {
    let mut w = World::new();
    w.spawn(ball_at(0, 0, 3, -2));
    w.spawn(paddle_bundle(6, 0));
    handle_collisions(&mut w);
    assert_eq!(w.entities[0].velocity, Some(Vec2::new(-3, -2)));
    assert_eq!(w.entities[0].position, Vec2::new(0, 0));
}

#[test]
fn gutter_hit_reverses_vertical_velocity() {
    let mut w = World::new();
    w.spawn(ball_at(0, 279, 1, 1));
    w.spawn(gutter_bundle(0, 290, 800));
    handle_collisions(&mut w);
    assert_eq!(w.entities[0].velocity, Some(Vec2::new(1, -1)));
}

#[test]
fn ball_inside_other_box_keeps_velocity() {
    let mut w = World::new();
    w.spawn(ball_at(0, 0, 1, 1));
    w.spawn(paddle_bundle(0, 0));
    handle_collisions(&mut w);
    assert_eq!(w.entities[0].velocity, Some(Vec2::new(1, 1)));
}

#[test]
fn two_hits_in_one_frame_are_each_applied() {
    let mut w = World::new();
    w.spawn(ball_at(0, 0, 1, 1));
    w.spawn(paddle_bundle(6, 0));
    w.spawn(gutter_bundle(0, 11, 800));
    handle_collisions(&mut w);
    assert_eq!(w.entities[0].velocity, Some(Vec2::new(-1, -1)));
}

#[test]
fn right_exit_scores_for_ai_and_resets() {
    let field = Playfield::new(800, 600);
    let mut w = World::new();
    w.spawn(ball_at(401, 7, 1, 1));
    let mut score = Score::new();
    let event = detect_scoring(&w, field);
    assert_eq!(event, Some(Scorer::Ai));
    reset_ball(&mut w, event);
    update_score(&mut score, event);
    assert_eq!(w.entities[0].position, Vec2::new(0, 0));
    assert_eq!(w.entities[0].velocity, Some(Vec2::new(-1, 1)));
    assert_eq!(score, Score { player: 0, ai: 1 });
}

#[test]
fn left_exit_scores_for_player_and_resets() {
    let field = Playfield::new(800, 600);
    let mut w = World::new();
    w.spawn(ball_at(-401, 0, -1, 1));
    let mut score = Score { player: 3, ai: 2 };
    let event = detect_scoring(&w, field);
    assert_eq!(event, Some(Scorer::Player));
    reset_ball(&mut w, event);
    update_score(&mut score, event);
    assert_eq!(w.entities[0].position, Vec2::new(0, 0));
    assert_eq!(w.entities[0].velocity, Some(Vec2::new(1, 1)));
    assert_eq!(score, Score { player: 4, ai: 2 });
}

#[test]
fn ball_on_the_edge_does_not_score() {
    let field = Playfield::new(800, 600);
    let mut w = World::new();
    w.spawn(ball_at(400, 0, 1, 1));
    assert_eq!(detect_scoring(&w, field), None);
    let mut w2 = World::new();
    w2.spawn(ball_at(-400, 0, 1, 1));
    assert_eq!(detect_scoring(&w2, field), None);
}

#[test]
fn crossing_among_many_boxes_scores_once() {
    let field = Playfield::new(800, 600);
    let mut w = World::new();
    w.spawn(ball_at(398, 0, 1, 0));
    w.spawn(paddle_bundle(404, 0));
    w.spawn(paddle_bundle(404, 2));
    w.spawn(gutter_bundle(404, 0, 30));
    let mut score = Score::new();
    let event = run_frame(&mut w, &mut score, field, false, false);
    assert_eq!(event, Some(Scorer::Ai));
    assert_eq!(score.ai + score.player, 1);
    assert_eq!(w.entities[0].position, Vec2::new(0, 0));
}

#[test]
fn projection_is_repeatable() {
    let mut w = World::new();
    w.spawn(ball_at(12, -7, 1, 1));
    w.spawn(paddle_bundle(350, 40));
    let a = project_positions(&w);
    let b = project_positions(&w);
    assert_eq!(a, b);
    assert_eq!(
        a,
        vec![Transform { x: 12, y: -7, z: 0 }, Transform { x: 350, y: 40, z: 0 }]
    );
}

#[test]
fn free_flight_then_score_on_the_exact_frame() {
    let field = Playfield::new(800, 600);
    let mut w = World::new();
    spawn_ball(&mut w);
    let mut score = Score::new();
    for n in 1..=80i64 {
        let event = run_frame(&mut w, &mut score, field, false, false);
        assert_eq!(event, None);
        assert_eq!(w.entities[0].position, Vec2::new(5 * n, 5 * n));
    }
    let event = run_frame(&mut w, &mut score, field, false, false);
    assert_eq!(event, Some(Scorer::Ai));
    assert_eq!(w.entities[0].position, Vec2::new(0, 0));
    assert_eq!(w.entities[0].velocity, Some(Vec2::new(-1, 1)));
    assert_eq!(score, Score { player: 0, ai: 1 });
}

#[test]
fn keys_set_player_velocity() {
    let mut w = World::new();
    w.spawn(player_paddle(350, 0));
    w.spawn(paddle_bundle(-350, 0));
    handle_player_input(&mut w, true, false);
    assert_eq!(w.entities[0].velocity, Some(Vec2::new(0, 5)));
    assert_eq!(w.entities[1].velocity, Some(Vec2::new(0, 0)));
    handle_player_input(&mut w, false, true);
    assert_eq!(w.entities[0].velocity, Some(Vec2::new(0, -5)));
    handle_player_input(&mut w, true, true);
    assert_eq!(w.entities[0].velocity, Some(Vec2::new(0, 5)));
    handle_player_input(&mut w, false, false);
    assert_eq!(w.entities[0].velocity, Some(Vec2::new(0, 0)));
}

#[test]
fn input_without_player_does_nothing() {
    let mut w = World::new();
    w.spawn(paddle_bundle(-350, 0));
    handle_player_input(&mut w, true, false);
    assert_eq!(w.entities[0].velocity, Some(Vec2::new(0, 0)));
}

#[test]
fn paddle_stalls_at_band_edge() {
    let field = Playfield::new(800, 600);
    let mut w = World::new();
    w.spawn(player_paddle(350, 0));
    handle_player_input(&mut w, true, false);
    for _ in 0..200 {
        move_paddles(&mut w, field);
        assert!(w.entities[0].position.y.abs() < 255);
    }
    // 250 + 5 = 255 is rejected: the paddle stalls one step short
    assert_eq!(w.entities[0].position, Vec2::new(350, 250));
    assert_eq!(w.entities[0].velocity, Some(Vec2::new(0, 5)));
    handle_player_input(&mut w, false, true);
    for _ in 0..200 {
        move_paddles(&mut w, field);
        assert!(w.entities[0].position.y.abs() < 255);
    }
    assert_eq!(w.entities[0].position, Vec2::new(350, -250));
}

#[test]
fn ball_moves_by_speed_times_velocity() {
    let mut w = World::new();
    w.spawn(ball_at(10, 20, -2, 3));
    move_ball(&mut w);
    assert_eq!(w.entities[0].position, Vec2::new(0, 35));
}

#[test]
fn no_single_ball_means_no_work() {
    let field = Playfield::new(800, 600);
    let mut w = World::new();
    w.spawn(ball_at(500, 0, 1, 1));
    w.spawn(ball_at(500, 0, 1, 1));
    assert_eq!(w.find_single(Role::Ball), None);
    assert_eq!(detect_scoring(&w, field), None);
    move_ball(&mut w);
    assert_eq!(w.entities[0].position, Vec2::new(500, 0));
    let empty = World::new();
    assert_eq!(detect_scoring(&empty, field), None);
}

#[test]
fn startup_layout() {
    let field = Playfield::new(800, 600);
    let mut w = World::new();
    spawn_ball(&mut w);
    spawn_paddles(&mut w, field);
    spawn_gutters(&mut w, field);
    assert_eq!(w.entities.len(), 5);
    assert_eq!(w.entities[0].kind, Kind::Ball);
    assert_eq!(w.entities[0].shape, Vec2::new(5, 5));
    assert_eq!(w.entities[0].velocity, Some(Vec2::new(1, 1)));
    assert_eq!(w.entities[1].position, Vec2::new(350, 0));
    assert!(w.entities[1].player);
    assert_eq!(w.entities[2].position, Vec2::new(-350, 0));
    assert!(!w.entities[2].player);
    assert_eq!(w.entities[2].shape, Vec2::new(10, 50));
    assert_eq!(w.entities[3].position, Vec2::new(0, 290));
    assert_eq!(w.entities[4].position, Vec2::new(0, -290));
    assert_eq!(w.entities[4].shape, Vec2::new(800, 20));
    assert_eq!(w.entities[4].velocity, None);
    assert_eq!(w.find_single(Role::Player), Some(1));
}

#[test]
fn no_event_leaves_ball_and_score() {
    let mut w = World::new();
    w.spawn(ball_at(3, 4, 1, 1));
    let mut score = Score { player: 1, ai: 1 };
    reset_ball(&mut w, None);
    update_score(&mut score, None);
    assert_eq!(w.entities[0].position, Vec2::new(3, 4));
    assert_eq!(score, Score { player: 1, ai: 1 });
}
