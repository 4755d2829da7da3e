use vstd::prelude::*;
use crate::geometry::{Vec2, Playfield, paddle_y_allowed};
use crate::world::{World, Entity, Kind, Role, only_at};
use crate::collision::{boxes_overlap, crosses_x, crosses_y, depth_x, depth_y, lemma_horizontal_hit_reflects_x};
use crate::systems::{
    Score, Scorer, after_input, after_move_paddles, after_move_ball, after_collisions,
    after_reset, detected, scored, score_has_room, paddle_moves_fit, ball_move_fits,
    ball_velocity_reflectable, handle_player_input, move_paddles, move_ball, handle_collisions,
    detect_scoring, reset_ball, update_score, the_single, bounced, lemma_the_single, projection,
};

verus! {

/// The table after input, motion and collisions, just before scoring is checked.
pub open spec fn before_scoring(es: Seq<Entity>, field: Playfield, up: bool, down: bool) -> Seq<Entity> {
    after_collisions(after_move_ball(after_move_paddles(after_input(es, up, down), field.height)))
}

/// The scoring event of one frame.
pub open spec fn frame_event(es: Seq<Entity>, field: Playfield, up: bool, down: bool) -> Option<Scorer> {
    detected(before_scoring(es, field, up, down), field.width)
}

/// The table at the end of one frame.
pub open spec fn frame_entities(es: Seq<Entity>, field: Playfield, up: bool, down: bool) -> Seq<Entity> {
    after_reset(before_scoring(es, field, up, down), frame_event(es, field, up, down))
}

/// Every intermediate value of the frame is representable.
pub open spec fn frame_fits(es: Seq<Entity>, score: Score, field: Playfield, up: bool, down: bool) -> bool {
    let a = after_input(es, up, down);
    let b = after_move_paddles(a, field.height);
    let c = after_move_ball(b);
    &&& paddle_moves_fit(a)
    &&& ball_move_fits(b)
    &&& ball_velocity_reflectable(c)
    &&& score_has_room(score, frame_event(es, field, up, down))
}

/// Runs one frame in dependency order: keys, paddle motion, ball motion,
/// collisions, scoring, then ball reset and score keeping on the same event.
/// Returns the frame's scoring event.
pub fn run_frame(world: &mut World, score: &mut Score, field: Playfield, up: bool, down: bool) -> (r:
    Option<Scorer>)
    requires
        frame_fits(old(world)@, *old(score), field, up, down),
    ensures
        r == frame_event(old(world)@, field, up, down),
        final(world)@ == frame_entities(old(world)@, field, up, down),
        *final(score) == scored(*old(score), r),
{
    handle_player_input(world, up, down);
    move_paddles(world, field);
    move_ball(world);
    handle_collisions(world);
    let event = detect_scoring(world, field);
    reset_ball(world, event);
    update_score(score, event);
    event
}

/// Every paddle lies strictly inside the band between the gutters.
pub open spec fn paddles_in_band(es: Seq<Entity>, height: i64) -> bool {
    forall|i: int|
        0 <= i < es.len() && (#[trigger] es[i]).kind == Kind::Paddle ==> paddle_y_allowed(
            es[i].position.y as int,
            height as int,
        )
}

/// The table after a run of frames, one per pair of keys `(up, down)`.
pub open spec fn frames(es: Seq<Entity>, field: Playfield, keys: Seq<(bool, bool)>) -> Seq<Entity>
    decreases keys.len(),
{
    if keys.len() == 0 {
        es
    } else {
        let prev = frames(es, field, keys.drop_last());
        frame_entities(prev, field, keys.last().0, keys.last().1)
    }
}

proof fn lemma_frame_keeps_band(es: Seq<Entity>, field: Playfield, up: bool, down: bool)
    requires
        paddles_in_band(es, field.height),
    ensures
        paddles_in_band(frame_entities(es, field, up, down), field.height),
{
    let a = after_input(es, up, down);
    assert(paddles_in_band(a, field.height)) by {
        if crate::world::has_single(es, Role::Player) {
            let i = the_single(es, Role::Player);
            assert forall|j: int| 0 <= j < a.len() && (#[trigger] a[j]).kind == Kind::Paddle implies
                paddle_y_allowed(a[j].position.y as int, field.height as int) by {
                assert(es[j].kind == Kind::Paddle);
            }
        }
    }
    let b = after_move_paddles(a, field.height);
    assert(paddles_in_band(b, field.height)) by {
        assert forall|j: int| 0 <= j < b.len() && (#[trigger] b[j]).kind == Kind::Paddle implies
            paddle_y_allowed(b[j].position.y as int, field.height as int) by {
            assert(a[j].kind == Kind::Paddle);
        }
    }
    let c = after_move_ball(b);
    assert(paddles_in_band(c, field.height)) by {
        if crate::world::has_single(b, Role::Ball) {
            let i = the_single(b, Role::Ball);
            assert forall|j: int| 0 <= j < c.len() && (#[trigger] c[j]).kind == Kind::Paddle implies
                paddle_y_allowed(c[j].position.y as int, field.height as int) by {
                assert(b[j].kind == Kind::Paddle);
            }
        }
    }
    let d = after_collisions(c);
    assert(paddles_in_band(d, field.height)) by {
        if crate::world::has_single(c, Role::Ball) {
            let i = the_single(c, Role::Ball);
            assert forall|j: int| 0 <= j < d.len() && (#[trigger] d[j]).kind == Kind::Paddle implies
                paddle_y_allowed(d[j].position.y as int, field.height as int) by {
                assert(c[j].kind == Kind::Paddle);
            }
        }
    }
    let f = frame_entities(es, field, up, down);
    assert(paddles_in_band(f, field.height)) by {
        if crate::world::has_single(d, Role::Ball) {
            let i = the_single(d, Role::Ball);
            assert forall|j: int| 0 <= j < f.len() && (#[trigger] f[j]).kind == Kind::Paddle implies
                paddle_y_allowed(f[j].position.y as int, field.height as int) by {
                assert(d[j].kind == Kind::Paddle);
            }
        }
    }
}

/// Whatever keys are held over any number of frames, a paddle that starts
/// strictly inside the band between the gutters never leaves it: its distance
/// from the center line stays below `H/2 - GUTTER_HEIGHT - PADDLE_HEIGHT/2`.
pub proof fn lemma_paddles_stay_in_band(es: Seq<Entity>, field: Playfield, keys: Seq<(bool, bool)>)
    requires
        paddles_in_band(es, field.height),
    ensures
        paddles_in_band(frames(es, field, keys), field.height),
    decreases keys.len(),
{
    if keys.len() > 0 {
        lemma_paddles_stay_in_band(es, field, keys.drop_last());
        lemma_frame_keeps_band(frames(es, field, keys.drop_last()), field, keys.last().0, keys.last().1);
    }
}

/// A ball past the right edge gives the opponent exactly one point, and the
/// reset puts it at the origin moving left and up.
pub proof fn lemma_right_exit_scores_ai(es: Seq<Entity>, i: int, score: Score, width: i64)
    requires
        only_at(es, i, Role::Ball),
        es[i].velocity.is_some(),
        2 * es[i].position.x > width,
        score.ai < u32::MAX,
    ensures
        detected(es, width) == Some(Scorer::Ai),
        after_reset(es, detected(es, width))[i].position == (Vec2 { x: 0, y: 0 }),
        after_reset(es, detected(es, width))[i].velocity == Some(Vec2 { x: -1i64, y: 1 }),
        scored(score, detected(es, width)).ai == score.ai + 1,
        scored(score, detected(es, width)).player == score.player,
{
    lemma_the_single(es, i, Role::Ball);
}

/// A ball past the left edge gives the player exactly one point, and the
/// reset puts it at the origin moving right and up.
pub proof fn lemma_left_exit_scores_player(es: Seq<Entity>, i: int, score: Score, width: i64)
    requires
        width >= 0,
        only_at(es, i, Role::Ball),
        es[i].velocity.is_some(),
        2 * es[i].position.x < -width,
        score.player < u32::MAX,
    ensures
        detected(es, width) == Some(Scorer::Player),
        after_reset(es, detected(es, width))[i].position == (Vec2 { x: 0, y: 0 }),
        after_reset(es, detected(es, width))[i].velocity == Some(Vec2 { x: 1, y: 1 }),
        scored(score, detected(es, width)).player == score.player + 1,
        scored(score, detected(es, width)).ai == score.ai,
{
    lemma_the_single(es, i, Role::Ball);
}

/// A frame in which the ball is past either edge, however many other
/// entities it overlaps, adds exactly one point in total; otherwise none.
pub proof fn lemma_one_point_per_crossing(es: Seq<Entity>, i: int, score: Score, width: i64)
    requires
        width >= 0,
        only_at(es, i, Role::Ball),
        score_has_room(score, detected(es, width)),
    ensures
        (2 * es[i].position.x > width || 2 * es[i].position.x < -width) ==> scored(
            score,
            detected(es, width),
        ).ai + scored(score, detected(es, width)).player == score.ai + score.player + 1,
        !(2 * es[i].position.x > width || 2 * es[i].position.x < -width) ==> scored(
            score,
            detected(es, width),
        ) == score,
{
    lemma_the_single(es, i, Role::Ball);
}

/// Projection reads positions alone: two tables with the same positions, in
/// particular one table projected twice, give identical transforms.
pub proof fn lemma_projection_repeatable(es1: Seq<Entity>, es2: Seq<Entity>)
    requires
        es1.len() == es2.len(),
        forall|i: int| 0 <= i < es1.len() ==> (#[trigger] es1[i]).position == es2[i].position,
    ensures
        projection(es1) == projection(es2),
{
    assert(projection(es1) =~= projection(es2));
}

/// A ball at velocity `(vx, vy)` overlapping a paddle, with its shallowest
/// penetration horizontal, leaves the collision step with velocity `(-vx, vy)`.
pub proof fn lemma_paddle_hit_reverses_x(es: Seq<Entity>)
    requires
        es.len() == 2,
        es[0].kind == Kind::Ball,
        es[1].kind == Kind::Paddle,
        es[0].velocity.is_some(),
        es[0].velocity.unwrap().x > i64::MIN,
        boxes_overlap(es[0].position, es[0].shape, es[1].position, es[1].shape),
        crosses_x(es[0].position, es[0].shape, es[1].position, es[1].shape),
        !crosses_y(es[0].position, es[0].shape, es[1].position, es[1].shape) || depth_x(
            es[0].position,
            es[0].shape,
            es[1].position,
            es[1].shape,
        ) <= depth_y(es[0].position, es[0].shape, es[1].position, es[1].shape),
    ensures
        after_collisions(es)[0].velocity == Some(
            Vec2 { x: -es[0].velocity.unwrap().x as i64, y: es[0].velocity.unwrap().y },
        ),
        after_collisions(es)[0].position == es[0].position,
{
    assert(only_at(es, 0, Role::Ball));
    lemma_the_single(es, 0, Role::Ball);
    let b = es[0];
    let v = b.velocity.unwrap();
    assert(bounced(v, b.position, b.shape, es, 0) == v);
    assert(bounced(v, b.position, b.shape, es, 1) == v);
    lemma_horizontal_hit_reflects_x(v, b.position, b.shape, es[1].position, es[1].shape);
}

} // verus!
