use vstd::prelude::*;
use crate::geometry::{Vec2, Playfield, paddle_y_allowed, BALL_SPEED, PADDLE_SPEED, PADDLE_KEY_SPEED};
use crate::collision::{collide, collision_of, reflect, Collision};
use crate::world::{World, Entity, Kind, Role, has_single, only_at};

verus! {

/// The side that won a point.
#[derive(Clone, Copy, Debug, PartialEq, Eq, Structural)]
pub enum Scorer {
    Ai,
    Player,
}

/// Points won by each side.
#[derive(Clone, Copy, Debug, PartialEq, Eq, Structural)]
pub struct Score {
    pub player: u32,
    pub ai: u32,
}

impl Score {
    pub fn new() -> (r: Score)
        ensures
            r.player == 0,
            r.ai == 0,
    {
        Score { player: 0, ai: 0 }
    }
}

/// A render-space transform: a position with a depth.
#[derive(Clone, Copy, Debug, PartialEq, Eq, Structural)]
pub struct Transform {
    pub x: i64,
    pub y: i64,
    pub z: i64,
}

/// Two entities with the role cannot both be the only one.
pub proof fn lemma_only_unique(es: Seq<Entity>, i: int, j: int, role: Role)
    requires
        only_at(es, i, role),
        only_at(es, j, role),
    ensures
        i == j,
{
    if i != j {
        assert(!crate::world::has_role(es[j], role));
    }
}

/// The index of the single entity with the role.
pub open spec fn the_single(es: Seq<Entity>, role: Role) -> int {
    choose|i: int| only_at(es, i, role)
}

/// The only entity with the role is the one `the_single` names.
pub proof fn lemma_the_single(es: Seq<Entity>, i: int, role: Role)
    requires
        only_at(es, i, role),
    ensures
        the_single(es, role) == i,
{
    assert(has_single(es, role));
    lemma_only_unique(es, i, the_single(es, role), role);
}

pub open spec fn with_position(e: Entity, p: Vec2) -> Entity {
    Entity { kind: e.kind, player: e.player, position: p, velocity: e.velocity, shape: e.shape }
}

pub open spec fn with_velocity(e: Entity, v: Vec2) -> Entity {
    Entity { kind: e.kind, player: e.player, position: e.position, velocity: Some(v), shape: e.shape }
}

/// `p + v * k`, componentwise.
pub open spec fn moved(p: Vec2, v: Vec2, k: int) -> Vec2 {
    Vec2 { x: (p.x + v.x * k) as i64, y: (p.y + v.y * k) as i64 }
}

/// Whether `p + v * k` is representable.
pub open spec fn move_fits(p: Vec2, v: Vec2, k: int) -> bool {
    i64::MIN <= p.x + v.x * k <= i64::MAX && i64::MIN <= p.y + v.y * k <= i64::MAX
}

// ---------------------------------------------------------------- input

/// The vertical velocity asked for by the keys; "up" wins when both are held.
pub open spec fn key_velocity_y(up: bool, down: bool) -> i64 {
    if up {
        PADDLE_KEY_SPEED
    } else if down {
        (-PADDLE_KEY_SPEED) as i64
    } else {
        0
    }
}

/// The table after the keys set the player's paddle's vertical velocity.
pub open spec fn after_input(es: Seq<Entity>, up: bool, down: bool) -> Seq<Entity> {
    if has_single(es, Role::Player) {
        let i = the_single(es, Role::Player);
        es.update(
            i,
            with_velocity(es[i], Vec2 { x: es[i].velocity.unwrap().x, y: key_velocity_y(up, down) }),
        )
    } else {
        es
    }
}

/// Sets the vertical velocity of the player's paddle from the keys held.
pub fn handle_player_input(world: &mut World, up: bool, down: bool)
    ensures
        final(world)@ == after_input(old(world)@, up, down),
{
    if let Some(i) = world.find_single(Role::Player) {
        proof {
            lemma_the_single(world@, i as int, Role::Player);
        }
        let mut e = world.entities[i];
        let v = e.velocity.unwrap();
        let y = if up {
            PADDLE_KEY_SPEED
        } else if down {
            -PADDLE_KEY_SPEED
        } else {
            0
        };
        e.velocity = Some(Vec2::new(v.x, y));
        world.entities.set(i, e);
    }
}

// ---------------------------------------------------------------- motion

/// The table after the ball advances by its velocity times `BALL_SPEED`.
pub open spec fn after_move_ball(es: Seq<Entity>) -> Seq<Entity> {
    if has_single(es, Role::Ball) && es[the_single(es, Role::Ball)].velocity.is_some() {
        let i = the_single(es, Role::Ball);
        es.update(i, with_position(es[i], moved(es[i].position, es[i].velocity.unwrap(), BALL_SPEED as int)))
    } else {
        es
    }
}

/// The ball's next position is representable.
pub open spec fn ball_move_fits(es: Seq<Entity>) -> bool {
    forall|i: int|
        0 <= i < es.len() && (#[trigger] es[i]).kind == Kind::Ball && es[i].velocity.is_some()
            ==> move_fits(es[i].position, es[i].velocity.unwrap(), BALL_SPEED as int)
}

/// Advances the ball by its velocity times `BALL_SPEED`, unclamped.
pub fn move_ball(world: &mut World)
    requires
        ball_move_fits(old(world)@),
    ensures
        final(world)@ == after_move_ball(old(world)@),
{
    if let Some(i) = world.find_single(Role::Ball) {
        proof {
            lemma_the_single(world@, i as int, Role::Ball);
        }
        let mut e = world.entities[i];
        if let Some(v) = e.velocity {
            let x = e.position.x as i128 + v.x as i128 * BALL_SPEED as i128;
            let y = e.position.y as i128 + v.y as i128 * BALL_SPEED as i128;
            e.position = Vec2::new(x as i64, y as i64);
            world.entities.set(i, e);
        }
    }
}

/// One paddle after a frame of motion: it takes its candidate position only
/// where that lies strictly inside the band; otherwise it stays put.
pub open spec fn paddle_moved(e: Entity, height: i64) -> Entity {
    if e.kind == Kind::Paddle && e.velocity.is_some() {
        let c = moved(e.position, e.velocity.unwrap(), PADDLE_SPEED as int);
        if paddle_y_allowed(c.y as int, height as int) {
            with_position(e, c)
        } else {
            e
        }
    } else {
        e
    }
}

pub open spec fn after_move_paddles(es: Seq<Entity>, height: i64) -> Seq<Entity> {
    Seq::new(es.len(), |i: int| paddle_moved(es[i], height))
}

/// Every paddle's candidate position is representable.
pub open spec fn paddle_moves_fit(es: Seq<Entity>) -> bool {
    forall|i: int|
        0 <= i < es.len() && (#[trigger] es[i]).kind == Kind::Paddle && es[i].velocity.is_some()
            ==> move_fits(es[i].position, es[i].velocity.unwrap(), PADDLE_SPEED as int)
}

/// Advances each paddle by its velocity times `PADDLE_SPEED`, rejecting any
/// move that would leave the band between the gutters.
pub fn move_paddles(world: &mut World, field: Playfield)
    requires
        paddle_moves_fit(old(world)@),
    ensures
        final(world)@ == after_move_paddles(old(world)@, field.height),
{
    let ghost es0 = world@;
    let mut i: usize = 0;
    while i < world.entities.len()
        invariant
            world@.len() == es0.len(),
            0 <= i <= es0.len(),
            paddle_moves_fit(es0),
            forall|j: int| 0 <= j < i ==> world@[j] == paddle_moved(#[trigger] es0[j], field.height),
            forall|j: int| i <= j < es0.len() ==> world@[j] == #[trigger] es0[j],
        decreases es0.len() - i,
    {
        let e = world.entities[i];
        assert(e == es0[i as int]);
        match (e.kind, e.velocity) {
            (Kind::Paddle, Some(v)) => {
                let cx = e.position.x as i128 + v.x as i128 * PADDLE_SPEED as i128;
                let cy = e.position.y as i128 + v.y as i128 * PADDLE_SPEED as i128;
                let c = Vec2::new(cx as i64, cy as i64);
                let a: i128 = if c.y < 0 { -(c.y as i128) } else { c.y as i128 };
                let limit2: i128 = field.height as i128 - 2 * crate::geometry::GUTTER_HEIGHT as i128
                    - crate::geometry::PADDLE_HEIGHT as i128;
                if 2 * a < limit2 {
                    let mut n = e;
                    n.position = c;
                    world.entities.set(i, n);
                }
            },
            _ => {},
        }
        i = i + 1;
    }
    assert(world@ =~= after_move_paddles(es0, field.height));
}

// ---------------------------------------------------------------- collisions

/// The ball velocity `v` after reflecting off each non-ball entity among the
/// first `n` of `es`, in order, tested against the ball box at `p` of size `s`.
pub open spec fn bounced(v: Vec2, p: Vec2, s: Vec2, es: Seq<Entity>, n: int) -> Vec2
    decreases n,
{
    if n <= 0 {
        v
    } else {
        let prev = bounced(v, p, s, es, n - 1);
        let e = es[n - 1];
        if e.kind != Kind::Ball {
            reflect(prev, collision_of(p, s, e.position, e.shape))
        } else {
            prev
        }
    }
}

/// The table after the ball has reflected off everything it overlaps.
pub open spec fn after_collisions(es: Seq<Entity>) -> Seq<Entity> {
    if has_single(es, Role::Ball) && es[the_single(es, Role::Ball)].velocity.is_some() {
        let i = the_single(es, Role::Ball);
        let b = es[i];
        es.update(i, with_velocity(b, bounced(b.velocity.unwrap(), b.position, b.shape, es, es.len() as int)))
    } else {
        es
    }
}

/// No velocity component of the ball is `i64::MIN`, so reflection stays representable.
pub open spec fn ball_velocity_reflectable(es: Seq<Entity>) -> bool {
    forall|i: int|
        0 <= i < es.len() && (#[trigger] es[i]).kind == Kind::Ball && es[i].velocity.is_some()
            ==> es[i].velocity.unwrap().x > i64::MIN && es[i].velocity.unwrap().y > i64::MIN
}

proof fn lemma_bounced_reflectable(v: Vec2, p: Vec2, s: Vec2, es: Seq<Entity>, n: int)
    requires
        v.x > i64::MIN,
        v.y > i64::MIN,
        n <= es.len(),
    ensures
        bounced(v, p, s, es, n).x > i64::MIN,
        bounced(v, p, s, es, n).y > i64::MIN,
    decreases n,
{
    if n > 0 {
        lemma_bounced_reflectable(v, p, s, es, n - 1);
    }
}

/// Reverses the ball's velocity along the axis of each side it has struck,
/// testing it against every other entity in table order. No position changes.
pub fn handle_collisions(world: &mut World)
    requires
        ball_velocity_reflectable(old(world)@),
    ensures
        final(world)@ == after_collisions(old(world)@),
{
    if let Some(bi) = world.find_single(Role::Ball) {
        proof {
            lemma_the_single(world@, bi as int, Role::Ball);
        }
        let ball = world.entities[bi];
        if let Some(v0) = ball.velocity {
            let mut v = v0;
            let mut j: usize = 0;
            while j < world.entities.len()
                invariant
                    0 <= j <= world@.len(),
                    world@[bi as int] == ball,
                    bi < world@.len(),
                    v0.x > i64::MIN && v0.y > i64::MIN,
                    v == bounced(v0, ball.position, ball.shape, world@, j as int),
                decreases world@.len() - j,
            {
                proof {
                    lemma_bounced_reflectable(v0, ball.position, ball.shape, world@, j as int);
                }
                let e = world.entities[j];
                match e.kind {
                    Kind::Ball => {},
                    _ => {
                        match collide(ball.position, ball.shape, e.position, e.shape) {
                            Some(Collision::Left) | Some(Collision::Right) => {
                                v = Vec2::new(-v.x, v.y);
                            },
                            Some(Collision::Top) | Some(Collision::Bottom) => {
                                v = Vec2::new(v.x, -v.y);
                            },
                            _ => {},
                        }
                    },
                }
                j = j + 1;
            }
            let mut b = ball;
            b.velocity = Some(v);
            world.entities.set(bi, b);
        }
    }
}

// ---------------------------------------------------------------- scoring

/// The point scored by a ball at horizontal position `x`: past the right
/// edge the opponent scores, past the left edge the player does.
pub open spec fn scoring_of(x: i64, width: i64) -> Option<Scorer> {
    if 2 * x > width {
        Some(Scorer::Ai)
    } else if 2 * x < -width {
        Some(Scorer::Player)
    } else {
        None
    }
}

/// The scoring event of a frame; at most one.
pub open spec fn detected(es: Seq<Entity>, width: i64) -> Option<Scorer> {
    if has_single(es, Role::Ball) {
        scoring_of(es[the_single(es, Role::Ball)].position.x, width)
    } else {
        None
    }
}

/// Reports which side, if any, has just scored: the ball has left the
/// playfield past its right or left edge. Nothing is changed.
pub fn detect_scoring(world: &World, field: Playfield) -> (r: Option<Scorer>)
    ensures
        r == detected(world@, field.width),
{
    if let Some(i) = world.find_single(Role::Ball) {
        proof {
            lemma_the_single(world@, i as int, Role::Ball);
        }
        let x = world.entities[i].position.x as i128;
        if 2 * x > field.width as i128 {
            Some(Scorer::Ai)
        } else if 2 * x < -(field.width as i128) {
            Some(Scorer::Player)
        } else {
            None
        }
    } else {
        None
    }
}

/// The ball's relaunch velocity: toward the side that conceded.
pub open spec fn relaunch(s: Scorer) -> Vec2 {
    match s {
        Scorer::Ai => Vec2 { x: -1i64, y: 1 },
        Scorer::Player => Vec2 { x: 1, y: 1 },
    }
}

/// The table after the ball is reset for the event.
pub open spec fn after_reset(es: Seq<Entity>, event: Option<Scorer>) -> Seq<Entity> {
    if event.is_some() && has_single(es, Role::Ball) && es[the_single(es, Role::Ball)].velocity.is_some() {
        let i = the_single(es, Role::Ball);
        es.update(i, with_velocity(with_position(es[i], Vec2 { x: 0, y: 0 }), relaunch(event.unwrap())))
    } else {
        es
    }
}

/// On a scoring event, puts the ball back at the origin and relaunches it
/// toward the side that conceded.
pub fn reset_ball(world: &mut World, event: Option<Scorer>)
    ensures
        final(world)@ == after_reset(old(world)@, event),
{
    if let Some(s) = event {
        if let Some(i) = world.find_single(Role::Ball) {
            proof {
                lemma_the_single(world@, i as int, Role::Ball);
            }
            let mut e = world.entities[i];
            if e.velocity.is_some() {
                e.position = Vec2::new(0, 0);
                e.velocity = match s {
                    Scorer::Ai => Some(Vec2::new(-1, 1)),
                    Scorer::Player => Some(Vec2::new(1, 1)),
                };
                world.entities.set(i, e);
            }
        }
    }
}

/// The score after the event.
pub open spec fn scored(score: Score, event: Option<Scorer>) -> Score {
    match event {
        Some(Scorer::Ai) => Score { player: score.player, ai: (score.ai + 1) as u32 },
        Some(Scorer::Player) => Score { player: (score.player + 1) as u32, ai: score.ai },
        None => score,
    }
}

/// The counter that the event raises has room for one more point.
pub open spec fn score_has_room(score: Score, event: Option<Scorer>) -> bool {
    match event {
        Some(Scorer::Ai) => score.ai < u32::MAX,
        Some(Scorer::Player) => score.player < u32::MAX,
        None => true,
    }
}

/// Adds one point to the side that scored.
pub fn update_score(score: &mut Score, event: Option<Scorer>)
    requires
        score_has_room(*old(score), event),
    ensures
        *final(score) == scored(*old(score), event),
{
    match event {
        Some(Scorer::Ai) => score.ai = score.ai + 1,
        Some(Scorer::Player) => score.player = score.player + 1,
        None => {},
    }
}

// ---------------------------------------------------------------- projection

pub open spec fn transform_of(e: Entity) -> Transform {
    Transform { x: e.position.x, y: e.position.y, z: 0 }
}

pub open spec fn projection(es: Seq<Entity>) -> Seq<Transform> {
    Seq::new(es.len(), |i: int| transform_of(es[i]))
}

/// The render transform of each entity, in table order, at depth 0.
pub fn project_positions(world: &World) -> (r: Vec<Transform>)
    ensures
        r@ == projection(world@),
{
    let mut r: Vec<Transform> = Vec::new();
    let mut i: usize = 0;
    while i < world.entities.len()
        invariant
            0 <= i <= world@.len(),
            r@ =~= projection(world@).take(i as int),
        decreases world@.len() - i,
    {
        let p = world.entities[i].position;
        r.push(Transform { x: p.x, y: p.y, z: 0 });
        i = i + 1;
        assert(r@ =~= projection(world@).take(i as int));
    }
    assert(r@ =~= projection(world@));
    r
}

} // verus!
