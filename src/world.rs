use vstd::prelude::*;
use crate::geometry::{
    Vec2, Playfield, BALL_SIZE, PADDLE_WIDTH, PADDLE_HEIGHT, GUTTER_HEIGHT, PADDLE_INSET,
};

verus! {

/// What an entity is.
#[derive(Clone, Copy, Debug, PartialEq, Eq, Structural)]
pub enum Kind {
    Ball,
    Paddle,
    Gutter,
}

/// One entity of the table with its components; `velocity` is absent on
/// entities that never move.
#[derive(Clone, Copy, Debug, PartialEq, Eq, Structural)]
pub struct Entity {
    pub kind: Kind,
    /// Marks the paddle that the keyboard drives.
    pub player: bool,
    pub position: Vec2,
    pub velocity: Option<Vec2>,
    pub shape: Vec2,
}

/// The entity table; an entity is identified by its index.
pub struct World {
    pub entities: Vec<Entity>,
}

/// Which single entity a system looks for.
#[derive(Clone, Copy, Debug, PartialEq, Eq, Structural)]
pub enum Role {
    /// The ball.
    Ball,
    /// The moving paddle that the keyboard drives.
    Player,
}

pub open spec fn has_role(e: Entity, role: Role) -> bool {
    match role {
        Role::Ball => e.kind == Kind::Ball,
        Role::Player => e.player && e.velocity.is_some(),
    }
}

/// Entity `i` is the one and only entity of `es` with the role.
pub open spec fn only_at(es: Seq<Entity>, i: int, role: Role) -> bool {
    &&& 0 <= i < es.len()
    &&& has_role(es[i], role)
    &&& forall|j: int| 0 <= j < es.len() && j != i ==> !has_role(#[trigger] es[j], role)
}

/// Exactly one entity of `es` has the role.
pub open spec fn has_single(es: Seq<Entity>, role: Role) -> bool {
    exists|i: int| only_at(es, i, role)
}

fn role_matches(e: &Entity, role: Role) -> (r: bool)
    ensures
        r == has_role(*e, role),
{
    match role {
        Role::Ball => match e.kind {
            Kind::Ball => true,
            _ => false,
        },
        Role::Player => e.player && e.velocity.is_some(),
    }
}

impl World {
    pub open spec fn view(&self) -> Seq<Entity> {
        self.entities@
    }

    /// An empty table.
    pub fn new() -> (r: World)
        ensures
            r@.len() == 0,
    {
        World { entities: Vec::new() }
    }

    /// Adds an entity and returns its index.
    pub fn spawn(&mut self, e: Entity) -> (r: usize)
        ensures
            final(self)@ == old(self)@.push(e),
            r == old(self)@.len(),
    {
        let r = self.entities.len();
        self.entities.push(e);
        r
    }

    /// The index of the single entity with the role, or `None` when there is
    /// none or more than one.
    pub fn find_single(&self, role: Role) -> (r: Option<usize>)
        ensures
            r.is_some() == has_single(self@, role),
            r.is_some() ==> only_at(self@, r.unwrap() as int, role),
    {
        let mut found: Option<usize> = None;
        let mut twice = false;
        let mut i: usize = 0;
        while i < self.entities.len()
            invariant
                i <= self@.len(),
                !twice && found.is_none() ==> forall|j: int| 0 <= j < i ==> !has_role(
                    #[trigger] self@[j],
                    role,
                ),
                !twice && found.is_some() ==> found.unwrap() < i && has_role(
                    self@[found.unwrap() as int],
                    role,
                ) && forall|j: int|
                    0 <= j < i && j != found.unwrap() ==> !has_role(#[trigger] self@[j], role),
                twice ==> exists|p: int, q: int|
                    0 <= p < q < self@.len() && has_role(#[trigger] self@[p], role) && has_role(
                        #[trigger] self@[q],
                        role,
                    ),
            decreases self@.len() - i,
        {
            if role_matches(&self.entities[i], role) {
                match found {
                    Some(f) => {
                        if !twice {
                            assert(has_role(self@[f as int], role) && has_role(self@[i as int], role));
                        }
                        twice = true;
                    },
                    None => {
                        found = Some(i);
                    },
                }
            }
            i = i + 1;
        }
        if twice {
            proof {
                let (p, q) = choose|p: int, q: int|
                    0 <= p < q < self@.len() && has_role(#[trigger] self@[p], role) && has_role(
                        #[trigger] self@[q],
                        role,
                    );
                if has_single(self@, role) {
                    let k = choose|k: int| only_at(self@, k, role);
                    assert(p == k || !has_role(self@[p], role));
                    assert(q == k || !has_role(self@[q], role));
                }
            }
            None
        } else {
            proof {
                if found.is_none() && has_single(self@, role) {
                    let k = choose|k: int| only_at(self@, k, role);
                    assert(!has_role(self@[k], role));
                }
                if found.is_some() {
                    assert(only_at(self@, found.unwrap() as int, role));
                }
            }
            found
        }
    }
}

/// The ball with its relaunch velocity `(x, y)`, at the origin.
pub fn ball_bundle(x: i64, y: i64) -> (r: Entity)
    ensures
        r == (Entity {
            kind: Kind::Ball,
            player: false,
            position: Vec2 { x: 0, y: 0 },
            velocity: Some(Vec2 { x, y }),
            shape: Vec2 { x: BALL_SIZE, y: BALL_SIZE },
        }),
{
    Entity {
        kind: Kind::Ball,
        player: false,
        position: Vec2::new(0, 0),
        velocity: Some(Vec2::new(x, y)),
        shape: Vec2::splat(BALL_SIZE),
    }
}

/// A resting paddle centered at `(x, y)`.
pub fn paddle_bundle(x: i64, y: i64) -> (r: Entity)
    ensures
        r == (Entity {
            kind: Kind::Paddle,
            player: false,
            position: Vec2 { x, y },
            velocity: Some(Vec2 { x: 0, y: 0 }),
            shape: Vec2 { x: PADDLE_WIDTH, y: PADDLE_HEIGHT },
        }),
{
    Entity {
        kind: Kind::Paddle,
        player: false,
        position: Vec2::new(x, y),
        velocity: Some(Vec2::new(0, 0)),
        shape: Vec2::new(PADDLE_WIDTH, PADDLE_HEIGHT),
    }
}

/// A gutter of width `w` centered at `(x, y)`.
pub fn gutter_bundle(x: i64, y: i64, w: i64) -> (r: Entity)
    ensures
        r == (Entity {
            kind: Kind::Gutter,
            player: false,
            position: Vec2 { x, y },
            velocity: None,
            shape: Vec2 { x: w, y: GUTTER_HEIGHT },
        }),
{
    Entity {
        kind: Kind::Gutter,
        player: false,
        position: Vec2::new(x, y),
        velocity: None,
        shape: Vec2::new(w, GUTTER_HEIGHT),
    }
}

/// Places the ball at the origin, launched with velocity `(1, 1)`.
pub fn spawn_ball(world: &mut World) -> (r: usize)
    ensures
        final(world)@ == old(world)@.push(
            Entity {
                kind: Kind::Ball,
                player: false,
                position: Vec2 { x: 0, y: 0 },
                velocity: Some(Vec2 { x: 1, y: 1 }),
                shape: Vec2 { x: BALL_SIZE, y: BALL_SIZE },
            },
        ),
        r == old(world)@.len(),
{
    world.spawn(ball_bundle(1, 1))
}

/// Places the player's paddle `PADDLE_INSET` inside the right edge and the
/// other paddle as far inside the left edge, both on the center line.
pub fn spawn_paddles(world: &mut World, field: Playfield)
    requires
        field.width % 2 == 0,
        0 <= field.width <= i64::MAX,
    ensures
        final(world)@ == old(world)@.push(
            Entity {
                kind: Kind::Paddle,
                player: true,
                position: Vec2 { x: (field.width / 2 - PADDLE_INSET) as i64, y: 0 },
                velocity: Some(Vec2 { x: 0, y: 0 }),
                shape: Vec2 { x: PADDLE_WIDTH, y: PADDLE_HEIGHT },
            },
        ).push(
            Entity {
                kind: Kind::Paddle,
                player: false,
                position: Vec2 { x: (-field.width / 2 + PADDLE_INSET) as i64, y: 0 },
                velocity: Some(Vec2 { x: 0, y: 0 }),
                shape: Vec2 { x: PADDLE_WIDTH, y: PADDLE_HEIGHT },
            },
        ),
{
    let half = field.width / 2;
    let mut right = paddle_bundle(half - PADDLE_INSET, 0);
    right.player = true;
    world.spawn(right);
    world.spawn(paddle_bundle(-half + PADDLE_INSET, 0));
}

/// Places the top and bottom gutters along the edges, spanning the full width.
pub fn spawn_gutters(world: &mut World, field: Playfield)
    requires
        field.height % 2 == 0,
        0 <= field.height <= i64::MAX,
    ensures
        final(world)@ == old(world)@.push(
            Entity {
                kind: Kind::Gutter,
                player: false,
                position: Vec2 { x: 0, y: (field.height / 2 - GUTTER_HEIGHT / 2) as i64 },
                velocity: None,
                shape: Vec2 { x: field.width, y: GUTTER_HEIGHT },
            },
        ).push(
            Entity {
                kind: Kind::Gutter,
                player: false,
                position: Vec2 { x: 0, y: (-field.height / 2 + GUTTER_HEIGHT / 2) as i64 },
                velocity: None,
                shape: Vec2 { x: field.width, y: GUTTER_HEIGHT },
            },
        ),
{
    let half = field.height / 2;
    world.spawn(gutter_bundle(0, half - GUTTER_HEIGHT / 2, field.width));
    world.spawn(gutter_bundle(0, -half + GUTTER_HEIGHT / 2, field.width));
}

} // verus!
