//! Behaviour of the active objects: input-to-intent mapping, the AI
//! paddle's easing policy, paddle and ball movement, the collision
//! resolver and the unstick guard.
//!
//! Each system comes in two layers: a kernel on plain component values
//! whose contract pins the arithmetic exactly, and a store-level system
//! that looks its subjects up by label and rewrites the store — a no-op
//! when a required singleton is absent or duplicated.

use vstd::math::abs;
use vstd::pervasive::VecAdditionalExecFns;
use vstd::prelude::*;

use crate::gamestate::{
    count_tag, entity_has_tag, find_single, has_tag, lemma_single_tag_index, safe_entities,
    safe_entity, tag_index, wf_entities, Entity, Tag,
};
use crate::structure::{
    ease_out, exp_easeout, fixed_map, lemma_pow_frac_bounds, map_range, signum, Position, Shape,
    Vec2, Velocity,
    AI_SKILL, BALL_SPEED, HALF_UNIT, MAX_PADDLE_Y, PADDLE_HEIGHT, PADDLE_SPEED, POS_SAFE,
    SHAPE_LIMIT, UNIT, UNSTICK_MIN, VEL_LIMIT, WIN_HEIGHT,
};

verus! {

// ##############################################################
// # Entity rewrites the systems share
// ##############################################################

/// The entity with its vertical velocity intent replaced.
pub open spec fn with_vel_y(e: Entity, y: i64) -> Entity {
    Entity { velocity: Velocity(Vec2 { x: e.velocity.0.x, y: y }), ..e }
}

/// The entity moved to `p`.
pub open spec fn with_position(e: Entity, p: Position) -> Entity {
    Entity { position: p, ..e }
}

// ##############################################################
// # Input reader
// ##############################################################

/// The player paddle's vertical intent for a keyboard state: up wins
/// over down, neither key means rest.
pub open spec fn player_intent_spec(up: bool, down: bool) -> int {
    if up {
        UNIT as int
    } else if down {
        -UNIT
    } else {
        0
    }
}

/// Maps the held arrow keys to the player paddle's vertical intent.
pub fn player_intent(up: bool, down: bool) -> (r: i64)
    ensures
        r == player_intent_spec(up, down),
{
    if up {
        UNIT
    } else if down {
        -UNIT
    } else {
        0
    }
}

/// The store after the input reader ran: the single player paddle's
/// vertical intent set, everything else untouched; the whole store
/// untouched when no or several player paddles exist.
pub open spec fn apply_player_input(s: Seq<Entity>, up: bool, down: bool) -> Seq<Entity> {
    if count_tag(s, Tag::Player) == 1 {
        Seq::new(
            s.len(),
            |i: int|
                if has_tag(s[i], Tag::Player) {
                    with_vel_y(s[i], player_intent_spec(up, down) as i64)
                } else {
                    s[i]
                },
        )
    } else {
        s
    }
}

/// Writes the keyboard state into the player paddle's velocity intent.
pub fn handle_player_input(entities: &mut Vec<Entity>, up: bool, down: bool)
    ensures
        final(entities)@ == apply_player_input(old(entities)@, up, down),
{
    let ghost s0 = entities@;
    match find_single(entities, Tag::Player) {
        Some(i) => {
            let e = entities[i];
            let e2 = Entity {
                velocity: Velocity(Vec2 { x: e.velocity.0.x, y: player_intent(up, down) }),
                ..e
            };
            entities.set(i, e2);
            proof {
                assert forall|j: int|
                    0 <= j < s0.len() && has_tag(s0[j], Tag::Player) implies j == i as int by {
                    lemma_single_tag_index(s0, Tag::Player, j);
                    lemma_single_tag_index(s0, Tag::Player, i as int);
                }
                assert(entities@ =~= apply_player_input(s0, up, down));
            }
        },
        None => {},
    }
}

// ##############################################################
// # AI controller
// ##############################################################

/// The smoothed AI policy: the vertical offset to the ball, as a
/// fraction of the field height clamped to one, eased out by
/// [`AI_SKILL`], with the offset's sign preserved.
pub open spec fn ai_intent_spec(paddle_y: int, ball_y: int) -> int {
    let dy = ball_y - paddle_y;
    let t_raw = abs(dy) * UNIT / (WIN_HEIGHT as int);
    let t = if t_raw > UNIT {
        UNIT as int
    } else {
        t_raw
    };
    if dy < 0 {
        -ease_out(t, AI_SKILL as nat)
    } else {
        ease_out(t, AI_SKILL as nat)
    }
}

/// Computes the AI paddle's vertical intent from its own and the ball's
/// height.
pub fn ai_intent(paddle_y: i64, ball_y: i64) -> (r: i64)
    requires
        -POS_SAFE <= paddle_y <= POS_SAFE,
        -POS_SAFE <= ball_y <= POS_SAFE,
    ensures
        r == ai_intent_spec(paddle_y as int, ball_y as int),
        -UNIT <= r <= UNIT,
{
    let dy: i64 = ball_y - paddle_y;
    let ady: i64 = if dy < 0 {
        -dy
    } else {
        dy
    };
    let t_raw: i64 = ady * UNIT / WIN_HEIGHT;
    proof {
        assert(0 <= (ady * UNIT) as int / (WIN_HEIGHT as int) <= ady * UNIT) by (nonlinear_arith)
            requires
                0 <= ady * UNIT,
                1 <= WIN_HEIGHT,
        ;
    }
    let t: i64 = if t_raw > UNIT {
        UNIT
    } else {
        t_raw
    };
    let mag = exp_easeout(t, AI_SKILL);
    if dy < 0 {
        -mag
    } else {
        mag
    }
}

/// The AI intent is itself an intent: never more than one unit of
/// speed, in either direction.
pub proof fn lemma_ai_intent_bounds(paddle_y: int, ball_y: int)
    ensures
        -UNIT <= ai_intent_spec(paddle_y, ball_y) <= UNIT,
{
    let dy = ball_y - paddle_y;
    let t_raw = abs(dy) * UNIT / (WIN_HEIGHT as int);
    assert(0 <= abs(dy) * UNIT) by (nonlinear_arith)
        requires
            0 <= abs(dy),
    ;
    vstd::arithmetic::div_mod::lemma_div_pos_is_pos(abs(dy) * UNIT, WIN_HEIGHT as int);
    let t = if t_raw > UNIT {
        UNIT as int
    } else {
        t_raw
    };
    lemma_pow_frac_bounds(UNIT - t, AI_SKILL as nat);
}

/// The store after the AI controller ran: the single AI paddle's
/// vertical intent aimed at the single ball; untouched when either
/// singleton is absent or duplicated.
pub open spec fn apply_ai_movement(s: Seq<Entity>) -> Seq<Entity> {
    if count_tag(s, Tag::Ai) == 1 && count_tag(s, Tag::Ball) == 1 {
        let ball_y = s[tag_index(s, Tag::Ball)].position.0.y;
        Seq::new(
            s.len(),
            |i: int|
                if has_tag(s[i], Tag::Ai) {
                    with_vel_y(s[i], ai_intent_spec(s[i].position.0.y as int, ball_y as int) as i64)
                } else {
                    s[i]
                },
        )
    } else {
        s
    }
}

/// Aims the AI paddle's velocity intent at the ball.
pub fn ai_movement(entities: &mut Vec<Entity>)
    requires
        safe_entities(old(entities)@),
    ensures
        final(entities)@ == apply_ai_movement(old(entities)@),
{
    let ghost s0 = entities@;
    let ai_at = find_single(entities, Tag::Ai);
    let ball_at = find_single(entities, Tag::Ball);
    match (ai_at, ball_at) {
        (Some(i), Some(b)) => {
            proof {
                lemma_single_tag_index(s0, Tag::Ball, b as int);
            }
            let ball_y = entities[b].position.0.y;
            let e = entities[i];
            let intent = ai_intent(e.position.0.y, ball_y);
            let e2 = Entity { velocity: Velocity(Vec2 { x: e.velocity.0.x, y: intent }), ..e };
            entities.set(i, e2);
            proof {
                assert forall|j: int|
                    0 <= j < s0.len() && has_tag(s0[j], Tag::Ai) implies j == i as int by {
                    lemma_single_tag_index(s0, Tag::Ai, j);
                    lemma_single_tag_index(s0, Tag::Ai, i as int);
                }
                assert(entities@ =~= apply_ai_movement(s0));
            }
        },
        _ => {},
    }
}

// ##############################################################
// # Paddle mover
// ##############################################################

/// One tick of paddle movement: the intent scaled by [`PADDLE_SPEED`]
/// added to the height — applied only while the result stays strictly
/// inside the margin, else the move is rejected outright (no clamping).
/// The horizontal position never changes.
pub open spec fn move_paddle_spec(p: Position, v: Velocity) -> Position {
    let ny = p.0.y + v.0.y * PADDLE_SPEED;
    if abs(ny) < MAX_PADDLE_Y {
        Position(Vec2 { x: p.0.x, y: ny as i64 })
    } else {
        p
    }
}

/// Integrates one paddle's velocity intent into its position.
pub fn move_paddle(p: Position, v: Velocity) -> (r: Position)
    requires
        -POS_SAFE <= p.0.y <= POS_SAFE,
        -VEL_LIMIT <= v.0.y <= VEL_LIMIT,
    ensures
        r == move_paddle_spec(p, v),
{
    let ny: i64 = p.0.y + v.0.y * PADDLE_SPEED;
    let a: i64 = if ny < 0 {
        -ny
    } else {
        ny
    };
    if a < MAX_PADDLE_Y {
        Position(Vec2 { x: p.0.x, y: ny })
    } else {
        p
    }
}

/// Law: a move that would carry a paddle onto or past the margin is
/// rejected, not clamped — the position comes back unchanged.
pub proof fn lemma_paddle_freeze(p: Position, v: Velocity)
    requires
        abs(p.0.y + v.0.y * PADDLE_SPEED) >= MAX_PADDLE_Y,
    ensures
        move_paddle_spec(p, v) == p,
{
}

/// The store after the paddle mover ran: every paddle moved by its own
/// intent, everything else untouched.
pub open spec fn move_paddles_spec(s: Seq<Entity>) -> Seq<Entity> {
    Seq::new(
        s.len(),
        |i: int|
            if has_tag(s[i], Tag::Paddle) {
                with_position(s[i], move_paddle_spec(s[i].position, s[i].velocity))
            } else {
                s[i]
            },
    )
}

/// Integrates every paddle's velocity intent into its position.
pub fn move_paddles(entities: &mut Vec<Entity>)
    requires
        safe_entities(old(entities)@),
    ensures
        final(entities)@ == move_paddles_spec(old(entities)@),
{
    let ghost s0 = entities@;
    let mut i: usize = 0;
    while i < entities.len()
        invariant
            safe_entities(s0),
            entities@.len() == s0.len(),
            0 <= i <= s0.len(),
            forall|j: int| 0 <= j < i ==> entities@[j] == move_paddles_spec(s0)[j],
            forall|j: int| i <= j < s0.len() ==> entities@[j] == s0[j],
        decreases s0.len() - i,
    {
        let e = entities[i];
        proof {
            assert(safe_entity(s0[i as int]));
            assert(e == s0[i as int]);
        }
        if entity_has_tag(&e, Tag::Paddle) {
            let np = move_paddle(e.position, e.velocity);
            entities.set(i, Entity { position: np, ..e });
        }
        i = i + 1;
    }
    proof {
        assert(entities@ =~= move_paddles_spec(s0));
    }
}

// ##############################################################
// # Ball mover
// ##############################################################

/// One tick of ball movement: the velocity, a true per-tick
/// displacement, added to the position unconditionally.
pub open spec fn move_ball_pos(p: Position, v: Velocity) -> Position {
    Position(Vec2 { x: (p.0.x + v.0.x) as i64, y: (p.0.y + v.0.y) as i64 })
}

/// The store after the ball mover ran: the single ball advanced along
/// its velocity; untouched when no or several balls exist.
pub open spec fn move_ball_spec(s: Seq<Entity>) -> Seq<Entity> {
    if count_tag(s, Tag::Ball) == 1 {
        Seq::new(
            s.len(),
            |i: int|
                if has_tag(s[i], Tag::Ball) {
                    with_position(s[i], move_ball_pos(s[i].position, s[i].velocity))
                } else {
                    s[i]
                },
        )
    } else {
        s
    }
}

/// Advances the ball one tick along its velocity.
pub fn move_ball(entities: &mut Vec<Entity>)
    requires
        wf_entities(old(entities)@),
    ensures
        final(entities)@ == move_ball_spec(old(entities)@),
{
    let ghost s0 = entities@;
    match find_single(entities, Tag::Ball) {
        Some(i) => {
            let e = entities[i];
            let np = Position(
                Vec2 { x: e.position.0.x + e.velocity.0.x, y: e.position.0.y + e.velocity.0.y },
            );
            entities.set(i, Entity { position: np, ..e });
            proof {
                assert forall|j: int|
                    0 <= j < s0.len() && has_tag(s0[j], Tag::Ball) implies j == i as int by {
                    lemma_single_tag_index(s0, Tag::Ball, j);
                    lemma_single_tag_index(s0, Tag::Ball, i as int);
                }
                assert(entities@ =~= move_ball_spec(s0));
            }
        },
        None => {},
    }
}

// ##############################################################
// # Collision resolver
// ##############################################################

/// Which side of a box the ball hit.
#[derive(Clone, Copy, PartialEq, Eq, Structural, Debug)]
pub enum HitSide {
    Left,
    Right,
    Top,
    Bottom,
}

/// `v` clamped to `[lo, hi]`.
pub open spec fn clamp_int(v: int, lo: int, hi: int) -> int {
    if v < lo {
        lo
    } else if v > hi {
        hi
    } else {
        v
    }
}

/// The point of the box (centre `opos`, extents `oshape`) closest to `c`.
pub open spec fn closest_on_box(c: Vec2, opos: Vec2, oshape: Vec2) -> (int, int) {
    let hx = oshape.x as int / 2;
    let hy = oshape.y as int / 2;
    (clamp_int(c.x as int, opos.x - hx, opos.x + hx), clamp_int(c.y as int, opos.y - hy, opos.y + hy))
}

/// Whether the ball's circle strictly overlaps the box.
pub open spec fn overlap_spec(bpos: Vec2, radius: i64, opos: Vec2, oshape: Vec2) -> bool {
    let (cx, cy) = closest_on_box(bpos, opos, oshape);
    let dx = bpos.x - cx;
    let dy = bpos.y - cy;
    dx * dx + dy * dy < radius * radius
}

/// Classifies a hit by the offset from the closest box point to the
/// ball's centre: the horizontal axis dominates (ties included), the
/// sign of the offset picks the side; vertically, a positive offset is
/// a hit on the top.
pub open spec fn classify_spec(dx: int, dy: int) -> HitSide {
    if abs(dx) >= abs(dy) {
        if dx >= 0 {
            HitSide::Right
        } else {
            HitSide::Left
        }
    } else {
        if dy > 0 {
            HitSide::Top
        } else {
            HitSide::Bottom
        }
    }
}

/// Law: whenever the vertical offset strictly dominates the horizontal
/// one and points up, the hit classifies as a top hit — never as a left
/// or right one.
pub proof fn lemma_vertical_hit_is_top(dx: int, dy: int)
    requires
        abs(dy) > abs(dx),
        dy > 0,
    ensures
        classify_spec(dx, dy) == HitSide::Top,
{
}

/// The resolved ball after a hit on the box: the position snapped to an
/// exit point just outside the box along the hit axis (box edge, plus
/// the ball's radius, plus half a unit of margin), and the velocity
/// forced back toward the field's centre on a side hit (horizontal sign
/// forced negative) or truly reflected on a top or bottom hit (vertical
/// sign inverted).
pub open spec fn resolve_spec(bpos: Vec2, radius: i64, bvel: Vec2, opos: Vec2, oshape: Vec2) -> (
    Vec2,
    Vec2,
) {
    let hx = oshape.x as int / 2;
    let hy = oshape.y as int / 2;
    let (cx, cy) = closest_on_box(bpos, opos, oshape);
    let dx = bpos.x - cx;
    let dy = bpos.y - cy;
    match classify_spec(dx, dy) {
        HitSide::Right => (
            Vec2 { x: (opos.x + hx + radius + HALF_UNIT) as i64, y: bpos.y },
            Vec2 { x: (-abs(bvel.x as int)) as i64, y: bvel.y },
        ),
        HitSide::Left => (
            Vec2 { x: (opos.x - hx - radius - HALF_UNIT) as i64, y: bpos.y },
            Vec2 { x: (-abs(bvel.x as int)) as i64, y: bvel.y },
        ),
        HitSide::Top => (
            Vec2 { x: bpos.x, y: (opos.y + hy + radius + HALF_UNIT) as i64 },
            Vec2 { x: bvel.x, y: (-bvel.y) as i64 },
        ),
        HitSide::Bottom => (
            Vec2 { x: bpos.x, y: (opos.y - hy - radius - HALF_UNIT) as i64 },
            Vec2 { x: bvel.x, y: (-bvel.y) as i64 },
        ),
    }
}

/// Law: a ball centred straight above the box, its centre past the top
/// edge, resolves as a top hit: the vertical velocity inverts and the
/// position snaps to the exit point above the box.
pub proof fn lemma_overhead_hit_resolves_top(bpos: Vec2, radius: i64, bvel: Vec2, opos: Vec2,
    oshape: Vec2)
    requires
        bpos.x == opos.x,
        bpos.y > opos.y + oshape.y / 2,
        0 <= oshape.x,
        0 <= oshape.y,
    ensures
        ({
            let (np, nv) = resolve_spec(bpos, radius, bvel, opos, oshape);
            nv.y == (-bvel.y) as i64 && nv.x == bvel.x && np.x == bpos.x && np.y == (opos.y
                + oshape.y / 2 + radius + HALF_UNIT) as i64
        }),
{
    let hx = oshape.x as int / 2;
    let hy = oshape.y as int / 2;
    let (cx, cy) = closest_on_box(bpos, opos, oshape);
    assert(cx == bpos.x as int);
    assert(cy == opos.y + hy);
    assert(bpos.y - cy > 0);
    assert(classify_spec(bpos.x - cx, bpos.y - cy) == HitSide::Top);
}

/// Detects a ball-versus-box overlap and resolves it: the snapped exit
/// position and the bounced velocity, or `None` when the shapes do not
/// overlap.
pub fn collide_ball_box(bpos: Position, radius: i64, bvel: Velocity, opos: Position, oshape: Shape)
    -> (r: Option<(Position, Velocity)>)
    requires
        -POS_SAFE <= bpos.0.x <= POS_SAFE,
        -POS_SAFE <= bpos.0.y <= POS_SAFE,
        -POS_SAFE <= opos.0.x <= POS_SAFE,
        -POS_SAFE <= opos.0.y <= POS_SAFE,
        0 <= radius <= SHAPE_LIMIT,
        0 <= oshape.0.x <= SHAPE_LIMIT,
        0 <= oshape.0.y <= SHAPE_LIMIT,
        -VEL_LIMIT <= bvel.0.x <= VEL_LIMIT,
        -VEL_LIMIT <= bvel.0.y <= VEL_LIMIT,
    ensures
        r == if overlap_spec(bpos.0, radius, opos.0, oshape.0) {
            let (np, nv) = resolve_spec(bpos.0, radius, bvel.0, opos.0, oshape.0);
            Some((Position(np), Velocity(nv)))
        } else {
            None::<(Position, Velocity)>
        },
{
    let hx: i64 = oshape.0.x / 2;
    let hy: i64 = oshape.0.y / 2;
    let cx: i64 = clamp_i64(bpos.0.x, opos.0.x - hx, opos.0.x + hx);
    let cy: i64 = clamp_i64(bpos.0.y, opos.0.y - hy, opos.0.y + hy);
    let dx: i64 = bpos.0.x - cx;
    let dy: i64 = bpos.0.y - cy;
    let dxl: i128 = dx as i128;
    let dyl: i128 = dy as i128;
    let rl: i128 = radius as i128;
    proof {
        assert(-50_000_000_000 <= dxl <= 50_000_000_000 && -50_000_000_000 <= dyl
            <= 50_000_000_000);
        assert(0 <= dxl * dxl <= 2_500_000_000_000_000_000_000 && 0 <= dyl * dyl
            <= 2_500_000_000_000_000_000_000) by (nonlinear_arith)
            requires
                -50_000_000_000 <= dxl <= 50_000_000_000,
                -50_000_000_000 <= dyl <= 50_000_000_000,
        ;
        assert(0 <= rl * rl <= 100_000_000_000_000_000_000) by (nonlinear_arith)
            requires
                0 <= rl <= 10_000_000_000,
        ;
    }
    let d2: i128 = dxl * dxl + dyl * dyl;
    let r2: i128 = rl * rl;
    if d2 < r2 {
        let adx: i64 = if dx < 0 {
            -dx
        } else {
            dx
        };
        let ady: i64 = if dy < 0 {
            -dy
        } else {
            dy
        };
        if adx >= ady {
            let nvx: i64 = if bvel.0.x < 0 {
                bvel.0.x
            } else {
                -bvel.0.x
            };
            let nx: i64 = if dx >= 0 {
                opos.0.x + hx + radius + HALF_UNIT
            } else {
                opos.0.x - hx - radius - HALF_UNIT
            };
            Some(
                (
                    Position(Vec2 { x: nx, y: bpos.0.y }),
                    Velocity(Vec2 { x: nvx, y: bvel.0.y }),
                ),
            )
        } else {
            let ny: i64 = if dy > 0 {
                opos.0.y + hy + radius + HALF_UNIT
            } else {
                opos.0.y - hy - radius - HALF_UNIT
            };
            Some(
                (
                    Position(Vec2 { x: bpos.0.x, y: ny }),
                    Velocity(Vec2 { x: bvel.0.x, y: -bvel.0.y }),
                ),
            )
        }
    } else {
        None
    }
}

/// `v` clamped to `[lo, hi]`.
pub fn clamp_i64(v: i64, lo: i64, hi: i64) -> (r: i64)
    requires
        lo <= hi,
    ensures
        r == clamp_int(v as int, lo as int, hi as int),
{
    if v < lo {
        lo
    } else if v > hi {
        hi
    } else {
        v
    }
}

/// The first entity, in store order, whose box the ball at `bi`
/// overlaps, looking from position `k` on; the ball itself never counts.
pub open spec fn first_hit_from(s: Seq<Entity>, bi: int, k: int) -> Option<int>
    decreases s.len() - k,
{
    if k < 0 || k >= s.len() {
        None
    } else if k != bi && overlap_spec(s[bi].position.0, s[bi].shape.0.x, s[k].position.0,
        s[k].shape.0) {
        Some(k)
    } else {
        first_hit_from(s, bi, k + 1)
    }
}

/// The store after the collision resolver ran: at most one resolution
/// per tick — the single ball resolved against the first entity it
/// overlaps, in store order; untouched when no or several balls exist,
/// or nothing overlaps.
pub open spec fn resolve_collisions_spec(s: Seq<Entity>) -> Seq<Entity> {
    if count_tag(s, Tag::Ball) == 1 {
        let bi = tag_index(s, Tag::Ball);
        match first_hit_from(s, bi, 0) {
            Some(j) => {
                let b = s[bi];
                let (np, nv) = resolve_spec(b.position.0, b.shape.0.x, b.velocity.0,
                    s[j].position.0, s[j].shape.0);
                s.update(bi, Entity { position: Position(np), velocity: Velocity(nv), ..b })
            },
            None => s,
        }
    } else {
        s
    }
}

/// Resolves the ball against the first gutter or paddle it overlaps.
pub fn resolve_ball_collisions(entities: &mut Vec<Entity>)
    requires
        safe_entities(old(entities)@),
    ensures
        final(entities)@ == resolve_collisions_spec(old(entities)@),
{
    let ghost s0 = entities@;
    let bi = match find_single(entities, Tag::Ball) {
        Some(b) => b,
        None => {
            return ;
        },
    };
    proof {
        lemma_single_tag_index(s0, Tag::Ball, bi as int);
        assert(safe_entity(s0[bi as int]));
    }
    let ball = entities[bi];
    let mut k: usize = 0;
    while k < entities.len()
        invariant
            s0 == old(entities)@,
            safe_entities(s0),
            entities@ == s0,
            bi < s0.len(),
            ball == s0[bi as int],
            count_tag(s0, Tag::Ball) == 1,
            tag_index(s0, Tag::Ball) == bi as int,
            0 <= k <= s0.len(),
            first_hit_from(s0, bi as int, 0) == first_hit_from(s0, bi as int, k as int),
        decreases s0.len() - k,
    {
        if k != bi {
            let other = entities[k];
            proof {
                assert(safe_entity(s0[k as int]));
            }
            match collide_ball_box(ball.position, ball.shape.0.x, ball.velocity, other.position,
                other.shape) {
                Some((np, nv)) => {
                    entities.set(bi, Entity { position: np, velocity: nv, ..ball });
                    proof {
                        assert(first_hit_from(s0, bi as int, k as int) == Some(k as int));
                        let b = s0[bi as int];
                        let rs = resolve_spec(b.position.0, b.shape.0.x, b.velocity.0,
                            s0[k as int].position.0, s0[k as int].shape.0);
                        assert(np == Position(rs.0) && nv == Velocity(rs.1));
                        assert(entities@ =~= resolve_collisions_spec(s0));
                    }
                    return ;
                },
                None => {},
            }
        }
        k = k + 1;
    }
}

// ##############################################################
// # Paddle-relative re-aim (engine-event collision variant)
// ##############################################################

/// The re-aim rule for a ball-versus-paddle collision reported by an
/// outside physics step: the hit's distance from the paddle's centre,
/// mapped linearly from `[0, PADDLE_HEIGHT/2]` onto
/// `[BALL_SPEED, 1.5 * BALL_SPEED]`, becomes the vertical speed, and
/// `2 * BALL_SPEED` less that value the horizontal speed — the farther
/// off-centre the hit, the steeper and the slower the exit — each axis
/// keeping the sign it had (zero counting as positive).
pub open spec fn reflect_spec(v: Velocity, paddle_y: int, ball_y: int) -> Velocity {
    let dist = abs(paddle_y - ball_y);
    let scaled = map_range(0, PADDLE_HEIGHT as int / 2, BALL_SPEED as int, 3 * (BALL_SPEED as int)
        / 2, dist as int);
    Velocity(
        Vec2 {
            x: ((2 * BALL_SPEED - scaled) * signum(v.0.x as int)) as i64,
            y: (scaled * signum(v.0.y as int)) as i64,
        },
    )
}

/// Re-aims the ball's velocity after a reported collision with the
/// paddle at `paddle_y`.
pub fn reflect_velocity(v: Velocity, paddle_y: i64, ball_y: i64) -> (r: Velocity)
    requires
        -POS_SAFE <= paddle_y <= POS_SAFE,
        -POS_SAFE <= ball_y <= POS_SAFE,
    ensures
        r == reflect_spec(v, paddle_y as int, ball_y as int),
{
    let dist: i64 = if paddle_y >= ball_y {
        paddle_y - ball_y
    } else {
        ball_y - paddle_y
    };
    let scaled: i64 = fixed_map(0, PADDLE_HEIGHT / 2, BALL_SPEED, BALL_SPEED + BALL_SPEED / 2,
        dist);
    let x: i64 = if v.0.x < 0 {
        -(2 * BALL_SPEED - scaled)
    } else {
        2 * BALL_SPEED - scaled
    };
    let y: i64 = if v.0.y < 0 {
        -scaled
    } else {
        scaled
    };
    Velocity(Vec2 { x: x, y: y })
}

/// Whether a reported collision event pairs the entities at `bi` and
/// `k`, whichever way round the report lists them.
pub open spec fn event_matches(bi: int, k: int, ev: (usize, usize)) -> bool {
    (ev.0 == bi || ev.1 == bi) && (ev.0 == k || ev.1 == k)
}

/// One reported event folded over the store: every paddle the event
/// pairs with the ball re-aims the running velocity in turn, the ball's
/// position staying what it was when the tick began.
pub open spec fn reaim_one_event(
    s: Seq<Entity>,
    bi: int,
    ev: (usize, usize),
    v: Velocity,
    k: int,
) -> Velocity
    decreases s.len() - k,
{
    if k < 0 || k >= s.len() {
        v
    } else {
        let v2 = if has_tag(s[k], Tag::Paddle) && event_matches(bi, k, ev) {
            reflect_spec(v, s[k].position.0.y as int, s[bi].position.0.y as int)
        } else {
            v
        };
        reaim_one_event(s, bi, ev, v2, k + 1)
    }
}

/// The whole tick's worth of reported events folded over the ball's
/// velocity, in report order — the ball may be re-aimed several times
/// when several events pair it with a paddle.
pub open spec fn reaim_events(
    s: Seq<Entity>,
    bi: int,
    events: Seq<(usize, usize)>,
    v: Velocity,
    j: int,
) -> Velocity
    decreases events.len() - j,
{
    if j < 0 || j >= events.len() {
        v
    } else {
        reaim_events(s, bi, events, reaim_one_event(s, bi, events[j], v, 0), j + 1)
    }
}

/// The store after the re-aim system ran on the tick's reported
/// collision events: the single ball's velocity folded through every
/// ball-and-paddle event; untouched when no or several balls exist.
pub open spec fn reflect_ball_spec(s: Seq<Entity>, events: Seq<(usize, usize)>) -> Seq<Entity> {
    if count_tag(s, Tag::Ball) == 1 {
        let bi = tag_index(s, Tag::Ball);
        s.update(bi, Entity { velocity: reaim_events(s, bi, events, s[bi].velocity, 0), ..s[bi] })
    } else {
        s
    }
}

/// Re-aims the ball for every reported collision event that pairs it
/// with a paddle. The events are an outside physics step's report of
/// which entity pairs collided, as store indices.
pub fn reflect_ball(entities: &mut Vec<Entity>, events: &Vec<(usize, usize)>)
    requires
        safe_entities(old(entities)@),
    ensures
        final(entities)@ == reflect_ball_spec(old(entities)@, events@),
{
    let ghost s0 = entities@;
    let bi = match find_single(entities, Tag::Ball) {
        Some(b) => b,
        None => {
            return ;
        },
    };
    proof {
        lemma_single_tag_index(s0, Tag::Ball, bi as int);
        assert(safe_entity(s0[bi as int]));
    }
    let ball = entities[bi];
    let ball_y = ball.position.0.y;
    let mut v = ball.velocity;
    let ghost v0 = ball.velocity;
    let mut j: usize = 0;
    while j < events.len()
        invariant
            safe_entities(s0),
            entities@ == s0,
            bi < s0.len(),
            ball == s0[bi as int],
            ball_y == s0[bi as int].position.0.y,
            0 <= j <= events@.len(),
            reaim_events(s0, bi as int, events@, v0, 0) == reaim_events(s0, bi as int, events@, v,
                j as int),
        decreases events@.len() - j,
    {
        let ev = events[j];
        let mut k: usize = 0;
        let ghost v_enter = v;
        while k < entities.len()
            invariant
                safe_entities(s0),
                entities@ == s0,
                bi < s0.len(),
                ball_y == s0[bi as int].position.0.y,
                0 <= k <= s0.len(),
                j < events@.len(),
                ev == events@[j as int],
                reaim_one_event(s0, bi as int, ev, v_enter, 0) == reaim_one_event(s0, bi as int,
                    ev, v, k as int),
            decreases s0.len() - k,
        {
            let e = entities[k];
            proof {
                assert(safe_entity(s0[k as int]));
            }
            if e.paddle.is_some() && (ev.0 == bi || ev.1 == bi) && (ev.0 == k || ev.1 == k) {
                v = reflect_velocity(v, e.position.0.y, ball_y);
            }
            k = k + 1;
        }
        j = j + 1;
    }
    entities.set(bi, Entity { velocity: v, ..ball });
    proof {
        assert(entities@ =~= reflect_ball_spec(s0, events@));
    }
}

// ##############################################################
// # Unstick guard
// ##############################################################

/// The unstick rule: when both velocity components have sunk below
/// [`UNSTICK_MIN`], each is restored to [`BALL_SPEED`] with its sign
/// kept (zero counting as positive); otherwise the velocity passes
/// through unchanged.
pub open spec fn unstick_spec(v: Velocity) -> Velocity {
    if v.0.x < UNSTICK_MIN && v.0.y < UNSTICK_MIN {
        Velocity(
            Vec2 {
                x: (BALL_SPEED * signum(v.0.x as int)) as i64,
                y: (BALL_SPEED * signum(v.0.y as int)) as i64,
            },
        )
    } else {
        v
    }
}

/// Restores a stalled ball velocity to the nominal speed.
pub fn unstick_velocity(v: Velocity) -> (r: Velocity)
    ensures
        r == unstick_spec(v),
{
    if v.0.x < UNSTICK_MIN && v.0.y < UNSTICK_MIN {
        let x: i64 = if v.0.x < 0 {
            -BALL_SPEED
        } else {
            BALL_SPEED
        };
        let y: i64 = if v.0.y < 0 {
            -BALL_SPEED
        } else {
            BALL_SPEED
        };
        Velocity(Vec2 { x: x, y: y })
    } else {
        v
    }
}

/// Law: when both axis magnitudes lie below the threshold, the guard
/// restores each axis to exactly [`BALL_SPEED`], sign preserved.
pub proof fn lemma_unstick_restores(v: Velocity)
    requires
        abs(v.0.x as int) < UNSTICK_MIN,
        abs(v.0.y as int) < UNSTICK_MIN,
    ensures
        unstick_spec(v).0.x == BALL_SPEED * signum(v.0.x as int),
        unstick_spec(v).0.y == BALL_SPEED * signum(v.0.y as int),
        abs(unstick_spec(v).0.x as int) == BALL_SPEED,
        abs(unstick_spec(v).0.y as int) == BALL_SPEED,
{
}

/// The store after the unstick guard ran: the single ball's velocity
/// passed through the unstick rule; untouched when no or several balls
/// exist.
pub open spec fn unstick_ball_spec(s: Seq<Entity>) -> Seq<Entity> {
    if count_tag(s, Tag::Ball) == 1 {
        Seq::new(
            s.len(),
            |i: int|
                if has_tag(s[i], Tag::Ball) {
                    Entity { velocity: unstick_spec(s[i].velocity), ..s[i] }
                } else {
                    s[i]
                },
        )
    } else {
        s
    }
}

/// Applies the unstick rule to the ball.
pub fn unstick_ball(entities: &mut Vec<Entity>)
    ensures
        final(entities)@ == unstick_ball_spec(old(entities)@),
{
    let ghost s0 = entities@;
    match find_single(entities, Tag::Ball) {
        Some(i) => {
            let e = entities[i];
            let nv = unstick_velocity(e.velocity);
            entities.set(i, Entity { velocity: nv, ..e });
            proof {
                assert forall|j: int|
                    0 <= j < s0.len() && has_tag(s0[j], Tag::Ball) implies j == i as int by {
                    lemma_single_tag_index(s0, Tag::Ball, j);
                    lemma_single_tag_index(s0, Tag::Ball, i as int);
                }
                assert(entities@ =~= unstick_ball_spec(s0));
            }
        },
        None => {},
    }
}

} // verus!
