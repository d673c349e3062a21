//! The entity store and the composed simulation tick.
//!
//! Entities are rows of a homogeneous store: each carries optional role
//! labels and a position, velocity and shape. Systems look their subjects
//! up by label; a lookup that finds no match, or more than one, makes the
//! system skip its work for that tick rather than fail.

use vstd::prelude::*;

use crate::actors::{
    ai_movement, apply_ai_movement, apply_player_input, handle_player_input,
    lemma_ai_intent_bounds, move_ball, move_ball_spec, move_paddles, move_paddles_spec,
    resolve_ball_collisions, resolve_collisions_spec, unstick_ball, unstick_ball_spec,
};
use crate::score::{
    detect_scoring, detect_spec, format_score, reset_ball, reset_spec, score_text, update_score,
    update_score_spec, update_scoreboard,
};
use crate::structure::{
    Ai, Ball, BallBundle, Gutter, GutterBundle, Paddle, PaddleBundle, Player, Position, Score,
    ScoreEvent, Scoreboard, Scorer, Shape, Vec2, Velocity, BALL_SIZE, GUTTER_HEIGHT,
    MAX_PADDLE_Y, PADDLE_HEIGHT, PADDLE_WIDTH, POS_LIMIT, POS_SAFE, SHAPE_LIMIT, UNIT, VEL_LIMIT,
    WIN_HEIGHT, WIN_WIDTH,
};

verus! {

// ##############################################################
// # Entities and labels
// ##############################################################

/// A row of the entity store: every label the game uses, present or
/// absent, and the three generic components.
#[derive(Clone, Copy, PartialEq, Eq, Structural, Debug)]
pub struct Entity {
    pub ball: Option<Ball>,
    pub paddle: Option<Paddle>,
    pub player: Option<Player>,
    pub ai: Option<Ai>,
    pub gutter: Option<Gutter>,
    pub position: Position,
    pub velocity: Velocity,
    pub shape: Shape,
}

/// A label a system can query the store by.
#[derive(Clone, Copy, PartialEq, Eq, Structural, Debug)]
pub enum Tag {
    Ball,
    Paddle,
    Player,
    Ai,
    Gutter,
}

/// Whether the entity carries the label.
pub open spec fn has_tag(e: Entity, t: Tag) -> bool {
    match t {
        Tag::Ball => e.ball is Some,
        Tag::Paddle => e.paddle is Some,
        Tag::Player => e.player is Some,
        Tag::Ai => e.ai is Some,
        Tag::Gutter => e.gutter is Some,
    }
}

/// Whether the entity carries the label.
pub fn entity_has_tag(e: &Entity, t: Tag) -> (b: bool)
    ensures
        b == has_tag(*e, t),
{
    match t {
        Tag::Ball => e.ball.is_some(),
        Tag::Paddle => e.paddle.is_some(),
        Tag::Player => e.player.is_some(),
        Tag::Ai => e.ai.is_some(),
        Tag::Gutter => e.gutter.is_some(),
    }
}

/// How many entities of the store carry the label.
pub open spec fn count_tag(s: Seq<Entity>, t: Tag) -> nat
    decreases s.len(),
{
    if s.len() == 0 {
        0
    } else {
        count_tag(s.drop_last(), t) + if has_tag(s.last(), t) {
            1nat
        } else {
            0nat
        }
    }
}

/// The index of an entity that carries the label — the only one, when
/// exactly one does.
pub open spec fn tag_index(s: Seq<Entity>, t: Tag) -> int {
    choose|i: int| 0 <= i < s.len() && has_tag(s[i], t)
}

/// A labelled entity makes the label's count positive.
pub proof fn lemma_tagged_count_pos(s: Seq<Entity>, t: Tag, i: int)
    requires
        0 <= i < s.len(),
        has_tag(s[i], t),
    ensures
        count_tag(s, t) >= 1,
    decreases s.len(),
{
    if i < s.len() - 1 {
        lemma_tagged_count_pos(s.drop_last(), t, i);
    }
}

/// Two distinctly placed labelled entities make the count at least two.
pub proof fn lemma_two_tagged_count_ge_two(s: Seq<Entity>, t: Tag, i: int, j: int)
    requires
        0 <= i < j < s.len(),
        has_tag(s[i], t),
        has_tag(s[j], t),
    ensures
        count_tag(s, t) >= 2,
    decreases s.len(),
{
    if j == s.len() - 1 {
        lemma_tagged_count_pos(s.drop_last(), t, i);
    } else {
        lemma_two_tagged_count_ge_two(s.drop_last(), t, i, j);
    }
}

/// When exactly one entity carries the label, any labelled index is
/// [`tag_index`].
pub proof fn lemma_single_tag_index(s: Seq<Entity>, t: Tag, i: int)
    requires
        count_tag(s, t) == 1,
        0 <= i < s.len(),
        has_tag(s[i], t),
    ensures
        tag_index(s, t) == i,
        0 <= tag_index(s, t) < s.len(),
        has_tag(s[tag_index(s, t)], t),
{
    let j = tag_index(s, t);
    assert(0 <= j < s.len() && has_tag(s[j], t)) by {
        assert(0 <= i < s.len() && has_tag(s[i], t));
    }
    if i < j {
        lemma_two_tagged_count_ge_two(s, t, i, j);
    } else if j < i {
        lemma_two_tagged_count_ge_two(s, t, j, i);
    }
}

/// A positive count names a labelled entity.
pub proof fn lemma_count_pos_exists(s: Seq<Entity>, t: Tag)
    requires
        count_tag(s, t) >= 1,
    ensures
        exists|i: int| 0 <= i < s.len() && has_tag(s[i], t),
    decreases s.len(),
{
    if has_tag(s.last(), t) {
        assert(0 <= s.len() - 1 < s.len() && has_tag(s[s.len() - 1], t));
    } else {
        lemma_count_pos_exists(s.drop_last(), t);
        let i = choose|i: int| 0 <= i < s.drop_last().len() && has_tag(s.drop_last()[i], t);
        assert(0 <= i < s.len() && has_tag(s[i], t));
    }
}

/// With a positive count, [`tag_index`] points at a labelled entity.
pub proof fn lemma_tag_index_valid(s: Seq<Entity>, t: Tag)
    requires
        count_tag(s, t) >= 1,
    ensures
        0 <= tag_index(s, t) < s.len(),
        has_tag(s[tag_index(s, t)], t),
{
    lemma_count_pos_exists(s, t);
}

/// Two stores whose rows carry the label in the same places count it
/// the same.
pub proof fn lemma_count_tag_pointwise(s1: Seq<Entity>, s2: Seq<Entity>, t: Tag)
    requires
        s1.len() == s2.len(),
        forall|i: int| 0 <= i < s1.len() ==> has_tag(s1[i], t) == has_tag(s2[i], t),
    ensures
        count_tag(s1, t) == count_tag(s2, t),
    decreases s1.len(),
{
    if s1.len() > 0 {
        assert(has_tag(s1.last(), t) == has_tag(s2.last(), t));
        assert forall|i: int|
            0 <= i < s1.drop_last().len() implies has_tag(s1.drop_last()[i], t) == has_tag(
            s2.drop_last()[i], t) by {
            assert(has_tag(s1[i], t) == has_tag(s2[i], t));
        }
        lemma_count_tag_pointwise(s1.drop_last(), s2.drop_last(), t);
    }
}

/// Looks the label up in the store: the index of the one entity that
/// carries it, or `None` when none or several do.
pub fn find_single(entities: &Vec<Entity>, t: Tag) -> (r: Option<usize>)
    ensures
        match r {
            Some(i) => count_tag(entities@, t) == 1 && i < entities@.len() && has_tag(
                entities@[i as int],
                t,
            ),
            None => count_tag(entities@, t) != 1,
        },
{
    let ghost s = entities@;
    let mut found: Option<usize> = None;
    let mut count: usize = 0;
    let mut i: usize = 0;
    while i < entities.len()
        invariant
            s == entities@,
            0 <= i <= s.len(),
            count == count_tag(s.take(i as int), t),
            count <= i,
            match found {
                Some(j) => count >= 1 && j < i && has_tag(s[j as int], t),
                None => count == 0,
            },
        decreases s.len() - i,
    {
        proof {
            assert(s.take(i + 1).drop_last() =~= s.take(i as int));
            assert(s.take(i + 1).last() == s[i as int]);
        }
        if entity_has_tag(&entities[i], t) {
            if found.is_none() {
                found = Some(i);
            }
            count = count + 1;
        }
        i = i + 1;
    }
    proof {
        assert(s.take(s.len() as int) =~= s);
    }
    if count == 1 {
        found
    } else {
        None
    }
}

// ##############################################################
// # Well-formedness: the bounds the systems' arithmetic needs
// ##############################################################

/// Both components of the vector lie within `limit`.
pub open spec fn vec2_within(v: Vec2, limit: i64) -> bool {
    -limit <= v.x <= limit && -limit <= v.y <= limit
}

/// The bounds an entity meets at the top of a tick: position, velocity
/// and shape small enough that one tick of arithmetic stays inside `i64`.
pub open spec fn wf_entity(e: Entity) -> bool {
    &&& vec2_within(e.position.0, POS_LIMIT)
    &&& vec2_within(e.velocity.0, VEL_LIMIT)
    &&& 0 <= e.shape.0.x <= SHAPE_LIMIT
    &&& 0 <= e.shape.0.y <= SHAPE_LIMIT
}

/// Every entity of the store is well-formed.
pub open spec fn wf_entities(s: Seq<Entity>) -> bool {
    forall|i: int| 0 <= i < s.len() ==> wf_entity(s[i])
}

/// The looser position bound the collision resolver accepts: entities
/// that were well-formed at the top of the tick still meet it after the
/// movers ran.
pub open spec fn safe_entity(e: Entity) -> bool {
    &&& vec2_within(e.position.0, POS_SAFE)
    &&& vec2_within(e.velocity.0, VEL_LIMIT)
    &&& 0 <= e.shape.0.x <= SHAPE_LIMIT
    &&& 0 <= e.shape.0.y <= SHAPE_LIMIT
}

/// Every entity of the store meets the loose bounds.
pub open spec fn safe_entities(s: Seq<Entity>) -> bool {
    forall|i: int| 0 <= i < s.len() ==> safe_entity(s[i])
}

/// Well-formedness is closed under the loosening.
pub proof fn lemma_wf_safe(s: Seq<Entity>)
    requires
        wf_entities(s),
    ensures
        safe_entities(s),
{
}

/// The input reader leaves the store well-formed: it only writes a
/// one-unit intent.
pub proof fn lemma_input_wf(s: Seq<Entity>, up: bool, down: bool)
    requires
        wf_entities(s),
    ensures
        wf_entities(apply_player_input(s, up, down)),
{
    let s2 = apply_player_input(s, up, down);
    assert forall|i: int| 0 <= i < s2.len() implies wf_entity(s2[i]) by {
        assert(wf_entity(s[i]));
    }
}

/// The AI controller leaves the store well-formed: it only writes a
/// bounded intent.
pub proof fn lemma_ai_wf(s: Seq<Entity>)
    requires
        wf_entities(s),
    ensures
        wf_entities(apply_ai_movement(s)),
{
    let s2 = apply_ai_movement(s);
    assert forall|i: int| 0 <= i < s2.len() implies wf_entity(s2[i]) by {
        assert(wf_entity(s[i]));
        if count_tag(s, Tag::Ai) == 1 && count_tag(s, Tag::Ball) == 1 && has_tag(s[i], Tag::Ai) {
            let ball_y = s[tag_index(s, Tag::Ball)].position.0.y;
            lemma_ai_intent_bounds(s[i].position.0.y as int, ball_y as int);
        }
    }
}

/// The paddle mover leaves the store well-formed: a move lands strictly
/// inside the margin or does not happen.
pub proof fn lemma_paddles_wf(s: Seq<Entity>)
    requires
        wf_entities(s),
    ensures
        wf_entities(move_paddles_spec(s)),
{
    let s2 = move_paddles_spec(s);
    assert forall|i: int| 0 <= i < s2.len() implies wf_entity(s2[i]) by {
        assert(wf_entity(s[i]));
    }
}

/// The ball mover leaves the store within the loose mid-tick bounds:
/// one tick of a bounded velocity on a bounded position.
pub proof fn lemma_ball_safe(s: Seq<Entity>)
    requires
        wf_entities(s),
    ensures
        safe_entities(move_ball_spec(s)),
{
    let s2 = move_ball_spec(s);
    assert forall|i: int| 0 <= i < s2.len() implies safe_entity(s2[i]) by {
        assert(wf_entity(s[i]));
    }
}

/// Checks the store against [`wf_entities`].
pub fn entities_wf(entities: &Vec<Entity>) -> (b: bool)
    ensures
        b == wf_entities(entities@),
{
    let mut i: usize = 0;
    while i < entities.len()
        invariant
            0 <= i <= entities@.len(),
            forall|j: int| 0 <= j < i ==> wf_entity(entities@[j]),
        decreases entities@.len() - i,
    {
        let e = &entities[i];
        let p = e.position.0;
        let v = e.velocity.0;
        let sh = e.shape.0;
        let ok = -POS_LIMIT <= p.x && p.x <= POS_LIMIT && -POS_LIMIT <= p.y && p.y <= POS_LIMIT
            && -VEL_LIMIT <= v.x && v.x <= VEL_LIMIT && -VEL_LIMIT <= v.y && v.y <= VEL_LIMIT
            && 0 <= sh.x && sh.x <= SHAPE_LIMIT && 0 <= sh.y && sh.y <= SHAPE_LIMIT;
        if !ok {
            return false;
        }
        i = i + 1;
    }
    true
}

// ##############################################################
// # The world and its tick
// ##############################################################

/// The whole game state: the entity store, the score counters, and the
/// scoreboard text a front end renders.
pub struct World {
    pub entities: Vec<Entity>,
    pub score: Score,
    pub scoreboard: Scoreboard,
}

/// The ball as the game starts: at the centre, moving up and to the
/// right at 150 units per tick on each axis.
pub open spec fn initial_ball() -> Entity {
    Entity {
        ball: Some(Ball),
        paddle: None,
        player: None,
        ai: None,
        gutter: None,
        position: Position(Vec2 { x: 0, y: 0 }),
        velocity: Velocity(Vec2 { x: (150 * UNIT) as i64, y: (150 * UNIT) as i64 }),
        shape: Shape(Vec2 { x: BALL_SIZE, y: BALL_SIZE }),
    }
}

/// A resting paddle centred at `(x, 0)`, labelled as the player's when
/// `is_player`, else as the AI's.
pub open spec fn initial_paddle(x: int, is_player: bool) -> Entity {
    Entity {
        ball: None,
        paddle: Some(Paddle),
        player: if is_player {
            Some(Player)
        } else {
            None
        },
        ai: if is_player {
            None
        } else {
            Some(Ai)
        },
        gutter: None,
        position: Position(Vec2 { x: x as i64, y: 0 }),
        velocity: Velocity(Vec2 { x: 0, y: 0 }),
        shape: Shape(Vec2 { x: PADDLE_WIDTH, y: PADDLE_HEIGHT }),
    }
}

/// A field-wide gutter centred at height `y`.
pub open spec fn initial_gutter(y: int) -> Entity {
    Entity {
        ball: None,
        paddle: None,
        player: None,
        ai: None,
        gutter: Some(Gutter),
        position: Position(Vec2 { x: 0, y: y as i64 }),
        velocity: Velocity(Vec2 { x: 0, y: 0 }),
        shape: Shape(Vec2 { x: WIN_WIDTH, y: GUTTER_HEIGHT }),
    }
}

/// The store as the game starts: the ball, the player's paddle fifty
/// units in from the right edge, the AI's fifty units in from the left
/// edge, and the two gutters flush with the top and bottom edges.
pub open spec fn initial_entities() -> Seq<Entity> {
    seq![
        initial_ball(),
        initial_paddle(WIN_WIDTH / 2 - 50 * UNIT, true),
        initial_paddle(-(WIN_WIDTH / 2 - 50 * UNIT), false),
        initial_gutter(WIN_HEIGHT / 2 - GUTTER_HEIGHT / 2),
        initial_gutter(-(WIN_HEIGHT / 2 - GUTTER_HEIGHT / 2)),
    ]
}

impl World {
    /// Spawns the five entities of a fresh game, a zeroed score, and the
    /// scoreboard text that shows it.
    pub fn new() -> (w: World)
        ensures
            w.entities@ == initial_entities(),
            w.score == (Score { player: 0, ai: 0 }),
            w.scoreboard.text@ == score_text(w.score),
    {
        let ball = BallBundle::new(150 * UNIT, 150 * UNIT);
        let paddle_x: i64 = WIN_WIDTH / 2 - 50 * UNIT;
        let player_paddle = PaddleBundle::new(paddle_x, 0);
        let ai_paddle = PaddleBundle::new(-paddle_x, 0);
        let gutter_y: i64 = WIN_HEIGHT / 2 - GUTTER_HEIGHT / 2;
        let top_gutter = GutterBundle::new(0, gutter_y, WIN_WIDTH);
        let bottom_gutter = GutterBundle::new(0, -gutter_y, WIN_WIDTH);

        let mut entities: Vec<Entity> = Vec::new();
        entities.push(
            Entity {
                ball: Some(Ball),
                paddle: None,
                player: None,
                ai: None,
                gutter: None,
                position: ball.position,
                velocity: ball.velocity,
                shape: ball.shape,
            },
        );
        entities.push(
            Entity {
                ball: None,
                paddle: Some(Paddle),
                player: Some(Player),
                ai: None,
                gutter: None,
                position: player_paddle.position,
                velocity: player_paddle.velocity,
                shape: player_paddle.shape,
            },
        );
        entities.push(
            Entity {
                ball: None,
                paddle: Some(Paddle),
                player: None,
                ai: Some(Ai),
                gutter: None,
                position: ai_paddle.position,
                velocity: ai_paddle.velocity,
                shape: ai_paddle.shape,
            },
        );
        entities.push(
            Entity {
                ball: None,
                paddle: None,
                player: None,
                ai: None,
                gutter: Some(Gutter),
                position: top_gutter.position,
                velocity: Velocity(Vec2 { x: 0, y: 0 }),
                shape: top_gutter.shape,
            },
        );
        entities.push(
            Entity {
                ball: None,
                paddle: None,
                player: None,
                ai: None,
                gutter: Some(Gutter),
                position: bottom_gutter.position,
                velocity: Velocity(Vec2 { x: 0, y: 0 }),
                shape: bottom_gutter.shape,
            },
        );
        proof {
            assert(entities@ =~= initial_entities());
        }
        let score = Score { player: 0, ai: 0 };
        let text = format_score(&score);
        World { entities, score, scoreboard: Scoreboard { text } }
    }
}

/// The bounds the tick asks of the world before it works: a well-formed
/// store and score counters with room to count one more.
pub open spec fn wf_world(w: World) -> bool {
    &&& wf_entities(w.entities@)
    &&& w.score.player < u32::MAX
    &&& w.score.ai < u32::MAX
}

/// The store after the movement half of a tick: input, AI, paddle
/// mover, ball mover, collision resolver and unstick guard, in the
/// fixed order of the schedule.
pub open spec fn tick_moves(s: Seq<Entity>, up: bool, down: bool) -> Seq<Entity> {
    unstick_ball_spec(
        resolve_collisions_spec(
            move_ball_spec(move_paddles_spec(apply_ai_movement(apply_player_input(s, up, down)))),
        ),
    )
}

/// The two entities carry exactly the same labels.
pub open spec fn same_roles(a: Entity, b: Entity) -> bool {
    &&& a.ball == b.ball
    &&& a.paddle == b.paddle
    &&& a.player == b.player
    &&& a.ai == b.ai
    &&& a.gutter == b.gutter
}

/// Law: entities persist — the movement half of a tick neither spawns
/// nor drops a row, and never changes a label.
pub proof fn lemma_moves_preserve_roles(s: Seq<Entity>, up: bool, down: bool)
    ensures
        tick_moves(s, up, down).len() == s.len(),
        forall|i: int| 0 <= i < s.len() ==> same_roles(#[trigger] tick_moves(s, up, down)[i], s[i]),
{
    let s1 = apply_player_input(s, up, down);
    let s2 = apply_ai_movement(s1);
    let s3 = move_paddles_spec(s2);
    let s4 = move_ball_spec(s3);
    let s5 = resolve_collisions_spec(s4);
    let s6 = unstick_ball_spec(s5);
    assert(s1.len() == s.len() && forall|i: int|
        0 <= i < s.len() ==> same_roles(#[trigger] s1[i], s[i]));
    assert(s2.len() == s.len() && forall|i: int|
        0 <= i < s.len() ==> same_roles(#[trigger] s2[i], s1[i]));
    assert(s3.len() == s.len() && forall|i: int|
        0 <= i < s.len() ==> same_roles(#[trigger] s3[i], s2[i]));
    assert(s4.len() == s.len() && forall|i: int|
        0 <= i < s.len() ==> same_roles(#[trigger] s4[i], s3[i]));
    if count_tag(s4, Tag::Ball) == 1 {
        lemma_tag_index_valid(s4, Tag::Ball);
    }
    assert(s5.len() == s.len() && forall|i: int|
        0 <= i < s.len() ==> same_roles(#[trigger] s5[i], s4[i]));
    assert(s6.len() == s.len() && forall|i: int|
        0 <= i < s.len() ==> same_roles(#[trigger] s6[i], s5[i]));
}

/// Law: the ball resetter, too, keeps every row and every label.
pub proof fn lemma_reset_preserves_roles(s: Seq<Entity>, scorer: Scorer)
    ensures
        reset_spec(s, scorer).len() == s.len(),
        forall|i: int| 0 <= i < s.len() ==> same_roles(#[trigger] reset_spec(s, scorer)[i], s[i]),
{
}

/// Law: a paddle (that is no ball) moves only vertically, and never
/// leaves the margin — strictly inside `(-MAX_PADDLE_Y, MAX_PADDLE_Y)`
/// before the movement half of a tick, it is still strictly inside
/// after it, its horizontal position untouched.
pub proof fn lemma_paddle_stays_inside(s: Seq<Entity>, up: bool, down: bool, i: int)
    requires
        0 <= i < s.len(),
        has_tag(s[i], Tag::Paddle),
        !has_tag(s[i], Tag::Ball),
        -MAX_PADDLE_Y < s[i].position.0.y < MAX_PADDLE_Y,
    ensures
        tick_moves(s, up, down)[i].position.0.x == s[i].position.0.x,
        -MAX_PADDLE_Y < tick_moves(s, up, down)[i].position.0.y < MAX_PADDLE_Y,
{
    let s1 = apply_player_input(s, up, down);
    let s2 = apply_ai_movement(s1);
    let s3 = move_paddles_spec(s2);
    let s4 = move_ball_spec(s3);
    let s5 = resolve_collisions_spec(s4);
    assert(s1[i].position == s[i].position && same_roles(s1[i], s[i]));
    assert(s2[i].position == s[i].position && same_roles(s2[i], s[i]));
    assert(s3[i].position.0.x == s[i].position.0.x && same_roles(s3[i], s[i]));
    assert(-MAX_PADDLE_Y < s3[i].position.0.y < MAX_PADDLE_Y);
    assert(s4[i] == s3[i]);
    if count_tag(s4, Tag::Ball) == 1 {
        lemma_tag_index_valid(s4, Tag::Ball);
    }
    assert(s5[i] == s4[i]);
    assert(tick_moves(s, up, down)[i].position == s5[i].position);
}

/// One fixed simulation tick: the movement systems in schedule order,
/// then the scoring cycle — detect, update, refresh the scoreboard,
/// reset the ball. A world that fails the entry bounds is left exactly
/// as it was, the absence-tolerant no-op the systems share.
pub fn fixed_tick(world: &mut World, up: bool, down: bool) -> (ev: Option<ScoreEvent>)
    ensures
        !wf_world(*old(world)) ==> *final(world) == *old(world) && ev is None,
        wf_world(*old(world)) ==> ({
            let moved = tick_moves(old(world).entities@, up, down);
            let det = detect_spec(moved);
            &&& ev == det
            &&& det is None ==> final(world).entities@ == moved && final(world).score == old(
                world,
            ).score && final(world).scoreboard == old(world).scoreboard
            &&& det is Some ==> {
                let nsc = update_score_spec(old(world).score, (det->0).0);
                &&& final(world).entities@ == reset_spec(moved, (det->0).0)
                &&& final(world).score == nsc
                &&& final(world).scoreboard.text@ == score_text(nsc)
            }
        }),
{
    let wf_ok = entities_wf(&world.entities) && world.score.player < u32::MAX
        && world.score.ai < u32::MAX;
    if !wf_ok {
        return None;
    }
    let ghost s0 = world.entities@;
    handle_player_input(&mut world.entities, up, down);
    proof {
        lemma_input_wf(s0, up, down);
        lemma_wf_safe(apply_player_input(s0, up, down));
    }
    ai_movement(&mut world.entities);
    proof {
        lemma_ai_wf(apply_player_input(s0, up, down));
        lemma_wf_safe(apply_ai_movement(apply_player_input(s0, up, down)));
    }
    move_paddles(&mut world.entities);
    proof {
        lemma_paddles_wf(apply_ai_movement(apply_player_input(s0, up, down)));
    }
    move_ball(&mut world.entities);
    proof {
        lemma_ball_safe(move_paddles_spec(apply_ai_movement(apply_player_input(s0, up, down))));
    }
    resolve_ball_collisions(&mut world.entities);
    unstick_ball(&mut world.entities);
    let ev = detect_scoring(&world.entities);
    match ev {
        Some(e) => {
            update_score(&mut world.score, &e);
            update_scoreboard(&mut world.scoreboard, &world.score);
            reset_ball(&mut world.entities, &e);
            Some(e)
        },
        None => None,
    }
}

} // verus!
