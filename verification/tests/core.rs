//! Component-level behaviour: input mapping, AI easing, paddle and ball
//! kernels, the collision resolver and the score formatter, each on
//! concrete values.

use pong::actors::{
    ai_intent, collide_ball_box, move_paddle, player_intent, reflect_velocity, unstick_velocity,
};
use pong::score::{format_score, u32_to_string, update_score};
use pong::structure::{exp_easeout, fixed_map, Position, Score, ScoreEvent, Scorer, Shape, Vec2,
    Velocity};

const UNIT: i64 = 1_000_000;

#[test]
fn player_intent_maps_keys() {
    assert_eq!(player_intent(true, false), UNIT);
    assert_eq!(player_intent(false, true), -UNIT);
    assert_eq!(player_intent(false, false), 0);
    // Up wins when both keys are reported held.
    assert_eq!(player_intent(true, true), UNIT);
}

#[test]
fn ai_intent_smoothed_exact() {
    // Ball at the top of a 720-high field, paddle centred: the intent is
    // 1 - (1 - 360/720)^15 = 1 - 0.5^15, which the fixed-point easing
    // rounds to 0.999970.
    assert_eq!(ai_intent(0, 360 * UNIT), 999_970);
    assert_eq!(ai_intent(0, -360 * UNIT), -999_970);
    assert_eq!(ai_intent(0, 0), 0);
    // Offsets past a full field height clamp to the maximal intent.
    assert_eq!(ai_intent(0, 720 * UNIT), UNIT);
    assert_eq!(ai_intent(0, 5_000 * UNIT), UNIT);
}

#[test]
fn ease_out_endpoints_and_midpoint() {
    assert_eq!(exp_easeout(0, 15), 0);
    assert_eq!(exp_easeout(UNIT, 15), UNIT);
    assert_eq!(exp_easeout(UNIT / 2, 15), 999_970);
    assert_eq!(exp_easeout(UNIT / 2, 1), UNIT / 2);
}

#[test]
fn fixed_map_endpoints_and_extension() {
    assert_eq!(fixed_map(0, 25 * UNIT, 200 * UNIT, 300 * UNIT, 0), 200 * UNIT);
    assert_eq!(fixed_map(0, 25 * UNIT, 200 * UNIT, 300 * UNIT, 25 * UNIT), 300 * UNIT);
    // The map extends linearly past the end of the original range.
    assert_eq!(fixed_map(0, 25 * UNIT, 200 * UNIT, 300 * UNIT, 50 * UNIT), 400 * UNIT);
}

#[test]
fn paddle_moves_inside_field() {
    let p = Position(Vec2 { x: 590 * UNIT, y: 0 });
    let v = Velocity(Vec2 { x: 0, y: UNIT });
    assert_eq!(move_paddle(p, v), Position(Vec2 { x: 590 * UNIT, y: 5 * UNIT }));
}

#[test]
fn paddle_move_past_margin_is_rejected_not_clamped() {
    // max_y is 315: from 314 an upward step would land on 319, so the
    // move is rejected and the paddle stays at 314 — not at 315.
    let p = Position(Vec2 { x: 0, y: 314 * UNIT });
    let v = Velocity(Vec2 { x: 0, y: UNIT });
    assert_eq!(move_paddle(p, v), p);
    // A step landing exactly on the margin is rejected too (strict test).
    let p2 = Position(Vec2 { x: 0, y: 310 * UNIT });
    assert_eq!(move_paddle(p2, v), p2);
    // Downward, symmetrically.
    let p3 = Position(Vec2 { x: 0, y: -314 * UNIT });
    let v3 = Velocity(Vec2 { x: 0, y: -UNIT });
    assert_eq!(move_paddle(p3, v3), p3);
}

#[test]
fn unstick_restores_speed_with_signs() {
    // Both axes below ten units: restored to the nominal 200, signs kept.
    let v = unstick_velocity(Velocity(Vec2 { x: 5 * UNIT, y: -3 * UNIT }));
    assert_eq!(v, Velocity(Vec2 { x: 200 * UNIT, y: -200 * UNIT }));
    // Zero counts as positive.
    let z = unstick_velocity(Velocity(Vec2 { x: 0, y: 0 }));
    assert_eq!(z, Velocity(Vec2 { x: 200 * UNIT, y: 200 * UNIT }));
}

#[test]
fn unstick_leaves_fast_ball_alone() {
    let v = Velocity(Vec2 { x: 5 * UNIT, y: 200 * UNIT });
    assert_eq!(unstick_velocity(v), v);
    let w = Velocity(Vec2 { x: 150 * UNIT, y: 150 * UNIT });
    assert_eq!(unstick_velocity(w), w);
}

#[test]
fn reflect_centre_hit_is_flat_and_fast() {
    // A hit dead on the paddle's centre keeps the nominal speed on both
    // axes: (2*200 - 200, 200).
    let v = Velocity(Vec2 { x: 150 * UNIT, y: 150 * UNIT });
    let r = reflect_velocity(v, 0, 0);
    assert_eq!(r, Velocity(Vec2 { x: 200 * UNIT, y: 200 * UNIT }));
}

#[test]
fn reflect_corner_hit_is_steep_and_slow() {
    // 25 units off centre (the paddle's corner): the vertical speed maps
    // to 300, the horizontal to 2*200 - 300 = 100.
    let v = Velocity(Vec2 { x: 150 * UNIT, y: 150 * UNIT });
    let r = reflect_velocity(v, 0, 25 * UNIT);
    assert_eq!(r, Velocity(Vec2 { x: 100 * UNIT, y: 300 * UNIT }));
    // Signs of the incoming velocity are kept per axis.
    let d = reflect_velocity(Velocity(Vec2 { x: -UNIT, y: -UNIT }), 0, 25 * UNIT);
    assert_eq!(d, Velocity(Vec2 { x: -100 * UNIT, y: -300 * UNIT }));
}

#[test]
fn collision_from_above_resolves_top() {
    // Box 100 wide, 20 tall at the origin; ball of radius 5 two units
    // above the top edge: a top hit — vertical dominance — never a side
    // hit. The ball exits at the edge plus radius plus the half-unit
    // margin, with its vertical velocity inverted.
    let hit = collide_ball_box(
        Position(Vec2 { x: 0, y: 12 * UNIT }),
        5 * UNIT,
        Velocity(Vec2 { x: 3 * UNIT, y: -4 * UNIT }),
        Position(Vec2 { x: 0, y: 0 }),
        Shape(Vec2 { x: 100 * UNIT, y: 20 * UNIT }),
    );
    let (p, v) = hit.expect("the shapes overlap");
    assert_eq!(p, Position(Vec2 { x: 0, y: 15 * UNIT + UNIT / 2 }));
    assert_eq!(v, Velocity(Vec2 { x: 3 * UNIT, y: 4 * UNIT }));
}

#[test]
fn collision_needs_overlap() {
    let miss = collide_ball_box(
        Position(Vec2 { x: 0, y: 20 * UNIT }),
        5 * UNIT,
        Velocity(Vec2 { x: UNIT, y: UNIT }),
        Position(Vec2 { x: 0, y: 0 }),
        Shape(Vec2 { x: 100 * UNIT, y: 20 * UNIT }),
    );
    assert!(miss.is_none());
}

#[test]
fn collision_diagonal_tie_breaks_horizontal() {
    // Equal offsets on both axes: the horizontal branch wins, and a
    // positive offset is a right-side hit.
    let hit = collide_ball_box(
        Position(Vec2 { x: 12 * UNIT, y: 12 * UNIT }),
        5 * UNIT,
        Velocity(Vec2 { x: 3 * UNIT, y: 3 * UNIT }),
        Position(Vec2 { x: 0, y: 0 }),
        Shape(Vec2 { x: 20 * UNIT, y: 20 * UNIT }),
    );
    let (p, v) = hit.expect("the shapes overlap");
    assert_eq!(p, Position(Vec2 { x: 15 * UNIT + UNIT / 2, y: 12 * UNIT }));
    // A side hit always sends the ball back toward negative x.
    assert_eq!(v, Velocity(Vec2 { x: -3 * UNIT, y: 3 * UNIT }));
}

#[test]
fn collision_side_hit_forces_negative_x() {
    // Even a hit on the box's left side forces the horizontal sign to
    // minus one — the intentional asymmetry of the side response.
    let hit = collide_ball_box(
        Position(Vec2 { x: -12 * UNIT, y: 0 }),
        5 * UNIT,
        Velocity(Vec2 { x: 3 * UNIT, y: 0 }),
        Position(Vec2 { x: 0, y: 0 }),
        Shape(Vec2 { x: 20 * UNIT, y: 20 * UNIT }),
    );
    let (p, v) = hit.expect("the shapes overlap");
    assert_eq!(p, Position(Vec2 { x: -(15 * UNIT + UNIT / 2), y: 0 }));
    assert_eq!(v, Velocity(Vec2 { x: -3 * UNIT, y: 0 }));
}

#[test]
fn score_counters_increment() {
    let mut sc = Score { player: 0, ai: 0 };
    update_score(&mut sc, &ScoreEvent(Scorer::Ai));
    assert_eq!(sc, Score { player: 0, ai: 1 });
    update_score(&mut sc, &ScoreEvent(Scorer::Player));
    assert_eq!(sc, Score { player: 1, ai: 1 });
}

#[test]
fn decimal_rendering_exact() {
    assert_eq!(u32_to_string(0), "0");
    assert_eq!(u32_to_string(7), "7");
    assert_eq!(u32_to_string(10), "10");
    assert_eq!(u32_to_string(305), "305");
    assert_eq!(u32_to_string(u32::MAX), "4294967295");
}

#[test]
fn scoreboard_format_exact() {
    assert_eq!(format_score(&Score { player: 0, ai: 0 }), "0 - 0");
    assert_eq!(format_score(&Score { player: 12, ai: 345 }), "12 - 345");
}
