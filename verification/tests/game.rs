//! Whole-game behaviour: the initial world, the composed tick, the
//! scoring cycle and the absence-tolerant no-ops, on concrete runs.

use pong::actors::reflect_ball;
use pong::gamestate::{find_single, fixed_tick, Tag, World};
use pong::score::detect_scoring;
use pong::structure::{Position, Score, ScoreEvent, Scorer, Vec2, Velocity};

const UNIT: i64 = 1_000_000;

#[test]
fn fresh_world_layout() {
    let w = World::new();
    assert_eq!(w.entities.len(), 5);
    // The ball rests at the centre, serving up and to the right.
    assert_eq!(w.entities[0].position, Position(Vec2 { x: 0, y: 0 }));
    assert_eq!(w.entities[0].velocity, Velocity(Vec2 { x: 150 * UNIT, y: 150 * UNIT }));
    // Paddles sit fifty units in from either edge of the 1280-wide field.
    assert_eq!(w.entities[1].position, Position(Vec2 { x: 590 * UNIT, y: 0 }));
    assert_eq!(w.entities[2].position, Position(Vec2 { x: -590 * UNIT, y: 0 }));
    // Gutters sit flush with the top and bottom of the 720-high field.
    assert_eq!(w.entities[3].position, Position(Vec2 { x: 0, y: 350 * UNIT }));
    assert_eq!(w.entities[4].position, Position(Vec2 { x: 0, y: -350 * UNIT }));
    assert_eq!(w.score, Score { player: 0, ai: 0 });
    assert_eq!(w.scoreboard.text, "0 - 0");
}

#[test]
fn singleton_lookup() {
    let mut w = World::new();
    assert_eq!(find_single(&w.entities, Tag::Ball), Some(0));
    assert_eq!(find_single(&w.entities, Tag::Player), Some(1));
    assert_eq!(find_single(&w.entities, Tag::Ai), Some(2));
    // Two entities share the paddle label, so the singleton lookup
    // reports none, and so it does once a second ball appears.
    assert_eq!(find_single(&w.entities, Tag::Paddle), None);
    let extra_ball = w.entities[0];
    w.entities.push(extra_ball);
    assert_eq!(find_single(&w.entities, Tag::Ball), None);
}

#[test]
fn detector_thresholds() {
    // Field width 1280: the boundary sits at 640. A ball at 641 scores
    // for the AI, one at 639 does not, one at 700 does.
    let mut w = World::new();
    w.entities[0].position = Position(Vec2 { x: 641 * UNIT, y: 0 });
    assert_eq!(detect_scoring(&w.entities), Some(ScoreEvent(Scorer::Ai)));
    w.entities[0].position = Position(Vec2 { x: 639 * UNIT, y: 0 });
    assert_eq!(detect_scoring(&w.entities), None);
    w.entities[0].position = Position(Vec2 { x: 700 * UNIT, y: 0 });
    assert_eq!(detect_scoring(&w.entities), Some(ScoreEvent(Scorer::Ai)));
    // Exactly on the boundary does not score.
    w.entities[0].position = Position(Vec2 { x: 640 * UNIT, y: 0 });
    assert_eq!(detect_scoring(&w.entities), None);
    // Past the left boundary the player scores.
    w.entities[0].position = Position(Vec2 { x: -641 * UNIT, y: 0 });
    assert_eq!(detect_scoring(&w.entities), Some(ScoreEvent(Scorer::Player)));
}

#[test]
fn detector_ignores_duplicated_ball() {
    let mut w = World::new();
    w.entities[0].position = Position(Vec2 { x: 700 * UNIT, y: 0 });
    let extra_ball = w.entities[0];
    w.entities.push(extra_ball);
    assert_eq!(detect_scoring(&w.entities), None);
}

#[test]
fn tick_scores_for_ai_and_resets() {
    // The ball sits past the right boundary at rest: the tick emits
    // exactly one event, for the AI; the AI counter rises by one; the
    // scoreboard shows the new count; and the ball re-serves from the
    // centre, leftward and upward.
    let mut w = World::new();
    w.entities[0].position = Position(Vec2 { x: 641 * UNIT, y: 0 });
    w.entities[0].velocity = Velocity(Vec2 { x: 0, y: 0 });
    let ev = fixed_tick(&mut w, false, false);
    assert_eq!(ev, Some(ScoreEvent(Scorer::Ai)));
    assert_eq!(w.score, Score { player: 0, ai: 1 });
    assert_eq!(w.scoreboard.text, "0 - 1");
    assert_eq!(w.entities[0].position, Position(Vec2 { x: 0, y: 0 }));
    assert_eq!(w.entities[0].velocity, Velocity(Vec2 { x: -200 * UNIT, y: 200 * UNIT }));
}

#[test]
fn tick_after_reset_is_quiet() {
    // Idempotence of the scoring cycle: after the tick that scored and
    // reset the ball, the next tick detects nothing and the score and
    // scoreboard stand.
    let mut w = World::new();
    w.entities[0].position = Position(Vec2 { x: 641 * UNIT, y: 0 });
    w.entities[0].velocity = Velocity(Vec2 { x: 0, y: 0 });
    assert!(fixed_tick(&mut w, false, false).is_some());
    let second = fixed_tick(&mut w, false, false);
    assert_eq!(second, None);
    assert_eq!(w.score, Score { player: 0, ai: 1 });
    assert_eq!(w.scoreboard.text, "0 - 1");
    // Running the detector twice more on the re-reset ball stays quiet.
    assert_eq!(detect_scoring(&w.entities), None);
    assert_eq!(detect_scoring(&w.entities), None);
}

#[test]
fn tick_moves_player_paddle_on_input() {
    let mut w = World::new();
    let ev = fixed_tick(&mut w, true, false);
    assert_eq!(ev, None);
    // One tick of full upward intent: five world units.
    assert_eq!(w.entities[1].position, Position(Vec2 { x: 590 * UNIT, y: 5 * UNIT }));
    // The AI paddle saw the ball dead ahead and stood still.
    assert_eq!(w.entities[2].position, Position(Vec2 { x: -590 * UNIT, y: 0 }));
    // The ball advanced along its serve velocity.
    assert_eq!(w.entities[0].position, Position(Vec2 { x: 150 * UNIT, y: 150 * UNIT }));
    assert_eq!(w.score, Score { player: 0, ai: 0 });
}

#[test]
fn tick_ai_chases_high_ball() {
    // Ball at the top of the field: the smoothed policy yields intent
    // 0.999970, and one tick moves the AI paddle five times that.
    let mut w = World::new();
    w.entities[0].position = Position(Vec2 { x: 0, y: 360 * UNIT });
    fixed_tick(&mut w, false, false);
    assert_eq!(w.entities[2].position, Position(Vec2 { x: -590 * UNIT, y: 4_999_850 }));
}

#[test]
fn tick_bounces_ball_off_gutter() {
    // The ball drifts up into the bottom face of the top gutter: the
    // resolver snaps it just below the face and inverts its climb; the
    // now slow velocity then trips the unstick guard, which restores the
    // nominal speed with the new signs.
    let mut w = World::new();
    w.entities[0].position = Position(Vec2 { x: 0, y: 333 * UNIT });
    w.entities[0].velocity = Velocity(Vec2 { x: 0, y: 4 * UNIT });
    let ev = fixed_tick(&mut w, false, false);
    assert_eq!(ev, None);
    assert_eq!(w.entities[0].position, Position(Vec2 { x: 0, y: 334 * UNIT + UNIT / 2 }));
    assert_eq!(w.entities[0].velocity, Velocity(Vec2 { x: 200 * UNIT, y: -200 * UNIT }));
}

#[test]
fn tick_skips_out_of_bounds_world() {
    // A world outside the tick's entry bounds is left exactly as it
    // was — even the input reader does not run.
    let mut w = World::new();
    w.entities[0].position = Position(Vec2 { x: i64::MAX, y: 0 });
    let ev = fixed_tick(&mut w, true, false);
    assert_eq!(ev, None);
    assert_eq!(w.entities[0].position, Position(Vec2 { x: i64::MAX, y: 0 }));
    assert_eq!(w.entities[1].position, Position(Vec2 { x: 590 * UNIT, y: 0 }));
}

#[test]
fn tick_skips_saturated_score() {
    // A counter with no room left stops the tick outright, so the
    // increment can never wrap.
    let mut w = World::new();
    w.score = Score { player: 0, ai: u32::MAX };
    w.entities[0].position = Position(Vec2 { x: 700 * UNIT, y: 0 });
    let ev = fixed_tick(&mut w, false, false);
    assert_eq!(ev, None);
    assert_eq!(w.score, Score { player: 0, ai: u32::MAX });
    assert_eq!(w.entities[0].position, Position(Vec2 { x: 700 * UNIT, y: 0 }));
}

#[test]
fn spectator_match_first_point_goes_to_ai() {
    // Nobody touches the keys: the serve carries the ball up and to the
    // right, past the player's idle paddle, and out on the fifth tick.
    let mut w = World::new();
    let mut scored = None;
    for tick in 0..10 {
        if let Some(e) = fixed_tick(&mut w, false, false) {
            scored = Some((tick, e));
            break;
        }
    }
    assert_eq!(scored, Some((4usize, ScoreEvent(Scorer::Ai))));
    assert_eq!(w.score, Score { player: 0, ai: 1 });
    assert_eq!(w.scoreboard.text, "0 - 1");
    assert_eq!(w.entities[0].position, Position(Vec2 { x: 0, y: 0 }));
}

#[test]
fn reported_events_reaim_the_ball() {
    // The event-driven collision variant: an outside physics step
    // reports entity pairs, and each ball-and-paddle pair re-aims the
    // ball in turn. A centre hit restores the flat nominal velocity; a
    // second report against the AI paddle ten units off centre then
    // steepens it to (2*200 - 240, 240).
    let mut w = World::new();
    w.entities[2].position = Position(Vec2 { x: -590 * UNIT, y: 10 * UNIT });
    let events = vec![(0usize, 1usize), (2usize, 0usize)];
    reflect_ball(&mut w.entities, &events);
    assert_eq!(w.entities[0].velocity, Velocity(Vec2 { x: 160 * UNIT, y: 240 * UNIT }));
    // The ball stays put: re-aiming touches only the velocity.
    assert_eq!(w.entities[0].position, Position(Vec2 { x: 0, y: 0 }));
}

#[test]
fn events_without_the_ball_change_nothing() {
    let mut w = World::new();
    let events = vec![(1usize, 2usize), (3usize, 4usize)];
    reflect_ball(&mut w.entities, &events);
    assert_eq!(w.entities[0].velocity, Velocity(Vec2 { x: 150 * UNIT, y: 150 * UNIT }));
}

#[test]
fn tick_without_ball_is_a_no_op_for_ball_systems() {
    let mut w = World::new();
    w.entities.remove(0);
    let before = w.entities.clone();
    let ev = fixed_tick(&mut w, false, false);
    assert_eq!(ev, None);
    assert_eq!(w.entities, before);
    assert_eq!(w.score, Score { player: 0, ai: 0 });
}

#[test]
fn tick_with_two_balls_skips_ball_systems() {
    let mut w = World::new();
    let extra_ball = w.entities[0];
    w.entities.push(extra_ball);
    let ev = fixed_tick(&mut w, false, false);
    assert_eq!(ev, None);
    // Neither ball moved, was bounced, or scored.
    assert_eq!(w.entities[0].position, Position(Vec2 { x: 0, y: 0 }));
    assert_eq!(w.entities[5].position, Position(Vec2 { x: 0, y: 0 }));
    assert_eq!(w.score, Score { player: 0, ai: 0 });
}
