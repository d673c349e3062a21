//! Score handling: the detector that watches the ball against the field
//! boundaries, the counter updater, the ball resetter that re-serves,
//! and the scoreboard formatter.
//!
//! The scoring cycle of a tick runs detect, then update, then refresh
//! and reset, so the refresh sees the incremented counter and the
//! detector never races the reset.

use vstd::prelude::*;
use vstd::pervasive::VecAdditionalExecFns;
use vstd::string::StringExecFns;

use crate::gamestate::{
    count_tag, find_single, has_tag, lemma_count_tag_pointwise, lemma_single_tag_index,
    lemma_tag_index_valid, tag_index, Entity, Tag,
};
use crate::structure::{
    Position, Score, ScoreEvent, Scoreboard, Scorer, Vec2, Velocity, BALL_SPEED, WIN_WIDTH,
};

verus! {

// ##############################################################
// # Score detector
// ##############################################################

/// The event a tick emits: the AI scores when the single ball sits past
/// the right boundary, the player when it sits past the left one;
/// nothing otherwise, and nothing when no or several balls exist. At
/// most one event per tick.
pub open spec fn detect_spec(s: Seq<Entity>) -> Option<ScoreEvent> {
    if count_tag(s, Tag::Ball) == 1 {
        let x = s[tag_index(s, Tag::Ball)].position.0.x;
        if x > WIN_WIDTH / 2 {
            Some(ScoreEvent(Scorer::Ai))
        } else if x < -WIN_WIDTH / 2 {
            Some(ScoreEvent(Scorer::Player))
        } else {
            None
        }
    } else {
        None
    }
}

/// Watches the ball's horizontal position and reports who, if anyone,
/// scored this tick.
pub fn detect_scoring(entities: &Vec<Entity>) -> (r: Option<ScoreEvent>)
    ensures
        r == detect_spec(entities@),
{
    match find_single(entities, Tag::Ball) {
        Some(i) => {
            proof {
                lemma_single_tag_index(entities@, Tag::Ball, i as int);
            }
            let x = entities[i].position.0.x;
            let half: i64 = WIN_WIDTH / 2;
            if x > half {
                Some(ScoreEvent(Scorer::Ai))
            } else if x < -half {
                Some(ScoreEvent(Scorer::Player))
            } else {
                None
            }
        },
        None => None,
    }
}

// ##############################################################
// # Score updater
// ##############################################################

/// The score with the scorer's counter raised by one.
pub open spec fn update_score_spec(sc: Score, scorer: Scorer) -> Score {
    match scorer {
        Scorer::Ai => Score { player: sc.player, ai: (sc.ai + 1) as u32 },
        Scorer::Player => Score { player: (sc.player + 1) as u32, ai: sc.ai },
    }
}

/// Raises the scorer's counter by one.
pub fn update_score(score: &mut Score, event: &ScoreEvent)
    requires
        old(score).player < u32::MAX,
        old(score).ai < u32::MAX,
    ensures
        *final(score) == update_score_spec(*old(score), event.0),
{
    match event.0 {
        Scorer::Ai => {
            score.ai = score.ai + 1;
        },
        Scorer::Player => {
            score.player = score.player + 1;
        },
    }
}

// ##############################################################
// # Ball resetter
// ##############################################################

/// The re-serve velocity: toward the scorer's former side — negative
/// horizontally when the AI scored, positive when the player did — and
/// always upward.
pub open spec fn reserve_velocity(scorer: Scorer) -> Vec2 {
    match scorer {
        Scorer::Ai => Vec2 { x: (-(BALL_SPEED as int)) as i64, y: BALL_SPEED },
        Scorer::Player => Vec2 { x: BALL_SPEED, y: BALL_SPEED },
    }
}

/// The store after the resetter ran: the single ball back at the
/// field's centre with the re-serve velocity; untouched when no or
/// several balls exist.
pub open spec fn reset_spec(s: Seq<Entity>, scorer: Scorer) -> Seq<Entity> {
    if count_tag(s, Tag::Ball) == 1 {
        Seq::new(
            s.len(),
            |i: int|
                if has_tag(s[i], Tag::Ball) {
                    Entity {
                        position: Position(Vec2 { x: 0, y: 0 }),
                        velocity: Velocity(reserve_velocity(scorer)),
                        ..s[i]
                    }
                } else {
                    s[i]
                },
        )
    } else {
        s
    }
}

/// Returns the ball to the centre and re-serves it away from the
/// scorer.
pub fn reset_ball(entities: &mut Vec<Entity>, event: &ScoreEvent)
    ensures
        final(entities)@ == reset_spec(old(entities)@, event.0),
{
    let ghost s0 = entities@;
    match find_single(entities, Tag::Ball) {
        Some(i) => {
            let e = entities[i];
            let vel: Velocity = match event.0 {
                Scorer::Ai => Velocity(Vec2 { x: -BALL_SPEED, y: BALL_SPEED }),
                Scorer::Player => Velocity(Vec2 { x: BALL_SPEED, y: BALL_SPEED }),
            };
            entities.set(
                i,
                Entity { position: Position(Vec2 { x: 0, y: 0 }), velocity: vel, ..e },
            );
            proof {
                assert forall|j: int|
                    0 <= j < s0.len() && has_tag(s0[j], Tag::Ball) implies j == i as int by {
                    lemma_single_tag_index(s0, Tag::Ball, j);
                    lemma_single_tag_index(s0, Tag::Ball, i as int);
                }
                assert(entities@ =~= reset_spec(s0, event.0));
            }
        },
        None => {},
    }
}

// ##############################################################
// # Scoreboard formatting
// ##############################################################

/// The decimal digit character for `d`.
pub open spec fn digit_char(d: int) -> char {
    if d == 0 {
        '0'
    } else if d == 1 {
        '1'
    } else if d == 2 {
        '2'
    } else if d == 3 {
        '3'
    } else if d == 4 {
        '4'
    } else if d == 5 {
        '5'
    } else if d == 6 {
        '6'
    } else if d == 7 {
        '7'
    } else if d == 8 {
        '8'
    } else {
        '9'
    }
}

/// The decimal representation of `n`, most significant digit first, no
/// leading zeroes (a single zero for zero itself).
pub open spec fn dec_rep(n: nat) -> Seq<char>
    decreases n,
{
    if n < 10 {
        seq![digit_char(n as int)]
    } else {
        dec_rep(n / 10).push(digit_char((n % 10) as int))
    }
}

/// The scoreboard line: the player's counter, then " - ", then the
/// AI's.
pub open spec fn score_text(sc: Score) -> Seq<char> {
    dec_rep(sc.player as nat) + seq![' ', '-', ' '] + dec_rep(sc.ai as nat)
}

/// The single decimal digit as text.
fn digit_str(d: u32) -> (r: &'static str)
    requires
        d < 10,
    ensures
        r@ == seq![digit_char(d as int)],
{
    let r: &'static str = if d == 0 {
        "0"
    } else if d == 1 {
        "1"
    } else if d == 2 {
        "2"
    } else if d == 3 {
        "3"
    } else if d == 4 {
        "4"
    } else if d == 5 {
        "5"
    } else if d == 6 {
        "6"
    } else if d == 7 {
        "7"
    } else if d == 8 {
        "8"
    } else {
        "9"
    };
    proof {
        reveal_strlit("0");
        reveal_strlit("1");
        reveal_strlit("2");
        reveal_strlit("3");
        reveal_strlit("4");
        reveal_strlit("5");
        reveal_strlit("6");
        reveal_strlit("7");
        reveal_strlit("8");
        reveal_strlit("9");
        assert(r@ =~= seq![digit_char(d as int)]);
    }
    r
}

/// Renders `n` in decimal.
pub fn u32_to_string(n: u32) -> (s: String)
    ensures
        s@ == dec_rep(n as nat),
    decreases n,
{
    if n < 10 {
        String::from_str(digit_str(n))
    } else {
        let pre = u32_to_string(n / 10);
        let s = pre.concat(digit_str(n % 10));
        proof {
            assert(s@ =~= dec_rep(n as nat));
        }
        s
    }
}

/// Renders the score as the scoreboard shows it: `"<player> - <ai>"`.
pub fn format_score(sc: &Score) -> (r: String)
    ensures
        r@ == score_text(*sc),
{
    let left = u32_to_string(sc.player);
    let mid = left.concat(" - ");
    let right = u32_to_string(sc.ai);
    let r = mid.concat(right.as_str());
    proof {
        reveal_strlit(" - ");
        assert(" - "@ =~= seq![' ', '-', ' ']);
        assert(r@ =~= score_text(*sc));
    }
    r
}

/// Pushes the freshly formatted score to the display. The tick calls
/// this only on a change, so the sink hears of each score once.
pub fn update_scoreboard(sb: &mut Scoreboard, score: &Score)
    ensures
        final(sb).text@ == score_text(*score),
{
    sb.text = format_score(score);
}

// ##############################################################
// # Laws of the scoring cycle
// ##############################################################

/// After a reset the single ball sits at the centre with the re-serve
/// velocity, and it is still the single ball.
pub proof fn lemma_reset_ball_state(s: Seq<Entity>, scorer: Scorer)
    requires
        count_tag(s, Tag::Ball) == 1,
    ensures
        ({
            let s2 = reset_spec(s, scorer);
            &&& count_tag(s2, Tag::Ball) == 1
            &&& tag_index(s2, Tag::Ball) == tag_index(s, Tag::Ball)
            &&& s2[tag_index(s2, Tag::Ball)].position.0 == (Vec2 { x: 0, y: 0 })
            &&& s2[tag_index(s2, Tag::Ball)].velocity.0 == reserve_velocity(scorer)
        }),
{
    let s2 = reset_spec(s, scorer);
    lemma_tag_index_valid(s, Tag::Ball);
    let i0 = tag_index(s, Tag::Ball);
    assert(forall|i: int| 0 <= i < s.len() ==> has_tag(s2[i], Tag::Ball) == has_tag(s[i],
        Tag::Ball));
    lemma_count_tag_pointwise(s2, s, Tag::Ball);
    lemma_single_tag_index(s2, Tag::Ball, i0);
}

/// Law: the score cycle is idempotent — running the detector on a store
/// whose ball was just reset to the centre yields no event.
pub proof fn lemma_reset_quiesces(s: Seq<Entity>, scorer: Scorer)
    requires
        count_tag(s, Tag::Ball) == 1,
    ensures
        detect_spec(reset_spec(s, scorer)) is None,
{
    lemma_reset_ball_state(s, scorer);
}

/// Law: a ball past the right boundary yields exactly one event, for
/// the AI; the AI counter rises by exactly one while the player's
/// stands; the ball comes back at the field's centre; and the re-serve
/// velocity points left and upward.
pub proof fn lemma_ai_score_cycle(s: Seq<Entity>, sc: Score)
    requires
        count_tag(s, Tag::Ball) == 1,
        s[tag_index(s, Tag::Ball)].position.0.x > WIN_WIDTH / 2,
        sc.ai < u32::MAX,
    ensures
        detect_spec(s) == Some(ScoreEvent(Scorer::Ai)),
        update_score_spec(sc, Scorer::Ai).ai == sc.ai + 1,
        update_score_spec(sc, Scorer::Ai).player == sc.player,
        ({
            let b = reset_spec(s, Scorer::Ai)[tag_index(reset_spec(s, Scorer::Ai), Tag::Ball)];
            b.position.0 == (Vec2 { x: 0, y: 0 }) && b.velocity.0.x < 0 && b.velocity.0.y > 0
        }),
{
    lemma_reset_ball_state(s, Scorer::Ai);
}

} // verus!
