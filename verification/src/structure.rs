//! Building blocks of the game: the fixed-point coordinate scale, the
//! tunable constants, the component types that entities aggregate, and the
//! small arithmetic helpers (easing, range mapping) that the actor systems
//! use.

use vstd::prelude::*;

verus! {

// ##############################################################
// # Fixed-point scale
// ##############################################################

/// One world unit, in fixed-point sub-units. Every coordinate, extent and
/// velocity in the library is an `i64` counting millionths of a world
/// unit, so all of the game's arithmetic is exact.
pub const UNIT: i64 = 1_000_000;

/// Half a world unit: the safety margin the collision resolver leaves
/// between the ball and the box it exits.
pub const HALF_UNIT: i64 = 500_000;

// ##############################################################
// # Global constants (world units, fixed-point)
// ##############################################################

/// Height of the play field.
pub const WIN_HEIGHT: i64 = 720 * UNIT;

/// Width of the play field.
pub const WIN_WIDTH: i64 = 1280 * UNIT;

/// Radius of the ball (and both extents of its square sprite).
pub const BALL_SIZE: i64 = 5 * UNIT;

/// Nominal speed of the ball, per tick.
pub const BALL_SPEED: i64 = 200 * UNIT;

/// World units a paddle covers per tick and unit of intent. A paddle's
/// velocity is an intent in `[-UNIT, UNIT]`, scaled by this plain factor
/// at integration time.
pub const PADDLE_SPEED: i64 = 5;

/// Extents of a paddle.
pub const PADDLE_WIDTH: i64 = 10 * UNIT;
pub const PADDLE_HEIGHT: i64 = 50 * UNIT;

/// Exponent of the AI paddle's ease-out response curve.
pub const AI_SKILL: u32 = 15;

/// Height of the top and bottom gutters.
pub const GUTTER_HEIGHT: i64 = 20 * UNIT;

/// Below this speed on both axes at once, the ball counts as stuck and
/// the unstick guard restores its nominal speed.
pub const UNSTICK_MIN: i64 = 10 * UNIT;

/// Highest centre height a paddle may reach: half the field (360), less
/// the gutter (20), less half the paddle (25).
pub const MAX_PADDLE_Y: i64 = 315 * UNIT;

// ##############################################################
// # Bounds that keep the arithmetic inside i64
// ##############################################################

/// Largest coordinate magnitude the systems accept (10 000 world units).
pub const POS_LIMIT: i64 = 10_000 * UNIT;

/// Largest velocity magnitude the systems accept (1 000 world units per
/// tick).
pub const VEL_LIMIT: i64 = 1_000 * UNIT;

/// The looser position bound that holds mid-tick, after the movers ran
/// on a store that met [`POS_LIMIT`] at the top of the tick.
pub const POS_SAFE: i64 = 20_000 * UNIT;

/// Largest extent magnitude the systems accept (10 000 world units).
pub const SHAPE_LIMIT: i64 = 10_000 * UNIT;

// ##############################################################
// # Helper types
// ##############################################################

/// A two-dimensional fixed-point vector.
#[derive(Clone, Copy, PartialEq, Eq, Structural, Debug)]
pub struct Vec2 {
    pub x: i64,
    pub y: i64,
}

/// Which side scored, carried by [`ScoreEvent`].
#[derive(Clone, Copy, PartialEq, Eq, Structural, Debug)]
pub enum Scorer {
    Ai,
    Player,
}

/// Notifies the score updater and the ball resetter that the ball has
/// been lost, and to whom.
#[derive(Clone, Copy, PartialEq, Eq, Structural, Debug)]
pub struct ScoreEvent(pub Scorer);

/// The global score counters.
#[derive(Clone, Copy, PartialEq, Eq, Structural, Debug)]
pub struct Score {
    pub player: u32,
    pub ai: u32,
}

// ##############################################################
// # Generic components
// ##############################################################

/// An entity's simulation position, world coordinates, origin at the
/// field's centre.
#[derive(Clone, Copy, PartialEq, Eq, Structural, Debug)]
pub struct Position(pub Vec2);

/// An entity's velocity: an intent direction for paddles, a true
/// per-tick displacement for the ball.
#[derive(Clone, Copy, PartialEq, Eq, Structural, Debug)]
pub struct Velocity(pub Vec2);

/// The extents (width, height) of an entity's sprite and collision box.
#[derive(Clone, Copy, PartialEq, Eq, Structural, Debug)]
pub struct Shape(pub Vec2);

// ##############################################################
// # Entity labels
// ##############################################################

/// Marks the AI's paddle.
#[derive(Clone, Copy, PartialEq, Eq, Structural, Debug)]
pub struct Ai;

/// Marks the player's paddle.
#[derive(Clone, Copy, PartialEq, Eq, Structural, Debug)]
pub struct Player;

/// Marks the ball.
#[derive(Clone, Copy, PartialEq, Eq, Structural, Debug)]
pub struct Ball;

/// Marks any paddle.
#[derive(Clone, Copy, PartialEq, Eq, Structural, Debug)]
pub struct Paddle;

/// Marks the top and bottom boundary strips.
#[derive(Clone, Copy, PartialEq, Eq, Structural, Debug)]
pub struct Gutter;

/// The score display: the text a front end renders.
#[derive(Debug)]
pub struct Scoreboard {
    pub text: String,
}

// ##############################################################
// # Entity bundles
// ##############################################################

/// Template for the ball entity.
pub struct BallBundle {
    pub ball: Ball,
    pub shape: Shape,
    pub position: Position,
    pub velocity: Velocity,
}

impl BallBundle {
    /// A ball at the field's centre with velocity `(x, y)`.
    pub fn new(x: i64, y: i64) -> (b: BallBundle)
        ensures
            b.ball == Ball,
            b.shape.0 == (Vec2 { x: BALL_SIZE, y: BALL_SIZE }),
            b.position.0 == (Vec2 { x: 0, y: 0 }),
            b.velocity.0 == (Vec2 { x: x, y: y }),
    {
        BallBundle {
            ball: Ball,
            shape: Shape(Vec2 { x: BALL_SIZE, y: BALL_SIZE }),
            position: Position(Vec2 { x: 0, y: 0 }),
            velocity: Velocity(Vec2 { x: x, y: y }),
        }
    }
}

/// Template for a paddle entity.
pub struct PaddleBundle {
    pub paddle: Paddle,
    pub shape: Shape,
    pub position: Position,
    pub velocity: Velocity,
}

impl PaddleBundle {
    /// A resting paddle centred at `(x, y)`.
    pub fn new(x: i64, y: i64) -> (p: PaddleBundle)
        ensures
            p.paddle == Paddle,
            p.shape.0 == (Vec2 { x: PADDLE_WIDTH, y: PADDLE_HEIGHT }),
            p.position.0 == (Vec2 { x: x, y: y }),
            p.velocity.0 == (Vec2 { x: 0, y: 0 }),
    {
        PaddleBundle {
            paddle: Paddle,
            shape: Shape(Vec2 { x: PADDLE_WIDTH, y: PADDLE_HEIGHT }),
            position: Position(Vec2 { x: x, y: y }),
            velocity: Velocity(Vec2 { x: 0, y: 0 }),
        }
    }
}

/// Template for a gutter entity. Gutters are static, so the bundle
/// carries no velocity.
pub struct GutterBundle {
    pub gutter: Gutter,
    pub shape: Shape,
    pub position: Position,
}

impl GutterBundle {
    /// A gutter of width `width` centred at `(x, y)`.
    pub fn new(x: i64, y: i64, width: i64) -> (g: GutterBundle)
        ensures
            g.gutter == Gutter,
            g.shape.0 == (Vec2 { x: width, y: GUTTER_HEIGHT }),
            g.position.0 == (Vec2 { x: x, y: y }),
    {
        GutterBundle {
            gutter: Gutter,
            shape: Shape(Vec2 { x: width, y: GUTTER_HEIGHT }),
            position: Position(Vec2 { x: x, y: y }),
        }
    }
}

// ##############################################################
// # Helper functions
// ##############################################################

/// Mathematical sign, with zero counting as positive — the convention the
/// velocity rules follow when they rebuild a component from its sign.
pub open spec fn signum(x: int) -> int {
    if x < 0 {
        -1
    } else {
        1
    }
}

/// `base^exp` for a fixed-point `base`, rounding down at every step:
/// the fold of `acc * base / UNIT` starting from one.
pub open spec fn pow_frac(base: int, exp: nat) -> int
    decreases exp,
{
    if exp == 0 {
        UNIT as int
    } else {
        pow_frac(base, (exp - 1) as nat) * base / (UNIT as int)
    }
}

/// A fixed-point fraction raised to a power stays a fraction.
pub proof fn lemma_pow_frac_bounds(base: int, exp: nat)
    requires
        0 <= base <= UNIT,
    ensures
        0 <= pow_frac(base, exp) <= UNIT,
    decreases exp,
{
    if exp > 0 {
        lemma_pow_frac_bounds(base, (exp - 1) as nat);
        let prev = pow_frac(base, (exp - 1) as nat);
        assert(0 <= prev * base <= UNIT * UNIT) by (nonlinear_arith)
            requires
                0 <= prev <= UNIT,
                0 <= base <= UNIT,
        ;
        assert(0 <= prev * base / (UNIT as int) <= UNIT) by (nonlinear_arith)
            requires
                0 <= prev * base <= UNIT * UNIT,
        ;
    }
}

/// The ease-out curve `1 - (1 - t)^skill` on fixed-point fractions.
pub open spec fn ease_out(t: int, skill: nat) -> int {
    UNIT - pow_frac(UNIT - t, skill)
}

/// Exponential ease-out: `1 - (1 - t)^skill`, on fixed-point fractions
/// of [`UNIT`].
pub fn exp_easeout(t: i64, skill: u32) -> (r: i64)
    requires
        0 <= t <= UNIT,
    ensures
        r == ease_out(t as int, skill as nat),
        0 <= r <= UNIT,
{
    let base: i64 = UNIT - t;
    let mut acc: i64 = UNIT;
    let mut i: u32 = 0;
    while i < skill
        invariant
            0 <= i <= skill,
            0 <= base <= UNIT,
            acc == pow_frac(base as int, i as nat),
            0 <= acc <= UNIT,
        decreases skill - i,
    {
        proof {
            lemma_pow_frac_bounds(base as int, (i + 1) as nat);
            assert(0 <= acc * base <= UNIT * UNIT) by (nonlinear_arith)
                requires
                    0 <= acc <= UNIT,
                    0 <= base <= UNIT,
            ;
        }
        acc = acc * base / UNIT;
        i = i + 1;
    }
    proof {
        lemma_pow_frac_bounds(base as int, skill as nat);
    }
    UNIT - acc
}

/// The linear map that sends `[orig_start, orig_end]` onto
/// `[new_start, new_end]`, extended past the ends of the range.
pub open spec fn map_range(
    orig_start: int,
    orig_end: int,
    new_start: int,
    new_end: int,
    x: int,
) -> int {
    new_start + (new_end - new_start) * (x - orig_start) / (orig_end - orig_start)
}

/// Maps `x` from the range `[orig_start, orig_end]` to the range
/// `[new_start, new_end]` linearly, extending past `orig_end`.
pub fn fixed_map(orig_start: i64, orig_end: i64, new_start: i64, new_end: i64, x: i64) -> (r: i64)
    requires
        orig_start < orig_end,
        new_start <= new_end,
        orig_start <= x,
        orig_end - orig_start <= i64::MAX,
        new_end - new_start <= i64::MAX,
        x - orig_start <= i64::MAX,
        (new_end - new_start) * (x - orig_start) <= i64::MAX,
        new_start + (new_end - new_start) * (x - orig_start) / (orig_end - orig_start)
            <= i64::MAX,
    ensures
        r == map_range(orig_start as int, orig_end as int, new_start as int, new_end as int,
            x as int),
        new_start <= r,
{
    let span: i64 = new_end - new_start;
    let offset: i64 = x - orig_start;
    let scaled: i64 = span * offset / (orig_end - orig_start);
    proof {
        assert(0 <= span * offset) by (nonlinear_arith)
            requires
                0 <= span,
                0 <= offset,
        ;
        assert(0 <= span * offset / (orig_end - orig_start) <= span * offset) by (nonlinear_arith)
            requires
                0 <= span * offset,
                1 <= orig_end - orig_start,
        ;
    }
    new_start + scaled
}

} // verus!
