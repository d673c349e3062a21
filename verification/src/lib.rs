//! A verified core for a two-paddle ball game (Pong).
//!
//! The library simulates a single ball bouncing between two vertically
//! moving paddles and two horizontal gutters, tracks the score when the
//! ball leaves the field on the left or right, and renders the score as
//! text. Everything the game decides — input-to-velocity mapping, the AI
//! paddle's easing policy, movement, collision resolution, the unstick
//! guard, score detection and the ball re-serve — lives here, with a
//! contract, and is verified.
//!
//! Rendering, windowing and keyboard polling are an outside collaborator's
//! job: a front end reads the keyboard, calls [`gamestate::fixed_tick`]
//! once per simulation tick, and draws the entity positions and the
//! scoreboard text that the [`gamestate::World`] holds.
//!
//! All coordinates are fixed-point integers: an `i64` counts millionths of
//! a world unit (see [`structure::UNIT`]), so every rule of the game is
//! exact integer arithmetic.

pub mod actors;
pub mod gamestate;
pub mod score;
pub mod structure;
