//! Scoring-option engine of a Farkle-style dice game.
//!
//! For a hand of six-sided dice the engine lists every distinct scoring
//! selection a player may take: the elementary groups of each face, the
//! straight, and every combination of groups that fits the dice on the
//! table.
//!
//! `dice_m` holds the engine. [`dice_m::Hand`] is its face: a hand is made
//! from dice, and from then on holds the complete set of takes. What that
//! set is, is said in `dice_m::closure`; that every hand holds exactly that
//! set is part of what a hand is, and the laws at the end of `dice_m::hand`
//! spell out what follows.
//!
//! `game_m` holds the bookkeeping of a game around the engine: the state
//! between turns, a turn step by step, and what a player at the console
//! is shown and has typed.

pub mod dice_m;
pub mod game_m;
