//! Dice, scoring rules, take options and the hand that closes them.

pub mod score;
pub use score::ScoredCombination;

pub mod dice;
pub use dice::{Dice, Dices};

pub mod take_option;
pub use take_option::{Take, TakeOption};

pub mod faces;
pub mod base;
pub mod closure;
pub mod scan;

pub mod hand;
pub use hand::{Hand, HandError};
