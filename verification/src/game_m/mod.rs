//! The bookkeeping of a game: whose turn it is, the scores, and when
//! somebody has passed the goal.

pub mod player;
pub use player::{ai_pick_take, GameAction, PlayerType};

pub mod human_player;
pub use human_player::{by_value_descending, HumanPlayer};

pub mod input;
pub use input::{is_yes, read_answer, read_pick};

pub mod game;
pub use game::{GameState, GameStateView, GameStatus, MatchResult, TurnResult};

pub mod turn;
pub use turn::{Turn, TurnStep};
