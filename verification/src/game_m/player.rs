//! What a player is and what a player may decide.

use vstd::prelude::*;
use crate::dice_m::hand::Hand;
use crate::dice_m::take_option::TakeOption;

verus! {

/// Who decides for a player.
#[derive(Debug, Clone, Copy, PartialEq, Eq, Structural)]
pub enum PlayerType {
    AI,
    Human,
}

/// The decision at the end of a take: roll on, or bank the points.
#[derive(Debug, Clone, Copy, PartialEq, Eq, Structural)]
pub enum GameAction {
    Continue,
    Stop,
}

impl PlayerType {
    /// The decision with one or two dice left: the machine always banks,
    /// a human does what the answer says.
    pub fn continue_or_stop(&self, agreed: bool) -> (action: GameAction)
        ensures
            action == GameAction::Stop <==> *self == PlayerType::AI || agreed,
    {
        match self {
            PlayerType::AI => GameAction::Stop,
            PlayerType::Human => if agreed {
                GameAction::Stop
            } else {
                GameAction::Continue
            },
        }
    }
}

/// The pick of the machine: the first take that the hand holds, if it
/// holds any.
pub fn ai_pick_take(hand: &Hand) -> (take: Option<TakeOption>)
    ensures
        hand.options().len() == 0 ==> take is None,
        hand.options().len() > 0 ==> take == Some(hand.options()[0]),
{
    let takes = hand.takes_as_slice();
    if takes.len() == 0 {
        None
    } else {
        Some(takes[0])
    }
}

} // verus!
