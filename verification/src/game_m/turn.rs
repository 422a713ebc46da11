//! One turn of one player, step by step: the table rolls and asks, the
//! turn says what comes next.

use vstd::prelude::*;
use super::game::TurnResult;
use super::player::GameAction;
use crate::dice_m::take_option::TakeOption;

verus! {

/// What the table does next.
#[derive(Debug, Clone, Copy, PartialEq, Eq)]
pub enum TurnStep {
    /// Roll this many dice and let the player pick.
    Roll(usize),
    /// Every die is taken: hand the player six new dice and roll them.
    RollAnew,
    /// One or two dice are left: ask the player whether to bank.
    Ask,
    /// The turn is over.
    Done(TurnResult),
}

/// The dice to roll once a take has left `left` dice on the table: six new
/// ones where none is left.
pub open spec fn dices_after(left: int) -> int {
    if left == 0 {
        6
    } else {
        left
    }
}

/// What the table does once a take has left `left` dice on it.
pub open spec fn step_after(left: int) -> TurnStep {
    if left == 0 {
        TurnStep::RollAnew
    } else if left == 1 || left == 2 {
        TurnStep::Ask
    } else {
        TurnStep::Roll(left as usize)
    }
}

/// The points gathered in a turn and the dice still on the table.
#[derive(Debug)]
pub struct Turn {
    score: u32,
    dices_available: usize,
}

impl Turn {
    /// The points gathered so far.
    pub closed spec fn score(&self) -> int {
        self.score as int
    }

    /// The dice that the next roll takes.
    pub closed spec fn dices_available(&self) -> int {
        self.dices_available as int
    }

    /// There is always something to roll: from one die to six.
    #[verifier::type_invariant]
    pub open spec fn wf(&self) -> bool {
        1 <= self.dices_available() <= 6
    }

    /// A turn begins with no points and six dice.
    pub fn new() -> (turn: Self)
        ensures
            turn.wf(),
            turn.score() == 0,
            turn.dices_available() == 6,
    {
        Turn { score: 0, dices_available: 6 }
    }

    /// The points gathered so far.
    pub fn points(&self) -> (score: u32)
        ensures
            score == self.score(),
    {
        self.score
    }

    /// The dice that the next roll takes: from one to six.
    pub fn dices_to_roll(&self) -> (dices: usize)
        ensures
            dices == self.dices_available(),
            1 <= dices <= 6,
    {
        proof {
            use_type_invariant(self);
        }
        self.dices_available
    }

    /// Whether the turn can book `picked`: the take uses no more dice
    /// than lie on the table, is worth no negative points, and the points
    /// still fit.
    pub open spec fn can_book(&self, picked: TakeOption) -> bool {
        &&& picked@.wf()
        &&& picked@.dice() <= self.dices_available()
        &&& 0 <= picked.value
        &&& self.score() + picked.value <= u32::MAX
    }

    /// Books the pick of the player. No pick ends the turn with nothing.
    /// A take adds its points and leaves the table with fewer dice: with
    /// none left six new dice come, with one or two left the player is
    /// asked, otherwise the rest is rolled.
    pub fn after_pick(&mut self, take: Option<TakeOption>) -> (step: TurnStep)
        requires
            take matches Some(picked) ==> old(self).can_book(picked),
        ensures
            final(self).wf(),
            take is None ==> step == TurnStep::Done(TurnResult::Nothing),
            take is None ==> final(self).score() == old(self).score(),
            take is None ==> final(self).dices_available() == old(self).dices_available(),
            take matches Some(picked) ==> final(self).score() == old(self).score() + picked.value,
            take matches Some(picked) ==> final(self).dices_available() == dices_after(
                old(self).dices_available() - picked@.dice(),
            ),
            take matches Some(picked) ==> step == step_after(
                old(self).dices_available() - picked@.dice(),
            ),
    {
        proof {
            use_type_invariant(&*self);
        }
        match take {
            None => TurnStep::Done(TurnResult::Nothing),
            Some(picked) => {
                self.score = self.score + picked.value as u32;
                let left = self.dices_available - picked.dices_count();
                match left {
                    0 => {
                        self.dices_available = 6;
                        TurnStep::RollAnew
                    },
                    1 | 2 => {
                        self.dices_available = left;
                        TurnStep::Ask
                    },
                    _ => {
                        self.dices_available = left;
                        TurnStep::Roll(left)
                    },
                }
            },
        }
    }

    /// Books the answer of a player who was asked: to stop banks the
    /// points, to continue rolls what is left.
    pub fn after_answer(&self, answer: GameAction) -> (step: TurnStep)
        ensures
            answer == GameAction::Stop ==> step == TurnStep::Done(
                TurnResult::Value(self.score() as u32),
            ),
            answer == GameAction::Continue ==> step == TurnStep::Roll(
                self.dices_available() as usize,
            ),
    {
        match answer {
            GameAction::Stop => TurnStep::Done(TurnResult::Value(self.score)),
            GameAction::Continue => TurnStep::Roll(self.dices_available),
        }
    }
}

} // verus!
