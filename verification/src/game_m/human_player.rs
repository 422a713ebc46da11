//! What a human player has gathered in a round, and what the table shows
//! the player to pick from.

use vstd::prelude::*;
use super::player::GameAction;
use crate::dice_m::hand::{uses_all, Hand};
use crate::dice_m::take_option::TakeOption;

verus! {

/// The takes come with the most valuable first.
pub open spec fn descending(takes: Seq<TakeOption>) -> bool {
    forall|i: int, j: int| 0 <= i < j < takes.len() ==> takes[i].value >= takes[j].value
}

/// A row with one more take in it holds that take once more and all else
/// as before.
proof fn lemma_insert_multiset(takes: Seq<TakeOption>, at: int, take: TakeOption)
    requires
        0 <= at <= takes.len(),
    ensures
        takes.insert(at, take).to_multiset() == takes.to_multiset().insert(take),
{
    let longer = takes.insert(at, take);
    assert(longer.remove(at) =~= takes);
    longer.to_multiset_ensures();
}

/// The test of a take that is worth `value` points.
pub open spec fn worth(value: int) -> spec_fn(TakeOption) -> bool {
    |take: TakeOption| take.value == value
}

/// A row in which no take passes the test has nothing left after the test.
proof fn lemma_filter_none(takes: Seq<TakeOption>, test: spec_fn(TakeOption) -> bool)
    requires
        forall|k: int| 0 <= k < takes.len() ==> !test(#[trigger] takes[k]),
    ensures
        takes.filter(test) == Seq::<TakeOption>::empty(),
    decreases takes.len(),
{
    reveal(Seq::filter);
    if takes.len() > 0 {
        lemma_filter_none(takes.drop_last(), test);
    }
}

/// A take put into a row before takes of less value only: among the takes
/// of each value the row is what it was, with the new take last among those
/// of its own value.
proof fn lemma_insert_worth(takes: Seq<TakeOption>, at: int, take: TakeOption, value: int)
    requires
        0 <= at <= takes.len(),
        forall|k: int| at <= k < takes.len() ==> (#[trigger] takes[k]).value < take.value,
    ensures
        takes.insert(at, take).filter(worth(value)) == takes.push(take).filter(worth(value)),
{
    let test = worth(value);
    let front = takes.take(at);
    let back = takes.skip(at);
    assert(takes.insert(at, take) =~= front.push(take) + back);
    assert(takes =~= front + back);
    Seq::filter_distributes_over_add(front.push(take), back, test);
    Seq::filter_distributes_over_add(front, back, test);
    front.lemma_filter_push(take, test);
    takes.lemma_filter_push(take, test);
    if test(take) {
        lemma_filter_none(back, test);
    }
}

/// The takes ordered by value, the most valuable first. Takes of equal
/// value keep their order.
pub fn by_value_descending(takes: &[TakeOption]) -> (sorted: Vec<TakeOption>)
    ensures
        descending(sorted@),
        sorted@.to_multiset() == takes@.to_multiset(),
        forall|value: int| #[trigger]
            sorted@.filter(worth(value)) == takes@.filter(worth(value)),
{
    let mut sorted: Vec<TakeOption> = Vec::new();
    let mut i: usize = 0;
    assert(takes@.take(0) =~= Seq::<TakeOption>::empty());
    while i < takes.len()
        invariant
            i <= takes@.len(),
            descending(sorted@),
            sorted@.to_multiset() == takes@.take(i as int).to_multiset(),
            forall|value: int| #[trigger]
                sorted@.filter(worth(value)) == takes@.take(i as int).filter(worth(value)),
        decreases takes@.len() - i,
    {
        let take = takes[i];
        let mut at: usize = 0;
        while at < sorted.len() && sorted[at].value >= take.value
            invariant
                at <= sorted@.len(),
                forall|k: int| 0 <= k < at ==> sorted@[k].value >= take.value,
            decreases sorted@.len() - at,
        {
            at += 1;
        }
        proof {
            lemma_insert_multiset(sorted@, at as int, take);
            vstd::seq_lib::to_multiset_build(takes@.take(i as int), take);
            assert(takes@.take(i + 1) =~= takes@.take(i as int).push(take));
            assert forall|value: int| #[trigger]
                sorted@.insert(at as int, take).filter(worth(value)) == takes@.take(i + 1).filter(
                    worth(value),
                ) by {
                lemma_insert_worth(sorted@, at as int, take, value);
                sorted@.lemma_filter_push(take, worth(value));
                takes@.take(i as int).lemma_filter_push(take, worth(value));
            }
        }
        sorted.insert(at, take);
        i += 1;
    }
    assert(takes@.take(i as int) =~= takes@);
    sorted
}

/// The take of `list` with the number `pick`, counted from one, if the
/// list has a take of that number.
pub fn picked_take(list: &Vec<TakeOption>, pick: i32) -> (take: Option<TakeOption>)
    ensures
        1 <= pick <= list@.len() ==> take == Some(list@[pick - 1]),
        !(1 <= pick <= list@.len()) ==> take is None,
{
    if pick < 1 || pick as usize > list.len() {
        None
    } else {
        Some(list[pick as usize - 1])
    }
}

/// What a human player has gathered in the round.
#[derive(Debug)]
pub struct HumanPlayer {
    round_score: u32,
    round_dices_used: usize,
}

impl HumanPlayer {
    /// The points gathered in the round so far.
    pub closed spec fn round_score(&self) -> int {
        self.round_score as int
    }

    /// The dice taken in the round since the last fresh roll of six.
    pub closed spec fn round_dices_used(&self) -> int {
        self.round_dices_used as int
    }

    /// A player who has gathered nothing.
    pub fn new() -> (player: Self)
        ensures
            player.round_score() == 0,
            player.round_dices_used() == 0,
    {
        HumanPlayer { round_score: 0, round_dices_used: 0 }
    }

    /// Forgets the round: no points, no dice taken.
    pub fn reset(&mut self)
        ensures
            final(self).round_score() == 0,
            final(self).round_dices_used() == 0,
    {
        self.round_score = 0;
        self.round_dices_used = 0;
    }

    /// The points gathered in the round so far.
    pub fn points(&self) -> (score: u32)
        ensures
            score == self.round_score(),
    {
        self.round_score
    }

    /// The dice taken since the last fresh roll of six.
    pub fn dices_taken(&self) -> (dices: usize)
        ensures
            dices == self.round_dices_used(),
    {
        self.round_dices_used
    }

    /// A new round begins with nothing gathered.
    pub fn new_round(&mut self)
        ensures
            final(self).round_score() == 0,
            final(self).round_dices_used() == 0,
    {
        self.reset();
    }

    /// Six new dice lie on the table: none of them is taken, the points
    /// stay.
    pub fn new_dices(&mut self)
        ensures
            final(self).round_score() == old(self).round_score(),
            final(self).round_dices_used() == 0,
    {
        self.round_dices_used = 0;
    }

    /// The takes that the player is shown to pick from. Where some take uses
    /// every die of the hand, the player must pick one of those, and they
    /// are listed as the hand holds them. Otherwise all takes are listed,
    /// the most valuable first.
    pub fn takes_to_list(hand: &Hand) -> (list: Vec<TakeOption>)
        ensures
            hand.options().filter(uses_all(hand.dices().len())).len() > 0 ==> list@
                == hand.options().filter(uses_all(hand.dices().len())),
            hand.options().filter(uses_all(hand.dices().len())).len() == 0 ==> descending(list@),
            hand.options().filter(uses_all(hand.dices().len())).len() == 0 ==> list@.to_multiset()
                == hand.options().to_multiset(),
            hand.options().filter(uses_all(hand.dices().len())).len() == 0 ==> forall|value: int|
                #[trigger] list@.filter(worth(value)) == hand.options().filter(worth(value)),
    {
        let must_takes = hand.takes_use_all();
        if must_takes.len() == 0 {
            by_value_descending(hand.takes_as_slice())
        } else {
            let ghost full = hand.options().filter(uses_all(hand.dices().len()));
            let mut list: Vec<TakeOption> = Vec::new();
            let mut i: usize = 0;
            while i < must_takes.len()
                invariant
                    i <= must_takes@.len(),
                    must_takes@.len() == full.len(),
                    forall|k: int| 0 <= k < must_takes@.len() ==> *(#[trigger] must_takes@[k]) == full[k],
                    list@ == full.take(i as int),
                decreases must_takes@.len() - i,
            {
                list.push(*must_takes[i]);
                i += 1;
            }
            list
        }
    }

    /// Whether the player can book `picked`: the take claims no negative
    /// number of dice, is worth no negative points, and what is gathered
    /// still fits.
    pub open spec fn can_book(&self, picked: TakeOption) -> bool {
        &&& picked@.wf()
        &&& picked@.dice() <= i32::MAX
        &&& 0 <= picked.value
        &&& self.round_score() + picked.value <= u32::MAX
        &&& self.round_dices_used() + picked@.dice() <= usize::MAX
    }

    /// Books the take that the player picked from `list` by its number,
    /// counted from one. A number that names no take of the list picks
    /// nothing, and nothing is booked.
    pub fn take_picked(&mut self, list: &Vec<TakeOption>, pick: i32) -> (take: Option<TakeOption>)
        requires
            1 <= pick <= list@.len() ==> old(self).can_book(list@[pick - 1]),
        ensures
            1 <= pick <= list@.len() ==> take == Some(list@[pick - 1]),
            1 <= pick <= list@.len() ==> final(self).round_score() == old(self).round_score()
                + list@[pick - 1].value,
            1 <= pick <= list@.len() ==> final(self).round_dices_used() == old(
                self,
            ).round_dices_used() + list@[pick - 1]@.dice(),
            !(1 <= pick <= list@.len()) ==> take is None,
            !(1 <= pick <= list@.len()) ==> final(self).round_score() == old(self).round_score(),
            !(1 <= pick <= list@.len()) ==> final(self).round_dices_used() == old(
                self,
            ).round_dices_used(),
    {
        let take = picked_take(list, pick);
        if let Some(picked) = take {
            self.round_score = self.round_score + picked.value as u32;
            self.round_dices_used = self.round_dices_used + picked.dices_count();
        }
        take
    }

    /// Whether the player is asked to end the turn: with one or two of the
    /// six dice left.
    pub fn must_be_asked(&self) -> (ask: bool)
        requires
            self.round_dices_used() <= 6,
        ensures
            ask == (self.round_dices_used() == 4 || self.round_dices_used() == 5),
    {
        let dices_left = 6 - self.round_dices_used;
        dices_left == 1 || dices_left == 2
    }

    /// What the player decides once asked: the turn ends only where the
    /// player was asked and agreed.
    pub fn continue_or_stop(&self, agreed: bool) -> (action: GameAction)
        requires
            self.round_dices_used() <= 6,
        ensures
            action == GameAction::Stop <==> (self.round_dices_used() == 4
                || self.round_dices_used() == 5) && agreed,
    {
        if self.must_be_asked() && agreed {
            GameAction::Stop
        } else {
            GameAction::Continue
        }
    }
}

} // verus!
