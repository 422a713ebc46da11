//! Take options: one scoring selection of dice, with the dice it uses and
//! the points it is worth.

use vstd::prelude::*;
use vstd::std_specs::cmp::PartialEqSpecImpl;
use super::score::ScoredCombination;

verus! {

/// What a take option is, mathematically: how many dice of each face it
/// uses (index `f - 1` for face `f`) and its point value.
pub struct Take {
    pub used: Seq<int>,
    pub value: int,
}

impl Take {
    /// The take of no dice and no points.
    pub open spec fn nothing() -> Take {
        Take { used: Seq::new(6, |i: int| 0int), value: 0 }
    }

    /// The usage vector has one entry per face, none of them negative.
    pub open spec fn wf(self) -> bool {
        &&& self.used.len() == 6
        &&& 0 <= self.used[0]
        &&& 0 <= self.used[1]
        &&& 0 <= self.used[2]
        &&& 0 <= self.used[3]
        &&& 0 <= self.used[4]
        &&& 0 <= self.used[5]
    }

    /// The number of dice the take uses.
    pub open spec fn dice(self) -> int {
        self.used[0] + self.used[1] + self.used[2] + self.used[3] + self.used[4] + self.used[5]
    }

    /// The take that uses the dice of both and is worth the points of both.
    pub open spec fn plus(self, other: Take) -> Take {
        Take {
            used: Seq::new(6, |i: int| self.used[i] + other.used[i]),
            value: self.value + other.value,
        }
    }

    /// Every entry and the value can be held in an `i32`.
    pub open spec fn representable(self) -> bool {
        &&& i32::MIN <= self.used[0] <= i32::MAX
        &&& i32::MIN <= self.used[1] <= i32::MAX
        &&& i32::MIN <= self.used[2] <= i32::MAX
        &&& i32::MIN <= self.used[3] <= i32::MAX
        &&& i32::MIN <= self.used[4] <= i32::MAX
        &&& i32::MIN <= self.used[5] <= i32::MAX
        &&& i32::MIN <= self.value <= i32::MAX
    }

    /// The take claims no more dice of any face than `counts` holds.
    pub open spec fn fits(self, counts: Seq<int>) -> bool {
        &&& self.used[0] <= counts[0]
        &&& self.used[1] <= counts[1]
        &&& self.used[2] <= counts[2]
        &&& self.used[3] <= counts[3]
        &&& self.used[4] <= counts[4]
        &&& self.used[5] <= counts[5]
    }
}

/// The rule of the scoring table for `k` dice of `face`, for `k` from one to
/// six. For one die or two it is the rule for ones where `face` is one and
/// the rule for fives otherwise: no other face scores with so few dice.
pub open spec fn group_rule(face: int, k: int) -> ScoredCombination {
    if k == 1 {
        if face == 1 {
            ScoredCombination::One
        } else {
            ScoredCombination::Five
        }
    } else if k == 2 {
        if face == 1 {
            ScoredCombination::TwoOnes
        } else {
            ScoredCombination::TwoFives
        }
    } else if k == 3 {
        ScoredCombination::Triple(face as i32)
    } else if k == 4 {
        ScoredCombination::Quad(face as i32)
    } else if k == 5 {
        ScoredCombination::Quint(face as i32)
    } else {
        ScoredCombination::Sext(face as i32)
    }
}

/// Whether `k` dice of `face` score as a group: three and more of any face
/// do, one or two only of ones and fives.
pub open spec fn group_scores(face: int, k: int) -> bool {
    &&& 1 <= face <= 6
    &&& 1 <= k <= 6
    &&& (k <= 2 ==> face == 1 || face == 5)
}

/// The elementary take of `k` dice of `face`.
pub open spec fn group_take(face: int, k: int) -> Take {
    Take {
        used: Seq::new(6, |i: int| if i == face - 1 { k } else { 0 }),
        value: group_rule(face, k).score(),
    }
}

/// The elementary takes of one face that shows on `n` dice, from the
/// smallest group to the largest.
pub open spec fn one_face_takes(face: int, n: int) -> Seq<Take>
    decreases n,
{
    if n <= 0 {
        Seq::empty()
    } else if group_scores(face, n) {
        one_face_takes(face, n - 1).push(group_take(face, n))
    } else {
        one_face_takes(face, n - 1)
    }
}

/// The elementary takes of one face are the scoring groups of up to `n` dice.
pub proof fn lemma_one_face_takes(face: int, n: int, take: Take)
    ensures
        one_face_takes(face, n).contains(take) <==> exists|k: int|
            group_scores(face, k) && k <= n && take == #[trigger] group_take(face, k),
    decreases n,
{
    broadcast use vstd::seq_lib::lemma_seq_contains_after_push;

    if n > 0 {
        lemma_one_face_takes(face, n - 1, take);
    }
}

/// The views of a sequence of take options.
pub open spec fn takes_of(options: Seq<TakeOption>) -> Seq<Take> {
    Seq::new(options.len(), |i: int| options[i]@)
}

/// One scoring selection of dice: `dices_used[f - 1]` dice of each face
/// `f`, worth `value` points. Two options are equal when they use the same
/// dice and are worth the same.
#[derive(Debug, Clone, Copy, Eq, Hash)]
pub struct TakeOption {
    pub dices_used: [i32; 6],
    pub value: i32,
}

impl View for TakeOption {
    type V = Take;

    open spec fn view(&self) -> Take {
        Take { used: Seq::new(6, |i: int| self.dices_used[i] as int), value: self.value as int }
    }
}

impl PartialEq for TakeOption {
    /// The same dice of every face and the same value.
    fn eq(&self, other: &Self) -> (same: bool) {
        let mine = &self.dices_used;
        let theirs = &other.dices_used;
        let same = mine[0] == theirs[0] && mine[1] == theirs[1] && mine[2] == theirs[2] && mine[3]
            == theirs[3] && mine[4] == theirs[4] && mine[5] == theirs[5] && self.value
            == other.value;
        proof {
            if same {
                assert(self@.used =~= other@.used);
            } else if self.value == other.value {
                let k = if mine[0] != theirs[0] {
                    0int
                } else if mine[1] != theirs[1] {
                    1int
                } else if mine[2] != theirs[2] {
                    2int
                } else if mine[3] != theirs[3] {
                    3int
                } else if mine[4] != theirs[4] {
                    4int
                } else {
                    5int
                };
                assert(self@.used[k] != other@.used[k]);
            }
        }
        same
    }
}

impl PartialEqSpecImpl for TakeOption {
    open spec fn obeys_eq_spec() -> bool {
        true
    }

    open spec fn eq_spec(&self, other: &Self) -> bool {
        self@ == other@
    }
}

impl TakeOption {
    /// The empty take: no dice, no points.
    pub fn new() -> (take: Self)
        ensures
            take@ == Take::nothing(),
    {
        let take = TakeOption { dices_used: [0; 6], value: 0 };
        assert(take@.used =~= Take::nothing().used);
        take
    }

    /// The take of the given dice, worth what the scoring table gives for
    /// `comb`.
    pub fn from_combination(dices_used: [i32; 6], comb: ScoredCombination) -> (take: Self)
        requires
            comb.wf(),
        ensures
            take.dices_used == dices_used,
            take.value == comb.score(),
    {
        let value = comb.to_score();
        TakeOption { dices_used, value }
    }

    /// The number of dice the take uses.
    pub fn dices_count(&self) -> (count: usize)
        requires
            self@.wf(),
            self@.dice() <= i32::MAX,
        ensures
            count == self@.dice(),
    {
        let used = &self.dices_used;
        let sum: i32 = used[0] + used[1] + used[2] + used[3] + used[4] + used[5];
        sum as usize
    }

    /// The elementary takes of `n` dice that all show `face`: each group
    /// of one up to `n` of them that scores, smallest first. One die or two
    /// score only where they show a one or a five; three and more score
    /// for every face.
    pub fn one_face_all_combinations(face: i32, n: i32) -> (options: Vec<TakeOption>)
        requires
            1 <= face <= 6,
            0 <= n <= 6,
        ensures
            takes_of(options@) == one_face_takes(face as int, n as int),
            forall|take: Take| #[trigger]
                takes_of(options@).contains(take) <==> exists|k: int|
                    group_scores(face as int, k) && k <= n && take == #[trigger] group_take(
                        face as int,
                        k,
                    ),
    {
        let mut options: Vec<TakeOption> = Vec::new();
        let mut i: i32 = 1;
        while i <= n
            invariant
                1 <= face <= 6,
                1 <= i <= n + 1,
                n <= 6,
                takes_of(options@) == one_face_takes(face as int, i - 1),
            decreases n - i + 1,
        {
            let comb = match i {
                1 => match face {
                    1 => Some(ScoredCombination::One),
                    5 => Some(ScoredCombination::Five),
                    _ => None,
                },
                2 => match face {
                    1 => Some(ScoredCombination::TwoOnes),
                    5 => Some(ScoredCombination::TwoFives),
                    _ => None,
                },
                3 => Some(ScoredCombination::Triple(face)),
                4 => Some(ScoredCombination::Quad(face)),
                5 => Some(ScoredCombination::Quint(face)),
                _ => Some(ScoredCombination::Sext(face)),
            };
            if let Some(comb) = comb {
                let mut dices_used: [i32; 6] = [0; 6];
                dices_used[(face as usize) - 1] = i;
                let option = TakeOption::from_combination(dices_used, comb);
                options.push(option);
                proof {
                    assert(option@.used =~= group_take(face as int, i as int).used);
                }
            }
            i += 1;
        }
        proof {
            assert forall|take: Take| #[trigger]
                takes_of(options@).contains(take) <==> exists|k: int|
                    group_scores(face as int, k) && k <= n && take == #[trigger] group_take(
                        face as int,
                        k,
                    ) by {
                lemma_one_face_takes(face as int, n as int, take);
            }
        }
        options
    }

    /// Adds the dice and the points of two takes.
    pub fn combine(&self, other: &TakeOption) -> (sum: TakeOption)
        requires
            self@.plus(other@).representable(),
        ensures
            sum@ == self@.plus(other@),
    {
        let mut dices_used: [i32; 6] = [0; 6];
        let mut i: usize = 0;
        while i < 6
            invariant
                i <= 6,
                self@.plus(other@).representable(),
                forall|k: int|
                    0 <= k < i ==> #[trigger] dices_used[k] == self.dices_used[k]
                        + other.dices_used[k],
            decreases 6 - i,
        {
            dices_used[i] = self.dices_used[i] + other.dices_used[i];
            i += 1;
        }
        let sum = TakeOption { dices_used, value: self.value + other.value };
        assert(sum@.used =~= self@.plus(other@).used);
        sum
    }
}

impl Default for TakeOption {
    /// The empty take.
    fn default() -> (take: Self)
        ensures
            take@ == Take::nothing(),
    {
        Self::new()
    }
}

} // verus!
