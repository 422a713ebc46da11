//! The scoring table: the point value of each named combination.

use vstd::prelude::*;

verus! {

/// A named rule of the scoring table. The groups of three and more carry the
/// face they are made of.
#[derive(Debug)]
pub enum ScoredCombination {
    Straight,
    One,
    Five,
    TwoOnes,
    TwoFives,
    Triple(i32),
    Quad(i32),
    Quint(i32),
    Sext(i32),
}

/// Points for three dice of one face: a thousand for ones, otherwise a
/// hundred times the face.
pub open spec fn triple_score(face: int) -> int {
    if face == 1 {
        1000
    } else {
        face * 100
    }
}

impl ScoredCombination {
    /// The face of a group is one of the six faces of a die.
    pub open spec fn wf(&self) -> bool {
        match *self {
            ScoredCombination::Triple(f) => 1 <= f <= 6,
            ScoredCombination::Quad(f) => 1 <= f <= 6,
            ScoredCombination::Quint(f) => 1 <= f <= 6,
            ScoredCombination::Sext(f) => 1 <= f <= 6,
            _ => true,
        }
    }

    /// The point value of the combination. Each die beyond the third doubles
    /// the value of the group.
    pub open spec fn score(&self) -> int {
        match *self {
            ScoredCombination::Straight => 2000,
            ScoredCombination::One => 100,
            ScoredCombination::Five => 50,
            ScoredCombination::TwoOnes => 200,
            ScoredCombination::TwoFives => 100,
            ScoredCombination::Triple(f) => triple_score(f as int),
            ScoredCombination::Quad(f) => 2 * triple_score(f as int),
            ScoredCombination::Quint(f) => 4 * triple_score(f as int),
            ScoredCombination::Sext(f) => 8 * triple_score(f as int),
        }
    }

    /// The point value of the combination.
    pub fn to_score(&self) -> (value: i32)
        requires
            self.wf(),
        ensures
            value == self.score(),
    {
        match self {
            ScoredCombination::Straight => 2000,
            ScoredCombination::One => 100,
            ScoredCombination::Five => 50,
            ScoredCombination::TwoOnes => 200,
            ScoredCombination::TwoFives => 100,
            ScoredCombination::Triple(1) => 1000,
            ScoredCombination::Quad(1) => 1000 * 2,
            ScoredCombination::Quint(1) => 1000 * 4,
            ScoredCombination::Sext(1) => 1000 * 8,
            ScoredCombination::Triple(v) => *v * 100,
            ScoredCombination::Quad(v) => *v * 100 * 2,
            ScoredCombination::Quint(v) => *v * 100 * 4,
            ScoredCombination::Sext(v) => *v * 100 * 8,
        }
    }
}

/// Each die beyond the third doubles a group: four, five and six of a face
/// are worth two, four and eight times three of that face.
pub proof fn lemma_group_doubles(face: i32)
    ensures
        ScoredCombination::Quad(face).score() == 2 * ScoredCombination::Triple(face).score(),
        ScoredCombination::Quint(face).score() == 4 * ScoredCombination::Triple(face).score(),
        ScoredCombination::Sext(face).score() == 8 * ScoredCombination::Triple(face).score(),
{
}

} // verus!
