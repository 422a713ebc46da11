//! A die and a row of dice.

use rand::Rng;
use vstd::prelude::*;
use vstd::std_specs::convert::FromSpecImpl;

verus! {

/// One die: the number of its sides and the face it shows. A die that was
/// made by `with_sides` shows nothing yet, which is the value zero.
#[derive(Debug, PartialEq, Eq, Clone, Copy, Hash)]
pub struct Dice {
    sides: i32,
    pub value: i32,
}

impl Dice {
    /// The number of sides of the die.
    pub closed spec fn sides(&self) -> int {
        self.sides as int
    }

    /// The face the die shows, the content of the field `value`.
    pub closed spec fn face(&self) -> int {
        self.value as int
    }

    /// A die of the game: six sides, and a face in one to six.
    pub open spec fn playable(&self) -> bool {
        self.sides() == 6 && 1 <= self.face() <= 6
    }

    /// The face the die shows.
    pub fn shown(&self) -> (value: i32)
        ensures
            value == self.face(),
    {
        self.value
    }

    /// A six-sided die, rolled once.
    pub fn new() -> (dice: Self)
        ensures
            dice.playable(),
    {
        let mut dice = Dice { sides: 6, value: 0 };
        dice.roll();
        dice
    }

    /// A die with this many sides that has not been rolled yet.
    pub fn with_sides(sides: i32) -> (dice: Self)
        ensures
            dice.sides() == sides,
            dice.face() == 0,
    {
        Dice { sides, value: 0 }
    }

    /// A six-sided die that shows `value`. Whether a die can show that is
    /// not asked here: a hand refuses dice that show no face.
    pub fn from_value(value: i32) -> (dice: Self)
        ensures
            dice.sides() == 6,
            dice.face() == value,
    {
        Dice { sides: 6, value }
    }

    /// Draws a face from `rand::thread_rng()`, by `Rng::gen_range` on the
    /// inclusive range from one to the number of sides. `gen_range` panics
    /// on an empty range, so the die needs a side; what it returns lies in
    /// the range. Which face comes is left open. Nothing is proved of
    /// this: the generator is the crate's, and it gives up only where the
    /// system has no randomness to seed it.
    #[verifier::external_body]
    fn roll_internal(&self) -> (value: i32)
        requires
            1 <= self.sides(),
        ensures
            1 <= value <= self.sides(),
    {
        rand::thread_rng().gen_range(1..=self.sides)
    }

    /// Rolls the die: afterwards it shows one of its faces.
    pub fn roll(&mut self)
        requires
            1 <= old(self).sides(),
        ensures
            final(self).sides() == old(self).sides(),
            1 <= final(self).face() <= final(self).sides(),
    {
        self.value = self.roll_internal();
    }
}

impl Default for Dice {
    /// A six-sided die, rolled once.
    fn default() -> (dice: Self)
        ensures
            dice.playable(),
    {
        Self::new()
    }
}

/// A row of dice, in the order they were rolled or given.
#[derive(Debug, PartialEq, Eq)]
pub struct Dices(Vec<Dice>);

impl View for Dices {
    type V = Seq<Dice>;

    closed spec fn view(&self) -> Seq<Dice> {
        self.0@
    }
}

/// The faces that a row of dice shows.
pub open spec fn faces_of(dices: Seq<Dice>) -> Seq<int> {
    Seq::new(dices.len(), |i: int| dices[i].face())
}

impl Dices {
    /// No dice.
    pub fn new() -> (dices: Self)
        ensures
            dices@ == Seq::<Dice>::empty(),
    {
        Dices(Vec::new())
    }

    /// Rolls `n` six-sided dice.
    pub fn of_length(n: usize) -> (dices: Self)
        ensures
            dices@.len() == n,
            forall|i: int| 0 <= i < n ==> (#[trigger] dices@[i]).playable(),
    {
        let mut v: Vec<Dice> = Vec::with_capacity(n);
        let mut i: usize = 0;
        while i < n
            invariant
                i <= n,
                v@.len() == i,
                forall|k: int| 0 <= k < i ==> (#[trigger] v@[k]).playable(),
            decreases n - i,
        {
            v.push(Dice::default());
            i += 1;
        }
        Dices(v)
    }

    /// The dice of `self` followed by those of `other`.
    pub fn combine(&self, other: &Self) -> (both: Self)
        ensures
            both@ == self@ + other@,
    {
        let mut s: Vec<Dice> = Vec::new();
        let mut i: usize = 0;
        while i < self.0.len()
            invariant
                i <= self.0@.len(),
                s@ == self.0@.take(i as int),
            decreases self.0@.len() - i,
        {
            s.push(self.0[i]);
            i += 1;
        }
        let mut j: usize = 0;
        while j < other.0.len()
            invariant
                j <= other.0@.len(),
                s@ == self.0@ + other.0@.take(j as int),
            decreases other.0@.len() - j,
        {
            s.push(other.0[j]);
            j += 1;
        }
        Dices(s)
    }

    /// The number of dice.
    pub fn len(&self) -> (n: usize)
        ensures
            n == self@.len(),
    {
        self.0.len()
    }

    /// The dice one by one, in their order.
    pub fn iter(&self) -> (it: std::slice::Iter<'_, Dice>)
        ensures
            vstd::std_specs::slice::into_iter_elts(it) == self@,
    {
        self.0.iter()
    }

    /// The dice as a slice.
    pub fn as_slice(&self) -> (dices: &[Dice])
        ensures
            dices@ == self@,
    {
        self.0.as_slice()
    }
}

impl Default for Dices {
    /// No dice.
    fn default() -> (dices: Self)
        ensures
            dices@ == Seq::<Dice>::empty(),
    {
        Self::new()
    }
}

impl<const N: usize> FromSpecImpl<[i32; N]> for Dices {
    open spec fn obeys_from_spec() -> bool {
        false
    }

    open spec fn from_spec(arr: [i32; N]) -> Self {
        arbitrary()
    }
}

impl<const N: usize> From<[i32; N]> for Dices {
    /// Six-sided dice that show the given values, in their order.
    fn from(arr: [i32; N]) -> (dices: Self)
        ensures
            dices@.len() == N,
            forall|i: int| 0 <= i < N ==> (#[trigger] dices@[i]).sides() == 6,
            faces_of(dices@) == Seq::new(N as nat, |i: int| arr[i] as int),
    {
        let mut s: Vec<Dice> = Vec::new();
        let mut i: usize = 0;
        while i < N
            invariant
                i <= N,
                s@.len() == i,
                forall|k: int| 0 <= k < i ==> (#[trigger] s@[k]).sides() == 6,
                forall|k: int| 0 <= k < i ==> (#[trigger] s@[k]).face() == arr[k],
            decreases N - i,
        {
            s.push(Dice::from_value(arr[i]));
            i += 1;
        }
        Dices(s)
    }
}

} // verus!
