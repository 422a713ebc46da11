//! The hand: the dice on the table, their face counts and every take they
//! allow.

use vstd::prelude::*;
use super::dice::{faces_of, Dice, Dices};
use super::score::ScoredCombination;
use super::take_option::{takes_of, Take, TakeOption};
use super::faces::{
    count_face, face_counts, lemma_count_face_bounds, lemma_counts_sum, valid_counts,
    valid_faces,
};
use super::base::{
    admissible, base_takes, group_takes, is_base_take, lemma_base_take_admissible,
    lemma_base_takes, lemma_base_takes_distinct, straight_take,
};
use super::closure::{
    all_admissible, closed_under_combination, closure, hand_takes, lemma_closure_closed,
    lemma_closure_idempotent, lemma_closure_least, lemma_hand_takes, lemma_nothing_scores,
    lemma_seed_in_closure, overlap,
};
use super::scan::{
    lemma_pair_all, lemma_pair_row, lemma_pair_step, lemma_plus_admissible, lemma_takes_bounded,
    new_combination, paired_before, scanned, take_limit,
};

verus! {

/// Why a row of dice is no hand.
#[derive(Debug, Clone, Copy, PartialEq, Eq)]
pub enum HandError {
    /// A die shows something else than one of the six faces.
    InvalidFaceValue,
    /// A face count lies outside zero to six.
    InvariantViolation,
}

/// The test of a take that leaves no die of `dices` on the table: it uses
/// that many dice.
pub open spec fn uses_all(dices: nat) -> spec_fn(TakeOption) -> bool {
    |option: TakeOption| option@.dice() == dices
}

/// Face counts held in an array, as integers.
pub open spec fn counts_of(counts: [i32; 6]) -> Seq<int> {
    Seq::new(6, |i: int| counts[i] as int)
}

/// The dice on the table, their face counts, and every take they allow.
/// The options are complete from the moment the hand exists.
#[derive(Debug)]
pub struct Hand {
    dices: Dices,
    dice_counts: [i32; 6],
    take_options: Vec<TakeOption>,
}

impl Hand {
    /// The dice of the hand.
    pub closed spec fn dices(&self) -> Seq<Dice> {
        self.dices@
    }

    /// The face counts of the hand.
    pub closed spec fn counts(&self) -> Seq<int> {
        counts_of(self.dice_counts)
    }

    /// The options of the hand, in the order in which it holds them.
    pub closed spec fn options(&self) -> Seq<TakeOption> {
        self.take_options@
    }

    /// The faces the dice show.
    pub open spec fn faces(&self) -> Seq<int> {
        faces_of(self.dices())
    }

    /// The options of the hand as takes.
    pub open spec fn takes(&self) -> Seq<Take> {
        takes_of(self.options())
    }

    /// What holds of every hand: the dice show faces, the counts are the
    /// face counts of the dice, none above six, and the options are, each
    /// once, the closure of the elementary takes.
    #[verifier::type_invariant]
    pub open spec fn wf(&self) -> bool {
        &&& valid_faces(self.faces())
        &&& self.counts() == face_counts(self.faces())
        &&& valid_counts(self.counts())
        &&& self.takes().no_duplicates()
        &&& self.takes().to_set() == hand_takes(self.counts())
    }

    /// The hand of the given dice. Dice that show no face are refused, and
    /// so are more than six dice of one face.
    pub fn from_dices(dices: Dices) -> (result: Result<Hand, HandError>)
        ensures
            result matches Ok(hand) ==> hand.wf() && hand.dices() == dices@,
            result matches Err(HandError::InvalidFaceValue) <==> !valid_faces(faces_of(dices@)),
            result matches Err(HandError::InvariantViolation) <==> valid_faces(faces_of(dices@))
                && !valid_counts(face_counts(faces_of(dices@))),
    {
        if dices.len() > 36 {
            // with more than six dice for each face, some face shows too often
            proof {
                if valid_faces(faces_of(dices@)) {
                    lemma_counts_sum(faces_of(dices@));
                }
            }
            return if Self::has_valid_faces(&dices) {
                Err(HandError::InvariantViolation)
            } else {
                Err(HandError::InvalidFaceValue)
            };
        }
        let dice_counts = match Self::generate_counts(&dices) {
            Ok(counts) => counts,
            Err(e) => {
                return Err(e);
            },
        };
        let base = match Self::generate_basic_options(&dice_counts) {
            Ok(options) => options,
            Err(e) => {
                return Err(e);
            },
        };
        proof {
            let cs = counts_of(dice_counts);
            assert forall|i: int| 0 <= i < base@.len() implies admissible(
                cs,
                #[trigger] takes_of(base@)[i],
            ) by {
                assert(takes_of(base@).to_set().contains(takes_of(base@)[i]));
                lemma_base_take_admissible(cs, takes_of(base@)[i]);
            }
        }
        let take_options = Self::combine_options(&dice_counts, base);
        Ok(Hand { dices, dice_counts, take_options })
    }

    /// Whether every die shows one of the six faces.
    pub fn has_valid_faces(dices: &Dices) -> (valid: bool)
        ensures
            valid == valid_faces(faces_of(dices@)),
    {
        let slice = dices.as_slice();
        let ghost faces = faces_of(dices@);
        let mut i: usize = 0;
        while i < slice.len()
            invariant
                i <= slice@.len(),
                slice@ == dices@,
                faces == faces_of(dices@),
                forall|k: int| 0 <= k < i ==> 1 <= #[trigger] faces[k] <= 6,
            decreases slice@.len() - i,
        {
            let value = slice[i].shown();
            if value < 1 || value > 6 {
                assert(faces[i as int] == value);
                return false;
            }
            i += 1;
        }
        true
    }

    /// Rolls `n` dice and makes their hand.
    pub fn with_dices(n: usize) -> (hand: Hand)
        requires
            n <= 6,
        ensures
            hand.wf(),
            hand.dices().len() == n,
            forall|i: int| 0 <= i < n ==> (#[trigger] hand.dices()[i]).playable(),
    {
        let dices = Dices::of_length(n);
        proof {
            let faces = faces_of(dices@);
            lemma_count_face_bounds(faces, 1);
            lemma_count_face_bounds(faces, 2);
            lemma_count_face_bounds(faces, 3);
            lemma_count_face_bounds(faces, 4);
            lemma_count_face_bounds(faces, 5);
            lemma_count_face_bounds(faces, 6);
        }
        match Self::from_dices(dices) {
            Ok(hand) => hand,
            Err(_) => vstd::pervasive::unreached(),
        }
    }

    /// The options of the hand: each take that the dice allow, once.
    pub fn get_takes(&self) -> (takes: std::slice::Iter<'_, TakeOption>)
        ensures
            self.wf(),
            vstd::std_specs::slice::into_iter_elts(takes) == self.options(),
    {
        proof {
            use_type_invariant(self);
        }
        self.take_options.iter()
    }

    /// The options of the hand as a slice.
    pub fn takes_as_slice(&self) -> (takes: &[TakeOption])
        ensures
            self.wf(),
            takes@ == self.options(),
    {
        proof {
            use_type_invariant(self);
        }
        self.take_options.as_slice()
    }

    /// The dice of the hand, as they were rolled or given.
    pub fn get_dices(&self) -> (dices: &[Dice])
        ensures
            dices@ == self.dices(),
    {
        self.dices.as_slice()
    }

    /// The face counts of the hand: entry `f - 1` counts the dice that show
    /// face `f`.
    pub fn get_counts(&self) -> (counts: [i32; 6])
        ensures
            counts_of(counts) == self.counts(),
            self.counts() == face_counts(self.faces()),
    {
        proof {
            use_type_invariant(self);
        }
        self.dice_counts
    }

    /// The number of dice in the hand.
    pub fn dices_used(&self) -> (n: usize)
        ensures
            n == self.dices().len(),
    {
        self.dices.len()
    }

    /// How many dice of the hand show `value`.
    pub fn dices_with(&self, value: i32) -> (n: i32)
        requires
            1 <= value <= 6,
        ensures
            n == self.counts()[value - 1],
            n == count_face(self.faces(), value as int),
    {
        proof {
            use_type_invariant(self);
        }
        self.dice_counts[(value as usize) - 1]
    }

    /// The options that use every die of the hand, in the order in which
    /// the hand holds them.
    pub fn takes_use_all(&self) -> (takes: Vec<&TakeOption>)
        ensures
            self.wf(),
            takes@.len() == self.options().filter(uses_all(self.dices().len())).len(),
            forall|i: int|
                0 <= i < takes@.len() ==> *(#[trigger] takes@[i]) == self.options().filter(
                    uses_all(self.dices().len()),
                )[i],
    {
        let hand_dices = self.dices_used();
        let ghost uses_all = uses_all(self.dices().len());
        let mut takes: Vec<&TakeOption> = Vec::new();
        let mut i: usize = 0;
        proof {
            use_type_invariant(self);
            lemma_hand_takes(self.counts());
        }
        while i < self.take_options.len()
            invariant
                self.wf(),
                all_admissible(self.counts(), hand_takes(self.counts())),
                hand_dices == self.dices().len(),
                uses_all == self::uses_all(self.dices().len()),
                i <= self.take_options@.len(),
                takes@.len() == self.take_options@.take(i as int).filter(uses_all).len(),
                forall|k: int|
                    0 <= k < takes@.len() ==> *(#[trigger] takes@[k]) == self.take_options@.take(
                        i as int,
                    ).filter(uses_all)[k],
            decreases self.take_options@.len() - i,
        {
            let take = &self.take_options[i];
            proof {
                assert(self.takes()[i as int] == take@);
                assert(self.takes().to_set().contains(take@));
                assert(self.take_options@.take(i + 1) =~= self.take_options@.take(i as int).push(
                    *take,
                ));
                self.take_options@.take(i as int).lemma_filter_push(*take, uses_all);
            }
            if take.dices_count() == hand_dices {
                takes.push(take);
            }
            i += 1;
        }
        proof {
            assert(self.take_options@.take(i as int) =~= self.take_options@);
        }
        takes
    }

    /// Whether the two takes together claim more dice of some face than
    /// the hand has.
    pub fn takes_overlap(&self, first: &TakeOption, second: &TakeOption) -> (over: bool)
        ensures
            over == overlap(self.counts(), first@, second@),
    {
        Self::overlap_in(&self.dice_counts, first, second)
    }

    /// Whether `take` is one of the options of the hand.
    pub fn includes_take(&self, take: &TakeOption) -> (found: bool)
        ensures
            found == self.takes().contains(take@),
    {
        Self::includes_in(&self.take_options, take)
    }

    /// Counts the dice face by face. A die that shows none of the six
    /// faces is refused.
    pub fn generate_counts(dices: &Dices) -> (result: Result<[i32; 6], HandError>)
        requires
            dices@.len() <= i32::MAX,
        ensures
            result is Ok <==> valid_faces(faces_of(dices@)),
            result matches Ok(counts) ==> counts_of(counts) == face_counts(faces_of(dices@)),
            result matches Ok(counts) ==> counts[0] + counts[1] + counts[2] + counts[3] + counts[4]
                + counts[5] == dices@.len(),
            result matches Err(e) ==> e == HandError::InvalidFaceValue,
    {
        let mut counts: [i32; 6] = [0; 6];
        let slice = dices.as_slice();
        let ghost faces = faces_of(dices@);
        let mut i: usize = 0;
        while i < slice.len()
            invariant
                i <= slice@.len(),
                slice@ == dices@,
                faces == faces_of(dices@),
                dices@.len() <= i32::MAX,
                valid_faces(faces.take(i as int)),
                forall|k: int|
                    0 <= k < 6 ==> #[trigger] counts[k] == count_face(faces.take(i as int), k + 1),
            decreases slice@.len() - i,
        {
            let value = slice[i].shown();
            if value < 1 || value > 6 {
                assert(faces[i as int] == value);
                return Err(HandError::InvalidFaceValue);
            }
            let idx = (value as usize) - 1;
            proof {
                lemma_count_face_bounds(faces.take(i as int), value as int);
                assert(faces.take(i + 1).drop_last() =~= faces.take(i as int));
            }
            counts[idx] = counts[idx] + 1;
            i += 1;
        }
        proof {
            assert(faces.take(i as int) =~= faces);
            lemma_counts_sum(faces);
        }
        Ok(counts)
    }

    /// The elementary takes of a hand with the given face counts: for each
    /// face its scoring groups, and the straight where every face shows
    /// once. Counts outside zero to six are refused.
    pub fn generate_basic_options(counts: &[i32; 6]) -> (result: Result<
        Vec<TakeOption>,
        HandError,
    >)
        ensures
            result is Ok <==> valid_counts(counts_of(*counts)),
            result matches Ok(options) ==> takes_of(options@) == base_takes(counts_of(*counts)),
            result matches Ok(options) ==> takes_of(options@).no_duplicates(),
            result matches Ok(options) ==> forall|take: Take| #[trigger]
                takes_of(options@).contains(take) <==> is_base_take(counts_of(*counts), take),
            result matches Err(e) ==> e == HandError::InvariantViolation,
    {
        let mut options: Vec<TakeOption> = Vec::new();
        let ghost cs = counts_of(*counts);
        let mut face: i32 = 1;
        while face <= 6
            invariant
                1 <= face <= 7,
                cs == counts_of(*counts),
                forall|k: int| 0 <= k < face - 1 ==> 0 <= #[trigger] cs[k] <= 6,
                takes_of(options@) == group_takes(cs, face - 1),
            decreases 7 - face,
        {
            let n_of_dices = counts[(face - 1) as usize];
            if n_of_dices < 0 || n_of_dices > 6 {
                return Err(HandError::InvariantViolation);
            }
            let mut one_face = TakeOption::one_face_all_combinations(face, n_of_dices);
            options.append(&mut one_face);
            face += 1;
        }
        let straight = counts[0] == 1 && counts[1] == 1 && counts[2] == 1 && counts[3] == 1
            && counts[4] == 1 && counts[5] == 1;
        if straight {
            let whole = TakeOption::from_combination([1, 1, 1, 1, 1, 1], ScoredCombination::Straight);
            let ghost before = options@;
            options.push(whole);
            proof {
                assert(whole@.used =~= straight_take().used);
                assert(takes_of(before.push(whole)) =~= takes_of(before).push(whole@));
            }
        }
        proof {
            lemma_base_takes_distinct(cs);
            assert forall|take: Take| #[trigger]
                takes_of(options@).contains(take) <==> is_base_take(cs, take) by {
                lemma_base_takes(cs, take);
            }
        }
        Ok(options)
    }

    /// Whether two takes together claim more dice of some face than
    /// `counts` holds.
    pub fn overlap_in(counts: &[i32; 6], first: &TakeOption, second: &TakeOption) -> (over: bool)
        ensures
            over == overlap(counts_of(*counts), first@, second@),
    {
        let a = &first.dices_used;
        let b = &second.dices_used;
        exceeds(a[0], b[0], counts[0]) || exceeds(a[1], b[1], counts[1]) || exceeds(
            a[2],
            b[2],
            counts[2],
        ) || exceeds(a[3], b[3], counts[3]) || exceeds(a[4], b[4], counts[4]) || exceeds(
            a[5],
            b[5],
            counts[5],
        )
    }

    /// Whether `take` is one of `options`.
    pub fn includes_in(options: &Vec<TakeOption>, take: &TakeOption) -> (found: bool)
        ensures
            found == takes_of(options@).contains(take@),
    {
        let mut i: usize = 0;
        while i < options.len()
            invariant
                i <= options@.len(),
                forall|k: int| 0 <= k < i ==> #[trigger] takes_of(options@)[k] != take@,
            decreases options@.len() - i,
        {
            if options[i] == *take {
                assert(takes_of(options@)[i as int] == take@);
                return true;
            }
            i += 1;
        }
        false
    }

    /// One round of the closure: the combinations of every pair of
    /// `options` that does not overlap, as far as they are not among
    /// `options` yet, each once. A take is paired with itself too.
    pub fn make_combinations(counts: &[i32; 6], options: &Vec<TakeOption>) -> (fresh: Vec<
        TakeOption,
    >)
        requires
            valid_counts(counts_of(*counts)),
            forall|i: int|
                0 <= i < options@.len() ==> admissible(
                    counts_of(*counts),
                    #[trigger] takes_of(options@)[i],
                ),
        ensures
            takes_of(fresh@).no_duplicates(),
            forall|take: Take| #[trigger]
                takes_of(fresh@).contains(take) <==> new_combination(
                    counts_of(*counts),
                    takes_of(options@).to_set(),
                    take,
                ),
    {
        let ghost cs = counts_of(*counts);
        let ghost known = takes_of(options@);
        let mut fresh: Vec<TakeOption> = Vec::new();
        let n = options.len();
        let mut i: usize = 0;
        while i < n
            invariant
                i <= n,
                n == options@.len(),
                cs == counts_of(*counts),
                known == takes_of(options@),
                valid_counts(cs),
                forall|k: int| 0 <= k < known.len() ==> admissible(cs, #[trigger] known[k]),
                takes_of(fresh@).no_duplicates(),
                scanned(cs, known, takes_of(fresh@), i as int, 0),
            decreases n - i,
        {
            let mut j: usize = 0;
            while j < n
                invariant
                    i < n,
                    j <= n,
                    n == options@.len(),
                    cs == counts_of(*counts),
                    known == takes_of(options@),
                    valid_counts(cs),
                    forall|k: int| 0 <= k < known.len() ==> admissible(cs, #[trigger] known[k]),
                    takes_of(fresh@).no_duplicates(),
                    scanned(cs, known, takes_of(fresh@), i as int, j as int),
                decreases n - j,
            {
                let ghost before = takes_of(fresh@);
                let option = &options[i];
                let option_ot = &options[j];
                assert(admissible(cs, known[i as int]) && admissible(cs, known[j as int]));
                if !Self::overlap_in(counts, option, option_ot) {
                    let new_option = option.combine(option_ot);
                    if !Self::includes_in(options, &new_option) {
                        if !Self::includes_in(&fresh, &new_option) {
                            fresh.push(new_option);
                            assert(takes_of(fresh@) =~= before.push(new_option@));
                        }
                    }
                }
                proof {
                    broadcast use vstd::seq_lib::lemma_seq_contains_after_push;

                    assert forall|take: Take| #[trigger]
                        takes_of(fresh@).contains(take) <==> !known.contains(take)
                            && paired_before(cs, known, i as int, j + 1, take) by {
                        lemma_pair_step(cs, known, i as int, j as int, take);
                    }
                }
                j += 1;
            }
            proof {
                assert forall|take: Take| #[trigger]
                    takes_of(fresh@).contains(take) <==> !known.contains(take) && paired_before(
                        cs,
                        known,
                        i + 1,
                        0,
                        take,
                    ) by {
                    lemma_pair_row(cs, known, i as int, take);
                }
            }
            i += 1;
        }
        proof {
            assert forall|take: Take| #[trigger]
                takes_of(fresh@).contains(take) <==> new_combination(
                    cs,
                    known.to_set(),
                    take,
                ) by {
                lemma_pair_all(cs, known, take);
            }
        }
        fresh
    }

    /// The closure engine: starting from `base`, adds round after round the
    /// combinations of pairs that do not overlap, until a round finds
    /// nothing new. What comes back begins with `base` and holds, each
    /// once, exactly the takes of the closure of `base`.
    pub fn combine_options(counts: &[i32; 6], base: Vec<TakeOption>) -> (all: Vec<TakeOption>)
        requires
            valid_counts(counts_of(*counts)),
            takes_of(base@).no_duplicates(),
            forall|i: int|
                0 <= i < base@.len() ==> admissible(counts_of(*counts), #[trigger] takes_of(base@)[i]),
        ensures
            takes_of(all@).no_duplicates(),
            takes_of(all@).to_set() == closure(counts_of(*counts), takes_of(base@).to_set()),
            base@.is_prefix_of(all@),
    {
        let ghost cs = counts_of(*counts);
        let ghost seed = takes_of(base@).to_set();
        let ghost start = base@;
        let mut options = base;
        proof {
            assert forall|take: Take| #[trigger] seed.contains(take) implies admissible(
                cs,
                take,
            ) && closure(cs, seed).contains(take) by {
                lemma_seed_in_closure(cs, seed, take);
            }
        }
        loop
            invariant
                cs == counts_of(*counts),
                valid_counts(cs),
                all_admissible(cs, seed),
                start.is_prefix_of(options@),
                takes_of(options@).no_duplicates(),
                forall|i: int|
                    0 <= i < options@.len() ==> admissible(cs, #[trigger] takes_of(options@)[i]),
                seed.subset_of(takes_of(options@).to_set()),
                takes_of(options@).to_set().subset_of(closure(cs, seed)),
            ensures
                closed_under_combination(cs, takes_of(options@).to_set()),
            decreases take_limit() - options@.len(),
        {
            let ghost known = takes_of(options@);
            let mut new_options = Self::make_combinations(counts, &options);
            let ghost fresh = takes_of(new_options@);
            if new_options.len() == 0 {
                proof {
                    assert forall|a: Take, b: Take|
                        known.to_set().contains(a) && known.to_set().contains(b) && !overlap(
                            cs,
                            a,
                            b,
                        ) implies known.to_set().contains(#[trigger] a.plus(b)) by {
                        if !known.contains(a.plus(b)) {
                            assert(fresh.contains(a.plus(b)));
                        }
                    }
                }
                break ;
            }
            options.append(&mut new_options);
            proof {
                let after = takes_of(options@);
                assert(after =~= known + fresh);
                lemma_closure_closed(cs, seed);
                assert forall|k: int| 0 <= k < fresh.len() implies !known.contains(
                    #[trigger] fresh[k],
                ) && admissible(cs, fresh[k]) && closure(cs, seed).contains(fresh[k]) by {
                    let take = fresh[k];
                    assert(fresh.contains(take));
                    let (a, b) = choose|a: Take, b: Take|
                        known.to_set().contains(a) && known.to_set().contains(b) && !overlap(
                            cs,
                            a,
                            b,
                        ) && take == #[trigger] a.plus(b);
                    lemma_plus_admissible(cs, a, b);
                }
                assert forall|take: Take| seed.contains(take) implies after.to_set().contains(
                    take,
                ) by {
                    let k = choose|k: int| 0 <= k < known.len() && known[k] == take;
                    assert(after[k] == take);
                }
                lemma_takes_bounded(cs, after);
            }
        }
        proof {
            lemma_closure_least(cs, seed, takes_of(options@).to_set());
        }
        options
    }
}

/// Soundness of the options: every option of a hand claims, of each face,
/// no more dice than the hand has of it, and never a negative number.
pub proof fn lemma_options_fit(hand: Hand, take: Take)
    requires
        hand.wf(),
        hand.takes().contains(take),
    ensures
        take.wf(),
        take.fits(hand.counts()),
{
    lemma_hand_takes(hand.counts());
    assert(hand.takes().to_set().contains(take));
}

/// Completeness of the options: where two options of a hand do not
/// overlap, their combination is an option of the hand too.
pub proof fn lemma_options_closed(hand: Hand, first: Take, second: Take)
    requires
        hand.wf(),
        hand.takes().contains(first),
        hand.takes().contains(second),
        !overlap(hand.counts(), first, second),
    ensures
        hand.takes().contains(first.plus(second)),
{
    lemma_hand_takes(hand.counts());
}

/// The options are a fixed point: closing them once more gives the same
/// set, and one more round of combination finds nothing new.
pub proof fn lemma_options_stable(hand: Hand)
    requires
        hand.wf(),
    ensures
        closure(hand.counts(), hand.takes().to_set()) == hand.takes().to_set(),
        forall|take: Take| !new_combination(hand.counts(), hand.takes().to_set(), take),
{
    let counts = hand.counts();
    lemma_hand_takes(counts);
    lemma_closure_idempotent(counts, base_takes(counts).to_set());
}

/// A hand without a one, without a five and without three dice of one face
/// has no option at all, and so none that uses all its dice.
pub proof fn lemma_no_scoring_face(hand: Hand)
    requires
        hand.wf(),
        hand.counts()[0] == 0,
        hand.counts()[4] == 0,
        hand.counts()[1] <= 2,
        hand.counts()[2] <= 2,
        hand.counts()[3] <= 2,
        hand.counts()[5] <= 2,
    ensures
        hand.options().len() == 0,
        hand.options().filter(uses_all(hand.dices().len())).len() == 0,
{
    lemma_nothing_scores(hand.counts());
    if hand.options().len() > 0 {
        assert(hand.takes().to_set().contains(hand.takes()[0]));
    }
    hand.options().lemma_filter_len(uses_all(hand.dices().len()));
}

/// Whether `a + b` is more than `limit`, without overflow.
fn exceeds(a: i32, b: i32, limit: i32) -> (over: bool)
    ensures
        over == (a + b > limit),
{
    a as i64 + b as i64 > limit as i64
}

} // verus!
