//! The option set of a hand, as mathematics: the closure of its elementary
//! takes under combination.

use vstd::prelude::*;
use super::base::{
    admissible, base_takes, lemma_base_take_admissible, lemma_base_takes,
};
use super::faces::valid_counts;
use super::take_option::Take;

verus! {

/// The sum of a sequence of takes: their dice and their points together.
pub open spec fn sum_takes(parts: Seq<Take>) -> Take
    decreases parts.len(),
{
    if parts.len() == 0 {
        Take::nothing()
    } else {
        sum_takes(parts.drop_last()).plus(parts.last())
    }
}

/// `parts` is a choice of one or more takes of `seed`, repeats allowed.
pub open spec fn drawn_from(seed: Set<Take>, parts: Seq<Take>) -> bool {
    &&& parts.len() > 0
    &&& forall|i: int| 0 <= i < parts.len() ==> seed.contains(#[trigger] parts[i])
}

/// `take` is the sum of one or more takes of `seed` and fits the hand.
pub open spec fn combinable(counts: Seq<int>, seed: Set<Take>, take: Take) -> bool {
    exists|parts: Seq<Take>|
        drawn_from(seed, parts) && take == #[trigger] sum_takes(parts) && take.fits(counts)
}

/// The closure of `seed` under combination within a hand: every take that
/// is a sum of takes of `seed` and claims no more dice than the hand has.
pub open spec fn closure(counts: Seq<int>, seed: Set<Take>) -> Set<Take> {
    Set::new(|take: Take| combinable(counts, seed, take))
}

/// The full option set of a hand with the given face counts.
pub open spec fn hand_takes(counts: Seq<int>) -> Set<Take> {
    closure(counts, base_takes(counts).to_set())
}

/// Two takes overlap in a hand when together they claim more dice of some
/// face than the hand has.
pub open spec fn overlap(counts: Seq<int>, first: Take, second: Take) -> bool {
    !first.plus(second).fits(counts)
}

/// A set of takes in which every pair that does not overlap has its
/// combination present.
pub open spec fn closed_under_combination(counts: Seq<int>, takes: Set<Take>) -> bool {
    forall|a: Take, b: Take|
        takes.contains(a) && takes.contains(b) && !overlap(counts, a, b) ==> takes.contains(
            #[trigger] a.plus(b),
        )
}

/// Every take of the set is admissible for the hand.
pub open spec fn all_admissible(counts: Seq<int>, takes: Set<Take>) -> bool {
    forall|take: Take| #[trigger] takes.contains(take) ==> admissible(counts, take)
}

/// The sum of one take is that take.
pub proof fn lemma_sum_single(take: Take)
    requires
        take.used.len() == 6,
    ensures
        sum_takes(seq![take]) == take,
{
    let parts = seq![take];
    assert(sum_takes(parts.drop_last()) == Take::nothing());
    assert(Take::nothing().plus(take).used =~= take.used);
}

/// The sum of two rows of takes, one after the other, is the sum of their
/// sums.
pub proof fn lemma_sum_concat(first: Seq<Take>, second: Seq<Take>)
    ensures
        sum_takes(first + second) == sum_takes(first).plus(sum_takes(second)),
    decreases second.len(),
{
    if second.len() == 0 {
        assert(sum_takes(first).plus(Take::nothing()).used =~= sum_takes(first).used);
    } else {
        lemma_sum_concat(first, second.drop_last());
        assert((first + second).drop_last() =~= first + second.drop_last());
        let a = sum_takes(first);
        let b = sum_takes(second.drop_last());
        let c = second.last();
        assert(a.plus(b).plus(c).used =~= a.plus(b.plus(c)).used);
    }
}

/// A sum of takes that have no negative entry and are worth at most two
/// thousand points a die is such a take itself.
pub proof fn lemma_sum_bounds(parts: Seq<Take>)
    requires
        forall|i: int|
            0 <= i < parts.len() ==> (#[trigger] parts[i]).wf() && 0 <= parts[i].value <= 2000
                * parts[i].dice(),
    ensures
        sum_takes(parts).wf(),
        0 <= sum_takes(parts).value <= 2000 * sum_takes(parts).dice(),
    decreases parts.len(),
{
    if parts.len() > 0 {
        lemma_sum_bounds(parts.drop_last());
    }
}

/// A take of the seed that fits the hand is in the closure.
pub proof fn lemma_seed_in_closure(counts: Seq<int>, seed: Set<Take>, take: Take)
    requires
        seed.contains(take),
        take.used.len() == 6,
        take.fits(counts),
    ensures
        closure(counts, seed).contains(take),
{
    lemma_sum_single(take);
}

/// The closure of admissible takes holds admissible takes only.
pub proof fn lemma_closure_admissible(counts: Seq<int>, seed: Set<Take>)
    requires
        all_admissible(counts, seed),
    ensures
        all_admissible(counts, closure(counts, seed)),
{
    assert forall|take: Take| #[trigger]
        closure(counts, seed).contains(take) implies admissible(counts, take) by {
        let parts = choose|parts: Seq<Take>|
            drawn_from(seed, parts) && take == #[trigger] sum_takes(parts) && take.fits(counts);
        lemma_sum_bounds(parts);
    }
}

/// The closure is closed: the combination of two of its takes that do not
/// overlap is one of its takes.
pub proof fn lemma_closure_closed(counts: Seq<int>, seed: Set<Take>)
    ensures
        closed_under_combination(counts, closure(counts, seed)),
{
    let all = closure(counts, seed);
    assert forall|a: Take, b: Take|
        all.contains(a) && all.contains(b) && !overlap(counts, a, b) implies all.contains(
        #[trigger] a.plus(b),
    ) by {
        let first = choose|parts: Seq<Take>|
            drawn_from(seed, parts) && a == #[trigger] sum_takes(parts) && a.fits(counts);
        let second = choose|parts: Seq<Take>|
            drawn_from(seed, parts) && b == #[trigger] sum_takes(parts) && b.fits(counts);
        lemma_sum_concat(first, second);
    }
}

/// A sum of admissible seed takes that fits the hand lies in every closed
/// set that holds the seed.
proof fn lemma_sum_in_closed(counts: Seq<int>, seed: Set<Take>, takes: Set<Take>, parts: Seq<Take>)
    requires
        all_admissible(counts, seed),
        seed.subset_of(takes),
        closed_under_combination(counts, takes),
        drawn_from(seed, parts),
        sum_takes(parts).fits(counts),
    ensures
        takes.contains(sum_takes(parts)),
    decreases parts.len(),
{
    let last = parts.last();
    if parts.len() == 1 {
        assert(parts =~= seq![last]);
        lemma_sum_single(last);
    } else {
        let front = parts.drop_last();
        lemma_sum_in_closed(counts, seed, takes, front);
    }
}

/// The closure is the least closed set above the seed.
pub proof fn lemma_closure_least(counts: Seq<int>, seed: Set<Take>, takes: Set<Take>)
    requires
        all_admissible(counts, seed),
        seed.subset_of(takes),
        closed_under_combination(counts, takes),
    ensures
        closure(counts, seed).subset_of(takes),
{
    assert forall|take: Take| closure(counts, seed).contains(take) implies takes.contains(
        take,
    ) by {
        let parts = choose|parts: Seq<Take>|
            drawn_from(seed, parts) && take == #[trigger] sum_takes(parts) && take.fits(counts);
        lemma_sum_in_closed(counts, seed, takes, parts);
    }
}

/// Closing a closed set adds nothing: the closure of the closure of a seed
/// is the closure of the seed.
pub proof fn lemma_closure_idempotent(counts: Seq<int>, seed: Set<Take>)
    requires
        all_admissible(counts, seed),
    ensures
        closure(counts, closure(counts, seed)) == closure(counts, seed),
{
    let once = closure(counts, seed);
    let twice = closure(counts, once);
    lemma_closure_admissible(counts, seed);
    lemma_closure_closed(counts, seed);
    lemma_closure_least(counts, once, once);
    assert forall|take: Take| once.contains(take) implies twice.contains(take) by {
        lemma_seed_in_closure(counts, once, take);
    }
}

/// The option set of a hand with valid face counts: every take in it is
/// admissible, and it is closed under combination.
pub proof fn lemma_hand_takes(counts: Seq<int>)
    requires
        valid_counts(counts),
    ensures
        all_admissible(counts, base_takes(counts).to_set()),
        base_takes(counts).to_set().subset_of(hand_takes(counts)),
        all_admissible(counts, hand_takes(counts)),
        closed_under_combination(counts, hand_takes(counts)),
{
    let seed = base_takes(counts).to_set();
    assert forall|take: Take| #[trigger] seed.contains(take) implies admissible(counts, take)
        && hand_takes(counts).contains(take) by {
        lemma_base_takes(counts, take);
        lemma_base_take_admissible(counts, take);
        lemma_seed_in_closure(counts, seed, take);
    }
    lemma_closure_admissible(counts, seed);
    lemma_closure_closed(counts, seed);
}

/// Face counts without a one, without a five and with no face three times
/// allow no take.
pub proof fn lemma_nothing_scores(counts: Seq<int>)
    requires
        valid_counts(counts),
        counts[0] == 0,
        counts[4] == 0,
        counts[1] <= 2,
        counts[2] <= 2,
        counts[3] <= 2,
        counts[5] <= 2,
    ensures
        hand_takes(counts) == Set::<Take>::empty(),
{
    let seed = base_takes(counts).to_set();
    assert forall|take: Take| !seed.contains(take) by {
        lemma_base_takes(counts, take);
    }
    assert forall|take: Take| !hand_takes(counts).contains(take) by {
        if hand_takes(counts).contains(take) {
            let parts = choose|parts: Seq<Take>|
                drawn_from(seed, parts) && take == #[trigger] sum_takes(parts) && take.fits(counts);
            assert(seed.contains(parts[0]));
        }
    }
    assert(hand_takes(counts) =~= Set::<Take>::empty());
}

} // verus!
