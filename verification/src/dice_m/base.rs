//! The elementary takes of a hand: the scoring groups of each face and the
//! straight.

use vstd::prelude::*;
use super::faces::{is_straight, valid_counts};
use super::score::ScoredCombination;
use super::take_option::{group_scores, group_take, lemma_one_face_takes, one_face_takes, Take};

verus! {

/// The take of a whole straight.
pub open spec fn straight_take() -> Take {
    Take { used: Seq::new(6, |i: int| 1int), value: ScoredCombination::Straight.score() }
}

/// The elementary takes of the faces from one up to `upto`, face by face.
pub open spec fn group_takes(counts: Seq<int>, upto: int) -> Seq<Take>
    decreases upto,
{
    if upto <= 0 {
        Seq::empty()
    } else {
        group_takes(counts, upto - 1) + one_face_takes(upto, counts[upto - 1])
    }
}

/// The elementary takes of a hand with the given face counts: the groups of
/// each face, and last the straight where the hand is one.
pub open spec fn base_takes(counts: Seq<int>) -> Seq<Take> {
    if is_straight(counts) {
        group_takes(counts, 6).push(straight_take())
    } else {
        group_takes(counts, 6)
    }
}

/// What makes a take elementary for a hand: it is a scoring group of some
/// face, of no more dice than the hand has of that face, or it is the
/// straight of a hand that is one.
pub open spec fn is_base_take(counts: Seq<int>, take: Take) -> bool {
    ||| exists|face: int, k: int|
        group_scores(face, k) && k <= counts[face - 1] && take == #[trigger] group_take(face, k)
    ||| is_straight(counts) && take == straight_take()
}

/// A take that a hand with these counts can hold: it claims no more dice
/// than there are, and is worth at most two thousand points for each die.
pub open spec fn admissible(counts: Seq<int>, take: Take) -> bool {
    &&& take.wf()
    &&& take.fits(counts)
    &&& 0 <= take.value <= 2000 * take.dice()
}

/// The elementary takes of a hand are those that `is_base_take` describes.
pub proof fn lemma_base_takes(counts: Seq<int>, take: Take)
    ensures
        base_takes(counts).contains(take) <==> is_base_take(counts, take),
{
    broadcast use
        vstd::seq_lib::lemma_seq_contains_after_push,
        vstd::seq_lib::lemma_seq_concat_contains_all_elements,
    ;

    reveal_with_fuel(group_takes, 7);
    lemma_one_face_takes(1, counts[0], take);
    lemma_one_face_takes(2, counts[1], take);
    lemma_one_face_takes(3, counts[2], take);
    lemma_one_face_takes(4, counts[3], take);
    lemma_one_face_takes(5, counts[4], take);
    lemma_one_face_takes(6, counts[5], take);
}

/// Every elementary take of a hand is admissible for it.
pub proof fn lemma_base_take_admissible(counts: Seq<int>, take: Take)
    requires
        valid_counts(counts),
        is_base_take(counts, take),
    ensures
        admissible(counts, take),
{
}

/// The elementary takes of one face are all different.
pub proof fn lemma_one_face_distinct(face: int, n: int)
    requires
        1 <= face <= 6,
    ensures
        one_face_takes(face, n).no_duplicates(),
    decreases n,
{
    if n > 0 {
        lemma_one_face_distinct(face, n - 1);
        lemma_one_face_takes(face, n - 1, group_take(face, n));
    }
}

/// The groups of the faces up to `upto` are all different, and each is a
/// scoring group of one of those faces.
pub proof fn lemma_groups_distinct(counts: Seq<int>, upto: int)
    requires
        0 <= upto <= 6,
    ensures
        group_takes(counts, upto).no_duplicates(),
        forall|take: Take| #[trigger]
            group_takes(counts, upto).contains(take) ==> exists|face: int, k: int|
                face <= upto && group_scores(face, k) && take == #[trigger] group_take(face, k),
    decreases upto,
{
    broadcast use vstd::seq_lib::lemma_seq_concat_contains_all_elements;

    if upto > 0 {
        lemma_groups_distinct(counts, upto - 1);
        lemma_one_face_distinct(upto, counts[upto - 1]);
        let before = group_takes(counts, upto - 1);
        let added = one_face_takes(upto, counts[upto - 1]);
        assert forall|take: Take| #[trigger] added.contains(take) implies exists|k: int|
            group_scores(upto, k) && take == #[trigger] group_take(upto, k) by {
            lemma_one_face_takes(upto, counts[upto - 1], take);
        }
        assert forall|x: int, y: int|
            0 <= x < before.len() && 0 <= y < added.len() implies before[x] != added[y] by {
            assert(before.contains(before[x]));
            assert(added.contains(added[y]));
            let (face, k) = choose|face: int, k: int|
                face <= upto - 1 && group_scores(face, k) && before[x] == #[trigger] group_take(
                    face,
                    k,
                );
            let m = choose|m: int| group_scores(upto, m) && added[y] == #[trigger] group_take(upto, m);
            assert(group_take(face, k).used[face - 1] != group_take(upto, m).used[face - 1]);
        }
    }
}

/// The elementary takes of a hand are all different.
pub proof fn lemma_base_takes_distinct(counts: Seq<int>)
    ensures
        base_takes(counts).no_duplicates(),
{
    lemma_groups_distinct(counts, 6);
    let groups = group_takes(counts, 6);
    if is_straight(counts) {
        assert forall|x: int, y: int| 0 <= x < groups.len() && 0 <= y < 1 implies groups[x] != seq![
            straight_take(),
        ][y] by {
            assert(groups.contains(groups[x]));
            let (face, k) = choose|face: int, k: int|
                face <= 6 && group_scores(face, k) && groups[x] == #[trigger] group_take(face, k);
            let other = if face == 1 {
                1int
            } else {
                0int
            };
            assert(group_take(face, k).used[other] != straight_take().used[other]);
        }
        assert(groups.push(straight_take()) =~= groups + seq![straight_take()]);
    }
}

} // verus!
