//! Face counts: how many dice of a row show each face.

use vstd::prelude::*;

verus! {

/// How many of `faces` are `face`.
pub open spec fn count_face(faces: Seq<int>, face: int) -> int
    decreases faces.len(),
{
    if faces.len() == 0 {
        0
    } else {
        count_face(faces.drop_last(), face) + if faces.last() == face {
            1int
        } else {
            0int
        }
    }
}

/// Every die shows one of the six faces.
pub open spec fn valid_faces(faces: Seq<int>) -> bool {
    forall|i: int| 0 <= i < faces.len() ==> 1 <= #[trigger] faces[i] <= 6
}

/// The face counts of a row of dice: entry `f - 1` counts the dice that show
/// face `f`.
pub open spec fn face_counts(faces: Seq<int>) -> Seq<int> {
    Seq::new(6, |i: int| count_face(faces, i + 1))
}

/// Face counts that the option generator accepts: six entries, each from
/// zero to six.
pub open spec fn valid_counts(counts: Seq<int>) -> bool {
    &&& counts.len() == 6
    &&& 0 <= counts[0] <= 6
    &&& 0 <= counts[1] <= 6
    &&& 0 <= counts[2] <= 6
    &&& 0 <= counts[3] <= 6
    &&& 0 <= counts[4] <= 6
    &&& 0 <= counts[5] <= 6
}

/// One die of each face.
pub open spec fn is_straight(counts: Seq<int>) -> bool {
    &&& counts[0] == 1
    &&& counts[1] == 1
    &&& counts[2] == 1
    &&& counts[3] == 1
    &&& counts[4] == 1
    &&& counts[5] == 1
}

/// `count_face` counts occurrences: it is how often `face` is found in the
/// multiset of the faces.
pub proof fn lemma_count_face_occurrences(faces: Seq<int>, face: int)
    ensures
        count_face(faces, face) == faces.to_multiset().count(face),
    decreases faces.len(),
{
    if faces.len() == 0 {
        faces.to_multiset_ensures();
        assert(faces.to_multiset().len() == 0);
    } else {
        lemma_count_face_occurrences(faces.drop_last(), face);
        vstd::seq_lib::to_multiset_build(faces.drop_last(), faces.last());
        assert(faces =~= faces.drop_last().push(faces.last()));
    }
}

/// No face occurs more often among the dice than there are dice.
pub proof fn lemma_count_face_bounds(faces: Seq<int>, face: int)
    ensures
        0 <= count_face(faces, face) <= faces.len(),
    decreases faces.len(),
{
    if faces.len() > 0 {
        lemma_count_face_bounds(faces.drop_last(), face);
    }
}

/// The face counts of dice that all show a face add up to the number of
/// dice.
pub proof fn lemma_counts_sum(faces: Seq<int>)
    requires
        valid_faces(faces),
    ensures
        count_face(faces, 1) + count_face(faces, 2) + count_face(faces, 3) + count_face(faces, 4)
            + count_face(faces, 5) + count_face(faces, 6) == faces.len(),
    decreases faces.len(),
{
    if faces.len() > 0 {
        lemma_counts_sum(faces.drop_last());
    }
}

} // verus!
