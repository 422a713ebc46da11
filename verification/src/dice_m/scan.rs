//! What the closure engine relies on while it runs: what one round of
//! pairing has found so far, and why the rounds come to an end.

use vstd::prelude::*;
use super::base::admissible;
use super::closure::overlap;
use super::faces::valid_counts;
use super::take_option::Take;

verus! {

/// `take` is new to `known` and is the combination of two of its takes that
/// do not overlap; a take may be paired with itself.
pub open spec fn new_combination(counts: Seq<int>, known: Set<Take>, take: Take) -> bool {
    &&& !known.contains(take)
    &&& exists|a: Take, b: Take|
        known.contains(a) && known.contains(b) && !overlap(counts, a, b) && take
            == #[trigger] a.plus(b)
}

/// `take` is the combination of a pair of `known` that does not overlap and
/// that a scan of all pairs, row by row, meets before the pair `(i, j)`.
pub open spec fn paired_before(counts: Seq<int>, known: Seq<Take>, i: int, j: int, take: Take) -> bool {
    exists|a: int, b: int|
        0 <= a < known.len() && 0 <= b < known.len() && (a < i || (a == i && b < j)) && !overlap(
            counts,
            known[a],
            known[b],
        ) && take == #[trigger] known[a].plus(known[b])
}

/// `fresh` holds what the scan has found before the pair `(i, j)`: the
/// combinations met so far that are not among `known`.
pub open spec fn scanned(
    counts: Seq<int>,
    known: Seq<Take>,
    fresh: Seq<Take>,
    i: int,
    j: int,
) -> bool {
    forall|take: Take| #[trigger]
        fresh.contains(take) <==> !known.contains(take) && paired_before(counts, known, i, j, take)
}

/// One step of the scan: the pairs before `(i, j + 1)` are those before
/// `(i, j)` and the pair `(i, j)` itself.
pub proof fn lemma_pair_step(counts: Seq<int>, known: Seq<Take>, i: int, j: int, take: Take)
    requires
        0 <= i < known.len(),
        0 <= j < known.len(),
    ensures
        paired_before(counts, known, i, j + 1, take) <==> paired_before(counts, known, i, j, take)
            || (!overlap(counts, known[i], known[j]) && take == known[i].plus(known[j])),
{
}

/// The end of a row of the scan is the start of the next.
pub proof fn lemma_pair_row(counts: Seq<int>, known: Seq<Take>, i: int, take: Take)
    requires
        0 <= i < known.len(),
    ensures
        paired_before(counts, known, i, known.len() as int, take) <==> paired_before(
            counts,
            known,
            i + 1,
            0,
            take,
        ),
{
}

/// After the whole scan every pair has been met.
pub proof fn lemma_pair_all(counts: Seq<int>, known: Seq<Take>, take: Take)
    ensures
        !known.contains(take) && paired_before(counts, known, known.len() as int, 0, take)
            <==> new_combination(counts, known.to_set(), take),
{
}

/// The combination of two admissible takes that do not overlap is
/// admissible.
pub proof fn lemma_plus_admissible(counts: Seq<int>, a: Take, b: Take)
    requires
        admissible(counts, a),
        admissible(counts, b),
        !overlap(counts, a, b),
    ensures
        admissible(counts, a.plus(b)),
{
}

/// A number that tells admissible takes apart: the usage vector as digits
/// to the base seven, and the value above them.
pub open spec fn take_code(take: Take) -> int {
    take.used[0] + 7 * (take.used[1] + 7 * (take.used[2] + 7 * (take.used[3] + 7 * (take.used[4]
        + 7 * (take.used[5] + 7 * take.value)))))
}

/// More than the number of admissible takes that any hand can hold.
pub open spec fn take_limit() -> int {
    117649int * 72001int
}

/// Numbers that agree agree in their last digit to the base seven and in
/// what stands before it.
proof fn lemma_digit(low_a: int, high_a: int, low_b: int, high_b: int)
    requires
        0 <= low_a <= 6,
        0 <= low_b <= 6,
        low_a + 7 * high_a == low_b + 7 * high_b,
    ensures
        low_a == low_b,
        high_a == high_b,
{
}

/// Two admissible takes with the same code are the same take.
pub proof fn lemma_take_code_injective(counts: Seq<int>, a: Take, b: Take)
    requires
        valid_counts(counts),
        admissible(counts, a),
        admissible(counts, b),
        take_code(a) == take_code(b),
    ensures
        a == b,
{
    let a4 = a.used[5] + 7 * a.value;
    let b4 = b.used[5] + 7 * b.value;
    let a3 = a.used[4] + 7 * a4;
    let b3 = b.used[4] + 7 * b4;
    let a2 = a.used[3] + 7 * a3;
    let b2 = b.used[3] + 7 * b3;
    let a1 = a.used[2] + 7 * a2;
    let b1 = b.used[2] + 7 * b2;
    let a0 = a.used[1] + 7 * a1;
    let b0 = b.used[1] + 7 * b1;
    lemma_digit(a.used[0], a0, b.used[0], b0);
    lemma_digit(a.used[1], a1, b.used[1], b1);
    lemma_digit(a.used[2], a2, b.used[2], b2);
    lemma_digit(a.used[3], a3, b.used[3], b3);
    lemma_digit(a.used[4], a4, b.used[4], b4);
    lemma_digit(a.used[5], a.value, b.used[5], b.value);
    assert(a.used =~= b.used);
}

/// A row of distinct admissible takes is shorter than `take_limit()`.
pub proof fn lemma_takes_bounded(counts: Seq<int>, takes: Seq<Take>)
    requires
        valid_counts(counts),
        takes.no_duplicates(),
        forall|i: int| 0 <= i < takes.len() ==> admissible(counts, #[trigger] takes[i]),
    ensures
        takes.len() <= take_limit(),
{
    let codes = Seq::new(takes.len(), |i: int| take_code(takes[i]));
    assert forall|i: int, j: int| 0 <= i < codes.len() && 0 <= j < codes.len() && i != j implies codes[i]
        != codes[j] by {
        if codes[i] == codes[j] {
            lemma_take_code_injective(counts, takes[i], takes[j]);
        }
    }
    codes.unique_seq_to_set();
    vstd::set_lib::lemma_int_range(0, take_limit());
    vstd::set_lib::lemma_len_subset(codes.to_set(), vstd::set_lib::set_int_range(0, take_limit()));
}

} // verus!
