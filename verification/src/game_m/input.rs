//! Reading what a player typed.

use vstd::prelude::*;
use vstd::string::StrSliceExecFns;

verus! {

/// What `str::trim` leaves of a line: the line without the white space at
/// its two ends.
pub uninterp spec fn trimmed(line: Seq<char>) -> Seq<char>;

/// What `str::parse::<i32>` makes of a text: the number it writes, or
/// nothing where it writes none that an `i32` can hold.
pub uninterp spec fn parsed_number(text: Seq<char>) -> Option<i32>;

/// Calls `str::trim`. The result is named, not described: it depends on
/// the line alone.
#[verifier::external_body]
fn trim(line: &str) -> (text: &str)
    ensures
        text@ == trimmed(line@),
{
    line.trim()
}

/// Calls `str::parse::<i32>` and drops the error. The result is named, not
/// described: it depends on the text alone.
#[verifier::external_body]
fn parse_number(text: &str) -> (number: Option<i32>)
    ensures
        number == parsed_number(text@),
{
    text.parse::<i32>().ok()
}

/// Whether the text is the one letter `y`.
pub fn is_yes(text: &str) -> (yes: bool)
    ensures
        yes == (text@ == seq!['y']),
{
    let yes = text.unicode_len() == 1 && text.get_char(0) == 'y';
    proof {
        if yes {
            assert(text@ =~= seq!['y']);
        }
    }
    yes
}

/// Whether the player agreed: the line, trimmed, is `y`.
pub fn read_answer(line: &str) -> (agreed: bool)
    ensures
        agreed == (trimmed(line@) == seq!['y']),
{
    is_yes(trim(line))
}

/// The number the player typed, if the line, trimmed, is a number.
pub fn read_pick(line: &str) -> (pick: Option<i32>)
    ensures
        pick == parsed_number(trimmed(line@)),
{
    parse_number(trim(line))
}

} // verus!
