//! The time of an interaction.

use vstd::prelude::*;

verus! {

/// Whether a decimal digit stands at `at`.
pub open spec fn digit_at(text: Seq<char>, at: int) -> bool {
    0 <= at < text.len() && '0' as int <= text[at] as int <= '9' as int
}

/// Whether `text` is a time in UTC in the form of RFC 3339, with a year that
/// takes `year` places and a fraction of a second of `fraction` digits: the
/// year, month and day with `-` between them, `T`, the hour, minute and second
/// with `:` between them, the fraction behind a `.` where there is one, and
/// `+00:00`. A year up to 9999 has four digits; a later one has a `+` and five
/// digits or more.
pub open spec fn timestamp_shape(text: Seq<char>, year: int, fraction: int) -> bool {
    let time = year + 6;
    let end = time + 9 + (if fraction == 0 {
        0
    } else {
        fraction + 1
    });
    &&& year == 4 || year >= 6
    &&& fraction == 0 || fraction == 3 || fraction == 6 || fraction == 9
    &&& text.len() == end + 6
    &&& year == 4 ==> digit_at(text, 0)
    &&& year >= 6 ==> text[0] == '+'
    &&& forall|i: int| 1 <= i < year ==> digit_at(text, i)
    &&& text[year] == '-'
    &&& digit_at(text, year + 1)
    &&& digit_at(text, year + 2)
    &&& text[year + 3] == '-'
    &&& digit_at(text, year + 4)
    &&& digit_at(text, year + 5)
    &&& text[time] == 'T'
    &&& digit_at(text, time + 1)
    &&& digit_at(text, time + 2)
    &&& text[time + 3] == ':'
    &&& digit_at(text, time + 4)
    &&& digit_at(text, time + 5)
    &&& text[time + 6] == ':'
    &&& digit_at(text, time + 7)
    &&& digit_at(text, time + 8)
    &&& fraction > 0 ==> text[time + 9] == '.'
    &&& forall|i: int| time + 10 <= i < end ==> digit_at(text, i)
    &&& text[end] == '+'
    &&& text[end + 1] == '0'
    &&& text[end + 2] == '0'
    &&& text[end + 3] == ':'
    &&& text[end + 4] == '0'
    &&& text[end + 5] == '0'
}

/// Whether `text` is a time in UTC in the form of RFC 3339.
pub open spec fn is_utc_timestamp(text: Seq<char>) -> bool {
    exists|year: int, fraction: int| timestamp_shape(text, year, fraction)
}

/// `chrono::Utc::now`, written by `DateTime::to_rfc3339`: the time of the
/// system clock in UTC as an RFC 3339 string. Every call reads the clock anew,
/// so of the result only its form is stated: date, `T`, time, a fraction of
/// three, six or nine digits where the time has one, and the offset `+00:00`.
/// A clock set before 1970 is not handled.
#[verifier::external_body]
pub(crate) fn utc_now_rfc3339() -> (now: String)
    ensures
        is_utc_timestamp(now@),
{
    chrono::Utc::now().to_rfc3339()
}

} // verus!
