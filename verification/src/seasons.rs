//! Seasons of the year, given by the days on which they begin and end.

use vstd::prelude::*;

verus! {

/// A day of the year: its month and its day of the month.
#[derive(Debug, Clone, Copy, PartialEq, Eq, Structural)]
pub struct DayOfYear {
    pub month: u32,
    pub day: u32,
}

/// Whether the day `a` comes before the day `b` in a year.
pub open spec fn day_before(a: DayOfYear, b: DayOfYear) -> bool {
    a.month < b.month || (a.month == b.month && a.day < b.day)
}

/// Whether a day lies in a season that runs from the day `from` up to, but not
/// including, the day `to`. A season whose end comes before its beginning in
/// the year runs over the turn of the year.
pub open spec fn in_season(current: DayOfYear, from: DayOfYear, to: DayOfYear) -> bool {
    if day_before(to, from) {
        !day_before(current, from) || day_before(current, to)
    } else {
        !day_before(current, from) && day_before(current, to)
    }
}

/// Whether the day `a` comes before the day `b` in a year.
pub fn is_before(a: DayOfYear, b: DayOfYear) -> (r: bool)
    ensures
        r == day_before(a, b),
{
    a.month < b.month || (a.month == b.month && a.day < b.day)
}

/// Whether a day lies in the season from `from_date` to `to_date`.
pub fn is_date_in_season(current_date: DayOfYear, from_date: DayOfYear, to_date: DayOfYear) -> (r:
    bool)
    ensures
        r == in_season(current_date, from_date, to_date),
{
    if is_before(to_date, from_date) {
        !is_before(current_date, from_date) || is_before(current_date, to_date)
    } else {
        !is_before(current_date, from_date) && is_before(current_date, to_date)
    }
}

/// A season that does not run over the turn of the year holds its first day
/// and not its last; and of two seasons that split the year between them,
/// every day lies in exactly one.
pub proof fn law_seasons_split_the_year(current: DayOfYear, a: DayOfYear, b: DayOfYear)
    requires
        a != b,
    ensures
        in_season(a, a, b),
        !in_season(b, a, b),
        in_season(current, a, b) != in_season(current, b, a),
{
}

} // verus!
