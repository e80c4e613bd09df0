use vstd::prelude::*;
use crate::query::QueryError;
use chrono::NaiveDateTime;

verus! {

#[verifier::external_type_specification]
#[verifier::external_body]
pub struct ExNaiveDateTime(chrono::NaiveDateTime);

/// The same time of day `days` calendar days before `now`, where that date can be represented.
pub uninterp spec fn sub_days_of(now: NaiveDateTime, days: u64) -> Option<NaiveDateTime>;

/// A date and time written as `YYYY-MM-DD HH:MM:SS`.
pub uninterp spec fn sortable_of(t: NaiveDateTime) -> Seq<char>;

/// Relies on chrono's `NaiveDateTime::checked_sub_days`: the same time of day `days` calendar
/// days earlier, or `None` where that date cannot be represented; the result depends on `now`
/// and `days` alone. Through `NaiveDate::checked_sub_days` it is `None` for any count of days
/// above `i32::MAX`.
#[verifier::external_body]
fn days_before(now: NaiveDateTime, days: u64) -> (r: Option<NaiveDateTime>)
    ensures
        r == sub_days_of(now, days),
        days > i32::MAX ==> r is None,
{
    now.checked_sub_days(chrono::Days::new(days))
}

/// Relies on chrono's `NaiveDateTime::format` with `%Y-%m-%d %H:%M:%S`: the date and time as a
/// zero-padded timestamp that sorts lexically in time order; the text depends on `t` alone.
#[verifier::external_body]
fn sortable_text(t: NaiveDateTime) -> (r: String)
    ensures
        r@ == sortable_of(t),
{
    t.format("%Y-%m-%d %H:%M:%S").to_string()
}

/// The cutoff of a run that started at local time `now` and looks back `days` days: the time
/// `days` days before `now`, as a sortable timestamp. A look-back that leaves the representable
/// dates is a configuration error.
pub fn cutoff_text(now: NaiveDateTime, days: u64) -> (r: Result<String, QueryError>)
    ensures
        r is Ok <==> sub_days_of(now, days) is Some,
        r matches Ok(s) ==> s@ == sortable_of(sub_days_of(now, days).unwrap()),
        r is Err ==> r == Err::<String, QueryError>(QueryError::DurationOverflow),
        days > i32::MAX ==> r is Err,
{
    match days_before(now, days) {
        Some(t) => Ok(sortable_text(t)),
        None => Err(QueryError::DurationOverflow),
    }
}

} // verus!
