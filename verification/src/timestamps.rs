//! How the creation time of a build is shown.
use crate::models::opt_view;
use crate::text::{lowercase, unicode_lowercase};
use vstd::prelude::*;

verus! {

/// What chrono gives for a build time text: parsed as `%Y-%m-%d %H:%M` and
/// written as `%d-%m-%Y | %I:%M %p`, or `None` when it does not parse.
pub uninterp spec fn reformatted_build_time(raw: Seq<char>) -> Option<Seq<char>>;

/// Calls `chrono::NaiveDateTime::parse_from_str` with the format
/// `%Y-%m-%d %H:%M` and, when that succeeds, writes the date and time with
/// `NaiveDateTime::format("%d-%m-%Y | %I:%M %p")`. The result is named by
/// `reformatted_build_time` of the input: it depends on the input alone
/// (these formats use no locale or time zone), and nothing more is stated.
#[verifier::external_body]
fn reformat_build_time(raw: &str) -> (r: Option<String>)
    ensures
        opt_view(r) == reformatted_build_time(raw@),
{
    chrono::NaiveDateTime::parse_from_str(raw, "%Y-%m-%d %H:%M").ok().map(
        |dt| dt.format("%d-%m-%Y | %I:%M %p").to_string(),
    )
}

/// The label of a build time already rewritten by chrono: lower-cased, or
/// `Unknown time` when there is none.
pub fn build_time_label(formatted: Option<&str>) -> (r: String)
    ensures
        r@ == match formatted {
            None => "Unknown time"@,
            Some(t) => unicode_lowercase(t@),
        },
{
    match formatted {
        None => "Unknown time".to_string(),
        Some(t) => lowercase(t),
    }
}

/// The label of a build's creation time, e.g. `05-03-2024 | 02:07 pm`;
/// `Unknown time` when the time is unknown or unreadable.
pub fn format_build_timestamp(raw: Option<&str>) -> (r: String)
    ensures
        r@ == match raw {
            None => "Unknown time"@,
            Some(s) => match reformatted_build_time(s@) {
                None => "Unknown time"@,
                Some(t) => unicode_lowercase(t),
            },
        },
{
    match raw {
        None => build_time_label(None),
        Some(s) => match reformat_build_time(s) {
            None => build_time_label(None),
            Some(t) => build_time_label(Some(t.as_str())),
        },
    }
}

} // verus!
