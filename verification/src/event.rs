//! The event whose traffic is captured.

use crate::text::{
    append_signed_decimal, append_two_digits, is_slug_text, lemma_decimal_is_digits,
    signed_decimal, two_digits,
};
use crate::time::Instant;
use vstd::prelude::*;

verus! {

/// Minutes before the advertised start at which capturing begins.
pub const EVENT_PRE_TIME_MINUTES: u64 = 5;

/// Minutes after the advertised end at which capturing stops.
pub const EVENT_POST_TIME_MINUTES: u64 = 5;

/// An event: its name, the control centres and airports that define its
/// scope, and the time window it is advertised for.
#[derive(Clone, Debug, PartialEq, Eq)]
pub struct EventConfig {
    pub name: String,
    pub artccs: Vec<String>,
    pub airports: Vec<String>,
    pub advertised_start_time: Instant,
    pub advertised_end_time: Instant,
}

/// The calendar date in UTC, as year, month and day, that
/// `chrono::DateTime::from_timestamp` gives the instant that lies `secs`
/// seconds and `nanos` nanoseconds after the epoch; `None` where the calendar
/// does not reach that far or `nanos` is no fraction of a second.
pub uninterp spec fn utc_date(secs: i64, nanos: u32) -> Option<(i32, u32, u32)>;

/// The slug that `slug::slugify` makes of a text: the text brought down to
/// lower-case letters, digits and single hyphens.
pub uninterp spec fn slug_text(text: Seq<char>) -> Seq<char>;

/// Calls `chrono::DateTime::from_timestamp` and reads the year, month and
/// day of what it returns.
///
/// Trusted: the date is chrono's, and depends on the two numbers alone.
#[verifier::external_body]
fn chrono_utc_date(secs: i64, nanos: u32) -> (date: Option<(i32, u32, u32)>)
    ensures
        date == utc_date(secs, nanos),
{
    match chrono::DateTime::from_timestamp(secs, nanos) {
        Some(moment) => Some(
            (
                chrono::Datelike::year(&moment),
                chrono::Datelike::month(&moment),
                chrono::Datelike::day(&moment),
            ),
        ),
        None => None,
    }
}

/// Calls `slug::slugify`.
///
/// Trusted: the slug is the crate's, and depends on the text alone; as the
/// crate documents, it holds nothing but the letters a to z, digits and
/// hyphens.
#[verifier::external_body]
fn slugify(text: &str) -> (slug: String)
    ensures
        slug@ == slug_text(text@),
        is_slug_text(slug@),
{
    slug::slugify(text)
}

/// The slug of an event that starts on the given date and whose name has the
/// slug `name_slug`: the date as year, month and day, and the name's slug,
/// joined by hyphens. Month and day are written with two digits.
pub open spec fn dated_slug(year: int, month: nat, day: nat, name_slug: Seq<char>) -> Seq<char> {
    signed_decimal(year) + seq!['-'] + two_digits(month) + seq!['-'] + two_digits(day) + seq![
        '-',
    ] + name_slug
}

/// The slug of an event: `None` where the calendar does not reach its start.
pub open spec fn event_slug_text(event: EventConfig) -> Option<Seq<char>> {
    match utc_date(event.advertised_start_time.secs, event.advertised_start_time.nanos) {
        Some((year, month, day)) => Some(
            dated_slug(year as int, month as nat, day as nat, slug_text(event.name@)),
        ),
        None => None,
    }
}

/// Joins a date and the slug of a name into the slug of an event.
pub fn slug_from_parts(year: i32, month: u32, day: u32, name_slug: &str) -> (slug: String)
    ensures
        slug@ == dated_slug(year as int, month as nat, day as nat, name_slug@),
        is_slug_text(name_slug@) ==> is_slug_text(slug@),
{
    proof {
        reveal_strlit("-");
        assert("-"@ =~= seq!['-']);
        lemma_decimal_is_digits(month as nat);
        lemma_decimal_is_digits(day as nat);
        if year < 0 {
            lemma_decimal_is_digits((-year) as nat);
        } else {
            lemma_decimal_is_digits(year as nat);
        }
    }
    let mut slug = String::new();
    append_signed_decimal(&mut slug, year as i64);
    slug.append("-");
    append_two_digits(&mut slug, month as u64);
    slug.append("-");
    append_two_digits(&mut slug, day as u64);
    slug.append("-");
    slug.append(name_slug);
    proof {
        assert(slug@ =~= dated_slug(year as int, month as nat, day as nat, name_slug@));
    }
    slug
}

/// The slug of an event, by which its files are named: the date of its
/// advertised start in UTC and the slug of its name.
pub fn event_slug(event: &EventConfig) -> (slug: Option<String>)
    ensures
        match slug {
            Some(text) => event_slug_text(*event) == Some(text@) && is_slug_text(text@),
            None => event_slug_text(*event) is None,
        },
{
    match chrono_utc_date(event.advertised_start_time.secs, event.advertised_start_time.nanos) {
        Some((year, month, day)) => {
            let name_slug = slugify(event.name.as_str());
            Some(slug_from_parts(year, month, day, name_slug.as_str()))
        },
        None => None,
    }
}

} // verus!
