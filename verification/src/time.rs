//! Timestamp normalization: parses each provider's timestamp format into
//! seconds since the Unix epoch, and renders a rough, past-tense relative
//! time string for the produced feed.

use vstd::prelude::*;

verus! {

/// Epoch seconds that a given string denotes under a given format string,
/// if it parses; what chrono's parser returns.
pub uninterp spec fn parse_instant_of(s: Seq<char>, fmt: Seq<char>) -> Option<i64>;

/// Relies on chrono's `NaiveDateTime::parse_from_str` and
/// `DateTime::<Utc>::timestamp`: parses `s` under the format string `fmt`
/// and converts the parsed calendar time to seconds since the Unix epoch.
/// Both are functions of their arguments alone; parse failures come back as
/// an error value, never a panic.
#[verifier::external_body]
fn parse_instant(s: &str, fmt: &str) -> (r: Option<i64>)
    ensures
        r == parse_instant_of(s@, fmt@),
{
    match chrono::NaiveDateTime::parse_from_str(s, fmt) {
        Ok(dt) => Some(dt.and_utc().timestamp()),
        Err(_) => None,
    }
}

/// Parses the `2006-01-02T15:04:05Z`-shaped timestamps used by the
/// code-host and design-portfolio providers.
pub fn parse_calendar_timestamp(s: &str) -> (r: Option<i64>)
    ensures
        r == parse_instant_of(s@, "%Y-%m-%dT%H:%M:%SZ"@),
{
    parse_instant(s, "%Y-%m-%dT%H:%M:%SZ")
}

/// Parses the `Mon Jan 02 15:04:05 +0000 2006`-shaped timestamps used by
/// the microblog provider.
pub fn parse_microblog_timestamp(s: &str) -> (r: Option<i64>)
    ensures
        r == parse_instant_of(s@, "%a %b %d %H:%M:%S %z %Y"@),
{
    parse_instant(s, "%a %b %d %H:%M:%S %z %Y")
}

/// Relies on chrono's `Utc::now`: the current time, as seconds since the
/// Unix epoch. Nothing can be promised of it.
#[verifier::external_body]
fn now_instant() -> (r: i64) {
    chrono::Utc::now().timestamp()
}

/// Largest magnitude of whole seconds that chrono's `TimeDelta` can carry.
pub const MAX_RELATIVE_SECONDS: i64 = 9_223_372_036_854_775;

/// The rough English rendering of a signed duration, past tense; what
/// chrono_humanize returns.
pub uninterp spec fn rough_relative_of(delta_seconds: i64) -> Seq<char>;

/// Relies on chrono's `TimeDelta::seconds` (total within the stated bound)
/// and chrono_humanize's `HumanTime::to_text_en` with rough accuracy and
/// past tense: the text is a function of the duration alone and is never
/// empty, since every rough period renders at least one word.
#[verifier::external_body]
fn rough_time_ago(delta_seconds: i64) -> (r: String)
    requires
        -MAX_RELATIVE_SECONDS <= delta_seconds <= MAX_RELATIVE_SECONDS,
    ensures
        r@ == rough_relative_of(delta_seconds),
        r@.len() > 0,
{
    let human = chrono_humanize::HumanTime::from(chrono::Duration::seconds(delta_seconds));
    human.to_text_en(chrono_humanize::Accuracy::Rough, chrono_humanize::Tense::Past)
}

/// The signed difference `ts - now`, clamped to what a duration can carry.
pub open spec fn spec_relative_delta(ts: i64, now: i64) -> i64 {
    if ts - now > MAX_RELATIVE_SECONDS as int {
        MAX_RELATIVE_SECONDS
    } else if ts - now < -(MAX_RELATIVE_SECONDS as int) {
        (-MAX_RELATIVE_SECONDS) as i64
    } else {
        (ts - now) as i64
    }
}

/// The relative-time text for an event at `ts` seen from `now`: never
/// empty, and a function of the two instants alone.
pub fn relative_time_between(ts: i64, now: i64) -> (r: String)
    ensures
        r@ == rough_relative_of(spec_relative_delta(ts, now)),
        r@.len() > 0,
{
    let wide: i128 = ts as i128 - now as i128;
    let delta: i64 = if wide > MAX_RELATIVE_SECONDS as i128 {
        MAX_RELATIVE_SECONDS
    } else if wide < -(MAX_RELATIVE_SECONDS as i128) {
        -MAX_RELATIVE_SECONDS
    } else {
        wide as i64
    };
    rough_time_ago(delta)
}

/// The relative-time text for an event at `ts` seen from the current time:
/// rendering is total and never yields an empty string.
pub fn relative_time(ts: i64) -> (r: String)
    ensures
        r@.len() > 0,
{
    let now = now_instant();
    relative_time_between(ts, now)
}

} // verus!
