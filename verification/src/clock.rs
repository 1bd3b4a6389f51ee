//! Moments as nanoseconds since 1970, and as RFC 3339 text.

use vstd::prelude::*;

verus! {

/// The nanoseconds of one second.
pub const SECOND: i128 = 1_000_000_000;

/// The RFC 3339 text of a moment in UTC, as the `time` crate writes it.
pub uninterp spec fn rfc3339_of(nanos: i128) -> Option<Seq<char>>;

/// The moment that an RFC 3339 text stands for, as the `time` crate reads it.
pub uninterp spec fn moment_of(text: Seq<char>) -> Option<i128>;

/// `time::OffsetDateTime::now_utc`, by its `unix_timestamp_nanos`. Which moment
/// it is depends on when the call is made.
#[verifier::external_body]
pub(crate) fn unix_nanos() -> i128 {
    time::OffsetDateTime::now_utc().unix_timestamp_nanos()
}

/// `time::OffsetDateTime::format` with `Rfc3339`, of the moment that
/// `from_unix_timestamp_nanos` gives: the text, unless the moment lies outside
/// of what the two can hold.
#[verifier::external_body]
pub(crate) fn rfc3339(nanos: i128) -> (r: Option<String>)
    ensures
        match r {
            Some(text) => rfc3339_of(nanos) == Some(text@),
            None => rfc3339_of(nanos) is None,
        },
{
    let moment = time::OffsetDateTime::from_unix_timestamp_nanos(nanos).ok()?;
    moment.format(&time::format_description::well_known::Rfc3339).ok()
}

/// `time::OffsetDateTime::parse` with `Rfc3339`: the moment, by its
/// `unix_timestamp_nanos`, unless the text is not of that form.
#[verifier::external_body]
fn parse_rfc3339(text: &str) -> (r: Option<i128>)
    ensures
        r == moment_of(text@),
{
    let format = &time::format_description::well_known::Rfc3339;
    let moment = time::OffsetDateTime::parse(text, format).ok()?;
    Some(moment.unix_timestamp_nanos())
}

/// The text that is stored for a moment.
pub open spec fn stamp_text(nanos: i128) -> Seq<char> {
    match rfc3339_of(nanos) {
        Some(text) => text,
        None => "1970-01-01T00:00:00Z"@,
    }
}

/// The text that is stored for a moment.
pub fn stamp(nanos: i128) -> (r: String)
    ensures
        r@ == stamp_text(nanos),
{
    match rfc3339(nanos) {
        Some(text) => text,
        None => "1970-01-01T00:00:00Z".to_owned(),
    }
}

/// The text that is stored for the moment of the call.
pub fn now() -> (r: String)
    ensures
        exists|nanos: i128| r@ == #[trigger] stamp_text(nanos),
{
    stamp(unix_nanos())
}

/// The moment one minute earlier.
pub open spec fn minute_before(nanos: i128) -> i128 {
    if nanos >= i128::MIN + 60 * SECOND {
        (nanos - 60 * SECOND) as i128
    } else {
        i128::MIN
    }
}

/// The moment one minute earlier.
pub fn minute_ago(nanos: i128) -> (r: i128)
    ensures
        r == minute_before(nanos),
{
    if nanos >= i128::MIN + 60 * SECOND {
        nanos - 60 * SECOND
    } else {
        i128::MIN
    }
}

/// The whole seconds from `then` to `now`; none where `then` lies ahead.
pub open spec fn whole_seconds(then: i128, now: i128) -> int {
    if now > then {
        (now - then) / SECOND as int
    } else {
        0
    }
}

/// `"2026-09-19T12:00:00Z"` to how many seconds before `now` that was.
pub fn ago(rfc3339: &str, now: i128) -> (r: Option<u128>)
    ensures
        match moment_of(rfc3339@) {
            Some(then) => r matches Some(secs) && secs == whole_seconds(then, now),
            None => r is None,
        },
{
    let then: i128 = parse_rfc3339(rfc3339)?;
    Some(seconds_between(then, now))
}

/// The whole seconds from `then` to `now`; none where `then` lies ahead.
pub fn seconds_between(then: i128, now: i128) -> (r: u128)
    ensures
        r == whole_seconds(then, now),
{
    if now <= then {
        return 0;
    }
    let nanos: u128 = if then >= 0 || now < 0 {
        (now - then) as u128
    } else {
        now as u128 + (-(then + 1)) as u128 + 1
    };
    nanos / (SECOND as u128)
}

// ---- laws ---------------------------------------------------------------------------

/// A minute has sixty seconds of a thousand million nanoseconds; only where the clock
/// has no such moment does it stop at the first.
pub proof fn a_minute_is_sixty_seconds(nanos: i128)
    ensures
        nanos - 60_000_000_000 >= i128::MIN ==> minute_before(nanos) == nanos - 60_000_000_000,
        nanos - 60_000_000_000 < i128::MIN ==> minute_before(nanos) == i128::MIN,
{
}

/// The whole seconds between two moments are those that have passed in full; none
/// have where the one lies ahead.
pub proof fn whole_seconds_have_passed(then: i128, now: i128)
    ensures
        now <= then ==> whole_seconds(then, now) == 0,
        now > then ==> whole_seconds(then, now) * 1_000_000_000 <= now - then,
        now > then ==> now - then < (whole_seconds(then, now) + 1) * 1_000_000_000,
        whole_seconds(then, now) >= 0,
{
}

/// A moment is stored as its RFC 3339 text, and one that has none as the first
/// moment of 1970.
pub proof fn a_moment_is_stored_as_its_text(nanos: i128)
    ensures
        rfc3339_of(nanos) matches Some(text) ==> stamp_text(nanos) == text,
        rfc3339_of(nanos) is None ==> stamp_text(nanos) == "1970-01-01T00:00:00Z"@,
{
}

} // verus!
