//! Rendering of check-in instants.
//!
//! The registry stores an instant as milliseconds since the Unix epoch. For
//! display it is cut to whole seconds, moved three hours back, and written
//! in RFC 3339 form.

use vstd::prelude::*;

verus! {

/// Seconds by which a displayed instant lies behind the stored one.
pub const OFFSET_SECONDS: i64 = 10_800;

/// The RFC 3339 text that chrono writes for the instant `seconds` after the
/// Unix epoch in UTC, or `None` where chrono's calendar does not reach it.
pub uninterp spec fn rfc3339_text(seconds: i64) -> Option<Seq<char>>;

/// Calls `num_traits::ToPrimitive::to_i64` on a `u64`: the same number as an
/// `i64` where it fits, `None` where it is larger than `i64::MAX`.
#[verifier::external_body]
fn to_i64(value: u64) -> (signed: Option<i64>)
    ensures
        match signed {
            Some(v) => v == value,
            None => value > i64::MAX,
        },
{
    num_traits::ToPrimitive::to_i64(&value)
}

/// Calls `chrono::DateTime::<Utc>::from_timestamp` with no nanoseconds and,
/// on the instant it gives, `chrono::DateTime::to_rfc3339`. The contract
/// names the text, and claims that the epoch itself is always in range.
#[verifier::external_body]
fn render_utc(seconds: i64) -> (text: Option<String>)
    ensures
        match text {
            Some(s) => rfc3339_text(seconds) == Some(s@),
            None => rfc3339_text(seconds).is_none(),
        },
        seconds == 0 ==> text.is_some(),
{
    match chrono::DateTime::from_timestamp(seconds, 0) {
        Some(instant) => Some(instant.to_rfc3339()),
        None => None,
    }
}

/// The whole seconds of `timestamp`, three hours back.
pub open spec fn display_seconds(timestamp: u64) -> int {
    timestamp / 1000 - 10_800
}

/// The displayed text of the epoch.
pub open spec fn epoch_text() -> Seq<char> {
    match rfc3339_text(0) {
        Some(s) => s,
        None => Seq::empty(),
    }
}

/// The displayed text of a stored instant: that of its display seconds, or
/// that of the epoch where the calendar does not reach them.
pub open spec fn timestamp_text(timestamp: u64) -> Seq<char> {
    match rfc3339_text(display_seconds(timestamp) as i64) {
        Some(s) => s,
        None => epoch_text(),
    }
}

/// Cuts a millisecond instant to whole seconds and moves it three hours
/// back. No `u64` makes this overflow.
pub fn local_seconds(timestamp: u64) -> (seconds: i64)
    ensures
        seconds == display_seconds(timestamp),
{
    let whole: u64 = timestamp / 1000;
    let signed: i64 = match to_i64(whole) {
        Some(v) => v,
        None => 0,
    };
    match signed.checked_sub(OFFSET_SECONDS) {
        Some(v) => v,
        None => 0,
    }
}

/// The text of the epoch instant.
fn epoch() -> (text: String)
    ensures
        text@ == epoch_text(),
{
    match render_utc(0) {
        Some(s) => s,
        None => String::new(),
    }
}

/// Chooses what is shown for an instant: its rendered text where the
/// calendar reached it, the text of the epoch where it did not.
pub fn rendered_or_epoch(rendered: Option<String>, epoch: String) -> (text: String)
    ensures
        text@ == match rendered {
            Some(s) => s@,
            None => epoch@,
        },
{
    match rendered {
        Some(s) => s,
        None => epoch,
    }
}

/// Renders a stored instant for display. It never fails: an instant beyond
/// the calendar is shown as the epoch.
pub fn convert_timestamp(timestamp: u64) -> (text: String)
    ensures
        text@ == timestamp_text(timestamp),
{
    let seconds = local_seconds(timestamp);
    let rendered = render_utc(seconds);
    rendered_or_epoch(rendered, epoch())
}

} // verus!
