//! Points in time as text.

use crate::text;
use crate::text::decimal_text;
use vstd::prelude::*;

verus! {

/// The first millisecond that a calendar date can be given for.
pub const FIRST_DATED_MS: i64 = -8_334_601_228_800_000;

/// The last millisecond that a calendar date can be given for.
pub const LAST_DATED_MS: i64 = 8_210_266_876_799_999;

/// Whether a calendar date can be given for a point in time.
pub open spec fn is_dated(timestamp_ms: i64) -> bool {
    FIRST_DATED_MS <= timestamp_ms <= LAST_DATED_MS
}

/// How a date and a time of day are written: day, month, year, hour and minute.
pub const DATE_FORMAT: &'static str = "%d.%m.%Y %H:%M";

/// Whether local time can be so many seconds ahead of universal time.
pub open spec fn is_offset(offset_secs: int) -> bool {
    -86_400 < offset_secs < 86_400
}

/// `chrono::DateTime::with_timezone` with `chrono::Local` finds by how many seconds local
/// time is ahead of universal time at a point in time, where
/// `chrono::DateTime::from_timestamp_millis` gives it a date. The seconds depend on the
/// time zone of the machine, so the contract states only when there are any and their
/// range.
#[verifier::external_body]
fn local_offset_secs(timestamp_ms: i64) -> (result: Option<i32>)
    ensures
        result is Some == is_dated(timestamp_ms),
        result matches Some(offset_secs) ==> is_offset(offset_secs as int),
{
    chrono::DateTime::from_timestamp_millis(timestamp_ms)
        .map(|time| time.with_timezone(&chrono::Local).offset().local_minus_utc())
}

/// What `chrono` writes for a point in time in a zone so many seconds ahead of universal
/// time, in a format.
pub uninterp spec fn written_date(
    timestamp_ms: i64,
    offset_secs: i32,
    format: Seq<char>,
) -> Seq<char>;

/// `chrono::DateTime::format` writes a date and a time of day. The text depends on the
/// point in time, the offset from universal time and the format alone; the contract names
/// it.
#[verifier::external_body]
fn date_text(timestamp_ms: i64, offset_secs: i32, format: &str) -> (result: String)
    requires
        is_dated(timestamp_ms),
        is_offset(offset_secs as int),
        format@ == DATE_FORMAT@,
    ensures
        result@ == written_date(timestamp_ms, offset_secs, format@),
{
    let zone = chrono::FixedOffset::east_opt(offset_secs).unwrap();
    let time = chrono::DateTime::from_timestamp_millis(timestamp_ms).unwrap();
    time.with_timezone(&zone).format(format).to_string()
}

/// A point in time as text in a zone with an offset from universal time, or the number
/// where there is no date.
pub open spec fn told(timestamp_ms: i64, offset_secs: i32) -> Seq<char> {
    if is_dated(timestamp_ms) {
        written_date(timestamp_ms, offset_secs, DATE_FORMAT@)
    } else {
        text::decimal(timestamp_ms as int)
    }
}

/// A point in time as text in a zone with an offset from universal time, or the number
/// where there is no date.
pub fn format_with_offset(timestamp_ms: i64, offset_secs: i32) -> (result: String)
    requires
        is_offset(offset_secs as int),
    ensures
        result@ == told(timestamp_ms, offset_secs),
{
    if FIRST_DATED_MS <= timestamp_ms && timestamp_ms <= LAST_DATED_MS {
        date_text(timestamp_ms, offset_secs, DATE_FORMAT)
    } else {
        decimal_text(timestamp_ms as i128)
    }
}

/// Whether local time may be so many seconds ahead of universal time at a point in time,
/// by the time zone of the machine.
pub closed spec fn is_local_offset(timestamp_ms: i64, offset_secs: i32) -> bool {
    call_ensures(local_offset_secs, (timestamp_ms,), Some(offset_secs))
}

/// Whether a text may stand for a point in time: its date and time of day in local time,
/// or the number where there is no date.
pub open spec fn may_tell(timestamp_ms: i64, chars: Seq<char>) -> bool {
    if is_dated(timestamp_ms) {
        exists|offset_secs: i32| #[trigger]
            is_local_offset(timestamp_ms, offset_secs) && is_offset(offset_secs as int) && chars
                == told(timestamp_ms, offset_secs)
    } else {
        chars == text::decimal(timestamp_ms as int)
    }
}

/// A point in time as text: the local date and time of day, or the number where there is
/// no date.
pub fn format_epoch_ms(timestamp_ms: i64) -> (result: String)
    ensures
        may_tell(timestamp_ms, result@),
{
    match local_offset_secs(timestamp_ms) {
        Some(offset_secs) => {
            assert(is_local_offset(timestamp_ms, offset_secs));
            format_with_offset(timestamp_ms, offset_secs)
        },
        None => decimal_text(timestamp_ms as i128),
    }
}

} // verus!
