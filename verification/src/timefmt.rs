//! Unix timestamps rendered as Indian Standard Time.

use vstd::prelude::*;

verus! {

/// Timestamps below this are seconds; from here on they are milliseconds.
pub const MILLIS_CUTOFF: i64 = 1_000_000_000_000;

/// Indian Standard Time is five and a half hours east of UTC.
pub const IST_OFFSET_SECONDS: i32 = 19_800;

/// The first second of the calendar that can be rendered: the start of
/// the year -262143.
pub const FIRST_SECOND: i64 = -8_334_601_228_800;

/// The last second of the calendar that can be rendered: the end of the
/// year 262142.
pub const LAST_SECOND: i64 = 8_210_266_876_799;

/// The text that chrono writes for the instant `secs` seconds and `nanos`
/// nanoseconds after the unix epoch, seen `offset` seconds east of UTC,
/// under the strftime pattern `pattern`.
pub uninterp spec fn offset_rendering(secs: int, nanos: int, offset: int, pattern: Seq<char>) -> Seq<
    char,
>;

/// Date, time with milliseconds, and the zone's name.
pub open spec fn ist_pattern() -> Seq<char> {
    "%Y-%m-%d %H:%M:%S%.3f IST"@
}

/// Calls chrono: `DateTime::from_timestamp`, `FixedOffset::east_opt`,
/// `DateTime::with_timezone`, `DateTime::format` and the `to_string` of
/// what `format` returns. The text is a function of the four arguments
/// alone and is only named here. The contract claims that chrono accepts
/// every second of its calendar (years -262143 to 262142) with less than
/// a second of nanoseconds, and every offset of less than a day; the
/// pattern is fixed to one whose items chrono can always write, since
/// `to_string` panics on a pattern it cannot.
#[verifier::external_body]
fn render_at_offset(secs: i64, nanos: u32, offset: i32, pattern: &str) -> (text: Option<String>)
    requires
        pattern@ == ist_pattern(),
    ensures
        text matches Some(t) ==> t@ == offset_rendering(
            secs as int,
            nanos as int,
            offset as int,
            pattern@,
        ),
        FIRST_SECOND <= secs <= LAST_SECOND && nanos < 1_000_000_000 && -86_400 < offset < 86_400
            ==> text is Some,
{
    let utc = chrono::DateTime::from_timestamp(secs, nanos)?;
    let zone = chrono::FixedOffset::east_opt(offset)?;
    Some(utc.with_timezone(&zone).format(pattern).to_string())
}

/// The timestamps that can be rendered: seconds from the first second of
/// the calendar on, milliseconds up to its last second.
pub open spec fn renderable(timestamp: int) -> bool {
    FIRST_SECOND <= timestamp <= LAST_SECOND * 1000 + 999
}

/// The whole seconds of a timestamp.
pub open spec fn whole_seconds(timestamp: int) -> int {
    if timestamp < MILLIS_CUTOFF {
        timestamp
    } else {
        timestamp / 1000
    }
}

/// The nanoseconds past the whole second of a timestamp.
pub open spec fn nanos_past(timestamp: int) -> int {
    if timestamp < MILLIS_CUTOFF {
        0
    } else {
        (timestamp % 1000) * 1_000_000
    }
}

/// A timestamp as Indian Standard Time.
pub open spec fn ist_text(timestamp: int) -> Seq<char> {
    offset_rendering(
        whole_seconds(timestamp),
        nanos_past(timestamp),
        IST_OFFSET_SECONDS as int,
        ist_pattern(),
    )
}

/// Whether `unix_ms_to_ist` accepts `timestamp`.
pub fn can_render(timestamp: i64) -> (ok: bool)
    ensures
        ok == renderable(timestamp as int),
{
    FIRST_SECOND <= timestamp && timestamp <= 8_210_266_876_799_999
}

/// Renders a unix timestamp, in seconds or in milliseconds, as
/// `YYYY-MM-DD HH:MM:SS.sss IST`.
pub fn unix_ms_to_ist(timestamp: i64) -> (text: String)
    requires
        renderable(timestamp as int),
    ensures
        text@ == ist_text(timestamp as int),
{
    let secs: i64;
    let nanos: u32;
    if timestamp < MILLIS_CUTOFF {
        secs = timestamp;
        nanos = 0;
    } else {
        secs = timestamp / 1000;
        let millis: u32 = (timestamp % 1000) as u32;
        nanos = millis * 1_000_000;
    }
    match render_at_offset(secs, nanos, IST_OFFSET_SECONDS, "%Y-%m-%d %H:%M:%S%.3f IST") {
        Some(text) => text,
        None => String::new(),
    }
}

} // verus!
