//! Timestamps: the system clock as seconds and nanoseconds since the Unix
//! epoch, and their RFC 3339 text in UTC with milliseconds.

use vstd::prelude::*;

verus! {

#[verifier::external_type_specification]
#[verifier::external_body]
pub struct ExSystemTime(std::time::SystemTime);

/// std's `SystemTime::now`: the current time of the system clock. It depends
/// on the clock, so nothing is stated of it.
#[verifier::external_body]
fn system_time_now() -> std::time::SystemTime {
    std::time::SystemTime::now()
}

/// std's `SystemTime::duration_since(UNIX_EPOCH)`, as whole seconds and the
/// nanoseconds of the fraction: `None` when `t` is before the epoch. Of the
/// fraction, std's `Duration::subsec_nanos` documents that it is less than one
/// billion. Nothing else is stated: the result depends on `t`, which is
/// opaque here.
#[verifier::external_body]
fn since_unix_epoch(t: std::time::SystemTime) -> (r: Option<(u64, u32)>)
    ensures
        r matches Some((secs, nanos)) ==> nanos < 1_000_000_000,
{
    t.duration_since(std::time::UNIX_EPOCH).ok().map(|d| (d.as_secs(), d.subsec_nanos()))
}

/// The first second of the year 10000, in seconds since the Unix epoch.
pub const YEAR_10000_SECS: u64 = 253_402_300_800;

/// The RFC 3339 text that chrono writes for the UTC time `secs` seconds and
/// `nanos` nanoseconds after the Unix epoch, with milliseconds and a `Z`
/// suffix; `None` when chrono cannot represent that time.
pub uninterp spec fn rfc3339_millis_utc(secs: u64, nanos: u32) -> Option<Seq<char>>;

/// Whether `c` is an ASCII digit.
pub open spec fn is_digit(c: char) -> bool {
    '0' <= c && c <= '9'
}

/// The number written by the ASCII digits `t[at..at + n]`.
pub open spec fn decimal(t: Seq<char>, at: int, n: nat) -> int
    decreases n,
{
    if n == 0 {
        0
    } else {
        decimal(t, at, (n - 1) as nat) * 10 + (t[at + n - 1] as int - '0' as int)
    }
}

/// The (year, month, day) in the proleptic Gregorian calendar of the day that
/// is `days` days after 1970-01-01, for `days >= 0`.
pub open spec fn civil_from_days(days: int) -> (int, int, int) {
    let z = days + 719_468;
    let era = z / 146_097;
    let doe = z - era * 146_097;
    let yoe = (doe - doe / 1_460 + doe / 36_524 - doe / 146_096) / 365;
    let doy = doe - (365 * yoe + yoe / 4 - yoe / 100);
    let mp = (5 * doy + 2) / 153;
    let day = doy - (153 * mp + 2) / 5 + 1;
    let month = if mp < 10 {
        mp + 3
    } else {
        mp - 9
    };
    let year = yoe + era * 400 + if month <= 2 {
        1int
    } else {
        0int
    };
    (year, month, day)
}

/// `t` is `YYYY-MM-DDThh:mm:ss.mmmZ` for the UTC time `secs` seconds and
/// `nanos` nanoseconds after the Unix epoch: 24 characters, digits where
/// digits go, the date of day `secs / 86400`, the time of day of `secs`, and
/// the milliseconds of `nanos`.
pub open spec fn is_rfc3339_millis_text(t: Seq<char>, secs: u64, nanos: u32) -> bool {
    &&& t.len() == 24
    &&& t[4] == '-' && t[7] == '-' && t[10] == 'T' && t[13] == ':' && t[16] == ':'
    &&& t[19] == '.' && t[23] == 'Z'
    &&& forall|i: int|
        0 <= i < 23 && i != 4 && i != 7 && i != 10 && i != 13 && i != 16 && i != 19 ==> is_digit(
            #[trigger] t[i],
        )
    &&& decimal(t, 0, 4) == civil_from_days(secs as int / 86_400).0
    &&& decimal(t, 5, 2) == civil_from_days(secs as int / 86_400).1
    &&& decimal(t, 8, 2) == civil_from_days(secs as int / 86_400).2
    &&& decimal(t, 11, 2) == (secs % 86_400) / 3_600
    &&& decimal(t, 14, 2) == (secs % 3_600) / 60
    &&& decimal(t, 17, 2) == secs % 60
    &&& decimal(t, 20, 3) == nanos / 1_000_000
}

/// The view of an optional string.
pub open spec fn string_option_view(o: Option<String>) -> Option<Seq<char>> {
    match o {
        Some(s) => Some(s@),
        None => None,
    }
}

/// chrono's `DateTime::from_timestamp(secs, nanos)` followed by
/// `to_rfc3339_opts(SecondsFormat::Millis, true)`; the first only converts the
/// arguments into chrono's `DateTime`, which cannot be declared here. The
/// result is named by `rfc3339_millis_utc`. As chrono's source shows
/// (`from_timestamp`, `write_rfc3339`), for a time before the year 10000 and
/// a fraction under one second the result is `Some` text of the form
/// `YYYY-MM-DDThh:mm:ss.mmmZ` with the date and time of day of `secs`.
#[verifier::external_body]
fn format_rfc3339_millis(secs: u64, nanos: u32) -> (r: Option<String>)
    ensures
        string_option_view(r) == rfc3339_millis_utc(secs, nanos),
        r matches Some(t) ==> (secs < YEAR_10000_SECS && nanos < 1_000_000_000
            ==> is_rfc3339_millis_text(t@, secs, nanos)),
        secs < YEAR_10000_SECS && nanos < 1_000_000_000 ==> r is Some,
{
    let secs = i64::try_from(secs).ok()?;
    chrono::DateTime::from_timestamp(secs, nanos).map(
        |t| t.to_rfc3339_opts(chrono::SecondsFormat::Millis, true),
    )
}

/// `t` is the text of a clock reading: the RFC 3339 text of some time after
/// the Unix epoch with a fraction under one second, of the form
/// `YYYY-MM-DDThh:mm:ss.mmmZ` when that time is before the year 10000.
pub open spec fn is_clock_timestamp(t: Seq<char>) -> bool {
    exists|secs: u64, nanos: u32|
        #![trigger rfc3339_millis_utc(secs, nanos)]
        {
            &&& nanos < 1_000_000_000
            &&& rfc3339_millis_utc(secs, nanos) == Some(t)
            &&& secs < YEAR_10000_SECS ==> is_rfc3339_millis_text(t, secs, nanos)
        }
}

/// The RFC 3339 text in UTC with milliseconds of the time `secs` seconds and
/// `nanos` nanoseconds after the Unix epoch, `None` when chrono cannot
/// represent that time.
pub fn timestamp_to_string(secs: u64, nanos: u32) -> (r: Option<String>)
    ensures
        string_option_view(r) == rfc3339_millis_utc(secs, nanos),
        secs < YEAR_10000_SECS && nanos < 1_000_000_000 ==> (r matches Some(t)
            && is_rfc3339_millis_text(t@, secs, nanos)),
{
    format_rfc3339_millis(secs, nanos)
}

/// The current time as RFC 3339 text in UTC with milliseconds, or `None`
/// when the clock reads a time before the Unix epoch or one chrono cannot
/// represent.
pub fn timestamp_now() -> (r: Option<String>)
    ensures
        r matches Some(t) ==> is_clock_timestamp(t@),
{
    match since_unix_epoch(system_time_now()) {
        Some((secs, nanos)) => {
            timestamp_to_string(secs, nanos)
        },
        None => None,
    }
}

} // verus!
