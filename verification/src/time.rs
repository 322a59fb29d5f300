//! Points in time, as nanoseconds since the Unix epoch, and their text forms.
use vstd::prelude::*;

verus! {

/// Whether a point in time, in seconds, is one that chrono can hold: from the
/// year -262143 to the year 262142.
pub open spec fn valid_seconds(s: int) -> bool {
    -8_334_601_228_800 <= s <= 8_210_266_876_799
}

/// Whether a point in time is one that chrono can hold.
pub open spec fn valid_time(t: i128) -> bool {
    valid_seconds(seconds_of(t))
}

/// The time that has passed since `last`, or none where `last` is in the future.
pub open spec fn age_of(now: i128, last: i128) -> int {
    if now >= last {
        now - last
    } else {
        0
    }
}

/// Computes the time that has passed since `last`.
pub fn age(now: i128, last: i128) -> (r: i128)
    requires
        valid_time(now),
        valid_time(last),
    ensures
        r == age_of(now, last),
{
    if now >= last {
        now - last
    } else {
        0
    }
}

/// The whole minutes from `last` to `now`, rounded towards zero.
pub open spec fn minutes_between(last: i128, now: i128) -> int {
    if now >= last {
        (now - last) / 60_000_000_000
    } else {
        -((last - now) / 60_000_000_000)
    }
}

/// Computes the whole minutes from `last` to `now`.
pub fn elapsed_minutes(last: i128, now: i128) -> (r: i128)
    requires
        valid_time(now),
        valid_time(last),
    ensures
        r == minutes_between(last, now),
{
    if now >= last {
        (now - last) / 60_000_000_000
    } else {
        -((last - now) / 60_000_000_000)
    }
}

/// The minute of the hour, in UTC.
pub open spec fn minute_of(now: i128) -> int {
    (now as int / 60_000_000_000) % 60
}

/// Computes the minute of the hour.
pub fn minute_of_hour(now: i128) -> (r: u32)
    requires
        valid_time(now),
    ensures
        r == minute_of(now),
{
    let m: i128 = if now >= 0 {
        now / 60_000_000_000
    } else {
        -((-now - 1) / 60_000_000_000) - 1
    };
    assert(m == now as int / 60_000_000_000);
    let q: i128 = if m >= 0 {
        m / 60
    } else {
        -((-m - 1) / 60) - 1
    };
    assert(q == m as int / 60);
    (m - q * 60) as u32
}

/// The whole seconds since the epoch, rounded down.
pub open spec fn seconds_of(now: i128) -> int {
    now as int / 1_000_000_000
}

/// Computes the whole seconds since the epoch.
pub fn whole_seconds(now: i128) -> (r: i64)
    requires
        valid_time(now),
    ensures
        r == seconds_of(now),
{
    let s: i128 = if now >= 0 {
        now / 1_000_000_000
    } else {
        -((-(now + 1)) / 1_000_000_000) - 1
    };
    s as i64
}

/// The current time, by `chrono::Utc::now`, as whole seconds and nanoseconds
/// since the epoch: a time that chrono can hold, and none before the epoch, since
/// chrono panics where the system clock is set before it. Which time it is, is
/// left to the clock.
#[verifier::external_body]
fn clock() -> (r: (i64, u32))
    ensures
        0 <= r.0,
        valid_seconds(r.0 as int),
        r.1 < 1_000_000_000,
{
    let t = chrono::Utc::now();
    (t.timestamp(), t.timestamp_subsec_nanos())
}

/// Computes the point in time that is given by whole seconds since the epoch and
/// nanoseconds of the second.
pub fn time_at(secs: i64, nanos: u32) -> (r: i128)
    requires
        valid_seconds(secs as int),
        nanos < 1_000_000_000,
    ensures
        r == secs * 1_000_000_000 + nanos,
        seconds_of(r) == secs,
        valid_time(r),
{
    (secs as i128) * 1_000_000_000 + nanos as i128
}

/// The current time: what the clock shows, which is never before the epoch.
pub fn now() -> (r: i128)
    ensures
        0 <= r,
        valid_time(r),
{
    let t: (i64, u32) = clock();
    time_at(t.0, t.1)
}

// ---------------------------------------------------------------------------
// Text forms
// ---------------------------------------------------------------------------

/// What chrono makes of a UTC timestamp in a given format.
pub uninterp spec fn utc_text(secs: i64, nanos: u32, format: Seq<char>) -> Seq<char>;

/// The text of a UTC timestamp, by `chrono::DateTime::from_timestamp` and
/// `chrono::DateTime::format`, for a timestamp that chrono can hold. What the
/// text is, is left to chrono.
#[verifier::external_body]
fn format_utc(secs: i64, nanos: u32, format: &str) -> (r: Option<String>)
    requires
        valid_seconds(secs as int),
        nanos < 1_000_000_000,
        format@ == "%Y%m%d-%H%M%S"@ || format@ == "%Y%m%d%H%M%S"@,
    ensures
        r is Some,
        r->0@ == utc_text(secs, nanos, format@),
{
    match chrono::DateTime::from_timestamp(secs, nanos) {
        Some(t) => Some(t.format(format).to_string()),
        None => None,
    }
}

/// The text of a point in time in a given format.
pub open spec fn stamp_text(now: i128, format: Seq<char>) -> Seq<char> {
    utc_text(
        seconds_of(now) as i64,
        (now - seconds_of(now) * 1_000_000_000) as u32,
        format,
    )
}

fn stamp(now: i128, format: &str) -> (r: String)
    requires
        valid_time(now),
        format@ == "%Y%m%d-%H%M%S"@ || format@ == "%Y%m%d%H%M%S"@,
    ensures
        r@ == stamp_text(now, format@),
{
    let s: i64 = whole_seconds(now);
    let nanos: u32 = (now - (s as i128) * 1_000_000_000) as u32;
    format_utc(s, nanos, format).unwrap()
}

/// The text of a point in time as year, month, day, hyphen, hour, minute, second.
pub fn dashed_stamp(now: i128) -> (r: String)
    requires
        valid_time(now),
    ensures
        r@ == stamp_text(now, "%Y%m%d-%H%M%S"@),
{
    stamp(now, "%Y%m%d-%H%M%S")
}

/// The text of a point in time as year, month, day, hour, minute, second.
pub fn compact_stamp(now: i128) -> (r: String)
    requires
        valid_time(now),
    ensures
        r@ == stamp_text(now, "%Y%m%d%H%M%S"@),
{
    stamp(now, "%Y%m%d%H%M%S")
}

/// What chrono writes for a UTC timestamp by RFC 3339, with `Z` or with a numeric
/// offset.
pub uninterp spec fn utc_rfc3339(secs: i64, nanos: u32, zulu: bool) -> Seq<char>;

/// The text of a UTC timestamp by RFC 3339, by
/// `chrono::DateTime::from_timestamp` and `chrono::DateTime::to_rfc3339_opts`
/// with as many digits of the second as are needed, for a timestamp that chrono
/// can hold. What the text is, is left to chrono.
#[verifier::external_body]
fn write_rfc3339(secs: i64, nanos: u32, zulu: bool) -> (r: Option<String>)
    requires
        valid_seconds(secs as int),
        nanos < 1_000_000_000,
    ensures
        r is Some,
        r->0@ == utc_rfc3339(secs, nanos, zulu),
{
    match chrono::DateTime::from_timestamp(secs, nanos) {
        Some(t) => Some(t.to_rfc3339_opts(chrono::SecondsFormat::AutoSi, zulu)),
        None => None,
    }
}

/// The text of a point in time by RFC 3339.
pub open spec fn rfc3339_form(now: i128, zulu: bool) -> Seq<char> {
    utc_rfc3339(
        seconds_of(now) as i64,
        (now - seconds_of(now) * 1_000_000_000) as u32,
        zulu,
    )
}

/// The text of a point in time by RFC 3339 with a numeric offset.
pub open spec fn rfc3339_text(now: i128) -> Seq<char> {
    rfc3339_form(now, false)
}

/// The text of a point in time in JSON: RFC 3339 with `Z`.
pub open spec fn json_time(now: i128) -> Seq<char> {
    rfc3339_form(now, true)
}

fn rfc3339_with(now: i128, zulu: bool) -> (r: String)
    requires
        valid_time(now),
    ensures
        r@ == rfc3339_form(now, zulu),
{
    let s: i64 = whole_seconds(now);
    let nanos: u32 = (now - (s as i128) * 1_000_000_000) as u32;
    write_rfc3339(s, nanos, zulu).unwrap()
}

/// The text of a point in time by RFC 3339 with a numeric offset.
pub fn rfc3339(now: i128) -> (r: String)
    requires
        valid_time(now),
    ensures
        r@ == rfc3339_text(now),
{
    rfc3339_with(now, false)
}

/// The text of a point in time in JSON.
pub fn time_in_json(now: i128) -> (r: String)
    requires
        valid_time(now),
    ensures
        r@ == json_time(now),
{
    rfc3339_with(now, true)
}

/// The age of a moment is the time that has passed since, and nothing for one that is
/// still to come.
pub proof fn law_age(now: i128, last: i128, r: i128)
    requires
        call_ensures(age, (now, last), r),
    ensures
        now >= last ==> last + r == now,
        now < last ==> r == 0,
{
}

/// Elapsed minutes are whole ones: that many have passed and no full one more.
pub proof fn law_elapsed_minutes(last: i128, now: i128, r: i128)
    requires
        call_ensures(elapsed_minutes, (last, now), r),
        last <= now,
    ensures
        last + r * 60_000_000_000 <= now < last + (r + 1) * 60_000_000_000,
{
}

/// Between a full hour and a moment lie as many whole minutes as the minute of the hour
/// says.
pub proof fn law_minute_of_hour(hour: int, now: i128, r: u32)
    requires
        call_ensures(minute_of_hour, (now,), r),
        hour * 3_600_000_000_000 <= now < (hour + 1) * 3_600_000_000_000,
    ensures
        hour * 3_600_000_000_000 + r * 60_000_000_000 <= now < hour * 3_600_000_000_000 + (r + 1)
            * 60_000_000_000,
{
    let m = now as int / 60_000_000_000;
    assert(hour * 60 <= m < hour * 60 + 60);
    assert(m % 60 == m - hour * 60);
}

/// The whole seconds of a moment leave less than a second over.
pub proof fn law_whole_seconds(now: i128, r: i64)
    requires
        call_ensures(whole_seconds, (now,), r),
    ensures
        r * 1_000_000_000 <= now < (r + 1) * 1_000_000_000,
{
}

} // verus!
