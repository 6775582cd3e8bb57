use vstd::prelude::*;
use vstd::arithmetic::div_mod::{lemma_fundamental_div_mod, lemma_fundamental_div_mod_converse};

verus! {

/// The strftime pattern of every date-time the service sends out, e.g. `2024-05-01T09:30:00+07:00`.
pub const STANDARD_DATETIME_FORMAT: &'static str = "%Y-%m-%dT%H:%M:%S%:z";

/// Offset of Thailand time (UTC+7) in seconds east of UTC.
pub const THAI_OFFSET_SECONDS: i32 = 25200;

/// Smallest Unix timestamp (in seconds) that chrono can represent: -262143-01-01T00:00:00Z.
pub const MIN_UNIX_SECONDS: i64 = -8334601228800;

/// Largest Unix timestamp (in seconds) that chrono can represent: 262142-12-31T23:59:59Z.
pub const MAX_UNIX_SECONDS: i64 = 8210266876799;

/// An instant, in seconds since the Unix epoch and nanoseconds past that second, together
/// with the fixed offset (in seconds east of UTC) at which it is shown.
#[derive(Debug, PartialEq, Eq)]
pub struct OffsetDateTime {
    pub unix_seconds: i64,
    pub subsec_nanos: u32,
    pub offset_seconds: i32,
}

/// Seconds within chrono's representable range.
pub open spec fn valid_unix_seconds(secs: int) -> bool {
    MIN_UNIX_SECONDS <= secs <= MAX_UNIX_SECONDS
}

/// Offsets that chrono's `FixedOffset::east_opt` accepts: strictly less than a day either way.
pub open spec fn valid_offset_seconds(offset: int) -> bool {
    -86400 < offset < 86400
}

/// The text of the strftime pattern `%Y-%m-%dT%H:%M:%S%:z`.
pub open spec fn is_standard_pattern(pattern: Seq<char>) -> bool {
    pattern == "%Y-%m-%dT%H:%M:%S%:z"@
}

/// The text chrono produces when it formats the instant `secs` at the fixed offset
/// `offset` with the strftime pattern `pattern`.
pub uninterp spec fn chrono_formatted(secs: i64, offset: i32, pattern: Seq<char>) -> Seq<char>;

/// The decimal digit `d` (0 to 9) as a character.
pub open spec fn digit_char(d: int) -> char {
    (d + 48) as char
}

/// Two decimal digits, zero-padded, of `n` (0 to 99).
pub open spec fn two_digits(n: int) -> Seq<char> {
    seq![digit_char(n / 10), digit_char(n % 10)]
}

/// Four decimal digits, zero-padded, of `n` (0 to 9999).
pub open spec fn four_digits(n: int) -> Seq<char> {
    two_digits(n / 100) + two_digits(n % 100)
}

pub open spec fn is_leap_year(y: int) -> bool {
    (y % 4 == 0 && y % 100 != 0) || y % 400 == 0
}

pub open spec fn days_in_month(y: int, m: int) -> int {
    if m == 2 {
        if is_leap_year(y) { 29 } else { 28 }
    } else if m == 4 || m == 6 || m == 9 || m == 11 {
        30
    } else {
        31
    }
}

/// `y-m-d` is a date of the proleptic Gregorian calendar.
pub open spec fn is_calendar_date(y: int, m: int, d: int) -> bool {
    1 <= m <= 12 && 1 <= d <= days_in_month(y, m)
}

/// Number of days from 1970-01-01 to the Gregorian date `y-m-d` (negative before it).
#[verifier::opaque]
pub open spec fn days_from_civil(y: int, m: int, d: int) -> int {
    let yy = if m <= 2 { y - 1 } else { y };
    let era = yy / 400;
    let yoe = yy - era * 400;
    let mp = if m > 2 { m - 3 } else { m + 9 };
    let doy = (153 * mp + 2) / 5 + d - 1;
    let doe = yoe * 365 + yoe / 4 - yoe / 100 + doy;
    era * 146097 + doe - 719468
}

/// The local date of `secs` at `offset` lies in the years 0 to 9999.
pub open spec fn local_year_has_four_digits(secs: int, offset: int) -> bool {
    -62167219200 <= secs + offset <= 253402300799
}

/// Seconds elapsed since local midnight.
pub open spec fn local_second_of_day(secs: int, offset: int) -> int {
    (secs + offset) % 86400
}

/// `text` begins with the Gregorian date `y-m-d` as `YYYY-MM-DD` (separators aside).
pub open spec fn shows_date(text: Seq<char>, y: int, m: int, d: int) -> bool {
    &&& is_calendar_date(y, m, d)
    &&& text.subrange(0, 4) == four_digits(y)
    &&& text.subrange(5, 7) == two_digits(m)
    &&& text.subrange(8, 10) == two_digits(d)
}

/// The layout of `YYYY-MM-DDTHH:MM:SS+hh:mm`: the local Gregorian date of `secs` at `offset`
/// (year, month, day), its local hour, minute and second, and the offset's sign, hours and minutes.
pub open spec fn standard_layout(text: Seq<char>, secs: int, offset: int) -> bool {
    let sod = local_second_of_day(secs, offset);
    let off = if offset < 0 { -offset } else { offset };
    &&& text.len() == 25
    &&& exists|y: int, m: int, d: int| #![trigger days_from_civil(y, m, d)]
        shows_date(text, y, m, d) && days_from_civil(y, m, d) == (secs + offset) / 86400
    &&& text[4] == '-'
    &&& text[7] == '-'
    &&& text[10] == 'T'
    &&& text.subrange(11, 13) == two_digits(sod / 3600)
    &&& text[13] == ':'
    &&& text.subrange(14, 16) == two_digits((sod % 3600) / 60)
    &&& text[16] == ':'
    &&& text.subrange(17, 19) == two_digits(sod % 60)
    &&& text[19] == (if offset < 0 { '-' } else { '+' })
    &&& text.subrange(20, 22) == two_digits(off / 3600)
    &&& text[22] == ':'
    &&& text.subrange(23, 25) == two_digits((off % 3600) / 60)
}

/// Current time read with chrono's `Utc::now`, as whole seconds since the Unix epoch
/// (`DateTime::timestamp`) and the nanoseconds past that second
/// (`DateTime::timestamp_subsec_nanos`). `Utc::now` panics on a clock set before 1970 and
/// builds its value with `DateTime::from_timestamp(..).unwrap()`, so the seconds lie between 0
/// and chrono's largest timestamp; the nanoseconds are `Duration::subsec_nanos` of the system
/// clock's reading, which std documents as below one billion (no leap second is read). Which
/// instant is read is not promised.
#[verifier::external_body]
pub(crate) fn current_instant() -> (now: (i64, u32))
    ensures
        0 <= now.0 <= MAX_UNIX_SECONDS,
        now.1 < 1_000_000_000,
{
    let now = chrono::Utc::now();
    (now.timestamp(), now.timestamp_subsec_nanos())
}

/// Formats with chrono: `DateTime::from_timestamp(secs, 0)` shown at `FixedOffset::east_opt(offset)`
/// through `DateTime::with_timezone`, then `DateTime::format(pattern)` turned into a `String`.
/// The text is named by `chrono_formatted`. For the standard pattern, an offset of whole minutes
/// and a local year from 0 to 9999, the contract also states what the documented fields hold:
/// `%Y-%m-%d` the proleptic Gregorian date of the local day (four, two and two zero-padded digits),
/// `%H:%M:%S` the local time of day and `%:z` the offset as `+hh:mm`.
#[verifier::external_body]
fn chrono_format(secs: i64, offset: i32, pattern: &str) -> (text: String)
    requires
        valid_unix_seconds(secs as int),
        valid_offset_seconds(offset as int),
        is_standard_pattern(pattern@),
    ensures
        text@ == chrono_formatted(secs, offset, pattern@),
        offset % 60 == 0 && local_year_has_four_digits(secs as int, offset as int)
            ==> standard_layout(text@, secs as int, offset as int),
{
    let utc = chrono::DateTime::from_timestamp(secs, 0).unwrap();
    let zone = chrono::FixedOffset::east_opt(offset).unwrap();
    utc.with_timezone(&zone).format(pattern).to_string()
}

/// The standard text of the instant `secs` at `offset`.
pub open spec fn standard_text(secs: i64, offset: i32) -> Seq<char> {
    chrono_formatted(secs, offset, STANDARD_DATETIME_FORMAT@)
}

/// Formats `secs` at `offset` with `STANDARD_DATETIME_FORMAT`.
pub fn format_standard(secs: i64, offset: i32) -> (text: String)
    requires
        valid_unix_seconds(secs as int),
        valid_offset_seconds(offset as int),
    ensures
        text@ == standard_text(secs, offset),
        offset % 60 == 0 && local_year_has_four_digits(secs as int, offset as int)
            ==> standard_layout(text@, secs as int, offset as int),
{
    assert(STANDARD_DATETIME_FORMAT@ == "%Y-%m-%dT%H:%M:%S%:z"@);
    assert(is_standard_pattern(STANDARD_DATETIME_FORMAT@));
    chrono_format(secs, offset, STANDARD_DATETIME_FORMAT)
}

/// Formats a UTC instant, as in `2024-05-01T02:30:00+00:00`.
pub fn format_utc(secs: i64) -> (text: String)
    requires
        valid_unix_seconds(secs as int),
    ensures
        text@ == standard_text(secs, 0),
        local_year_has_four_digits(secs as int, 0) ==> standard_layout(text@, secs as int, 0),
{
    format_standard(secs, 0)
}

/// Formats an instant in Thailand time, as in `2024-05-01T09:30:00+07:00`.
pub fn format_thai(secs: i64) -> (text: String)
    requires
        valid_unix_seconds(secs as int),
    ensures
        text@ == standard_text(secs, THAI_OFFSET_SECONDS),
        local_year_has_four_digits(secs as int, THAI_OFFSET_SECONDS as int)
            ==> standard_layout(text@, secs as int, THAI_OFFSET_SECONDS as int),
{
    format_standard(secs, THAI_OFFSET_SECONDS)
}

/// The current instant, shown in Thailand time, to the nanosecond.
pub fn now_thai() -> (now: OffsetDateTime)
    ensures
        now.offset_seconds == THAI_OFFSET_SECONDS,
        0 <= now.unix_seconds <= MAX_UNIX_SECONDS,
        now.subsec_nanos < 1_000_000_000,
{
    let (secs, nanos) = current_instant();
    OffsetDateTime { unix_seconds: secs, subsec_nanos: nanos, offset_seconds: THAI_OFFSET_SECONDS }
}

/// The current instant as standard text in Thailand time, ready to be sent out; the
/// standard pattern shows whole seconds, so the fraction of the second is left out.
pub fn now_thai_string() -> (text: String)
    ensures
        exists|secs: i64|
            0 <= secs <= MAX_UNIX_SECONDS && #[trigger] standard_text(secs, THAI_OFFSET_SECONDS) == text@
                && (local_year_has_four_digits(secs as int, THAI_OFFSET_SECONDS as int)
                    ==> standard_layout(text@, secs as int, THAI_OFFSET_SECONDS as int)),
{
    let now = now_thai();
    format_standard(now.unix_seconds, now.offset_seconds)
}


/// Days from 1 March of year 0 to 1 March of year `x` (negative before it): the part of
/// `days_from_civil` that counts whole March-to-February years.
spec fn march_years_days(x: int) -> int {
    let era = x / 400;
    let yoe = x - era * 400;
    era * 146097 + yoe * 365 + yoe / 4 - yoe / 100
}

/// The March-to-February year that ends in February of year `x` has 366 days exactly when
/// `x` is a leap year.
proof fn lemma_march_year_length(x: int)
    ensures
        march_years_days(x) - march_years_days(x - 1) == 365 + (if is_leap_year(x) { 1int } else { 0int }),
{
    let q = (x - 1) / 400;
    let r = (x - 1) % 400;
    lemma_fundamental_div_mod(x - 1, 400);
    assert(0 <= r < 400);
    lemma_fundamental_div_mod_converse(x - 1, 400, q, r);
    if r == 399 {
        lemma_fundamental_div_mod_converse(x, 400, q + 1, 0);
        lemma_fundamental_div_mod_converse(x, 4, 100 * (q + 1), 0);
        assert(march_years_days(x) == (q + 1) * 146097);
        assert(march_years_days(x - 1) == q * 146097 + 399 * 365 + 99 - 3);
    } else {
        let s = r + 1;
        lemma_fundamental_div_mod_converse(x, 400, q, s);
        lemma_fundamental_div_mod(s, 4);
        lemma_fundamental_div_mod(s, 100);
        lemma_fundamental_div_mod(r, 4);
        lemma_fundamental_div_mod(r, 100);
        lemma_fundamental_div_mod_converse(x, 4, 100 * q + s / 4, s % 4);
        lemma_fundamental_div_mod_converse(x, 100, 4 * q + s / 100, s % 100);
        assert(march_years_days(x) == q * 146097 + s * 365 + s / 4 - s / 100);
        assert(march_years_days(x - 1) == q * 146097 + r * 365 + r / 4 - r / 100);
        assert(s / 4 - r / 4 == (if s % 4 == 0 { 1int } else { 0int }));
        assert(s / 100 - r / 100 == (if s % 100 == 0 { 1int } else { 0int }));
    }
}

/// Days of year `y` before the first of month `m`.
spec fn days_before_month(y: int, m: int) -> int {
    if m == 1 {
        0
    } else if m == 2 {
        31
    } else {
        59 + (if is_leap_year(y) { 1int } else { 0int }) + (153 * (m - 3) + 2) / 5
    }
}

/// A date is the first of its year plus the days before its month plus its day, less one.
proof fn lemma_day_in_year(y: int, m: int, d: int)
    requires
        is_calendar_date(y, m, d),
    ensures
        days_from_civil(y, m, d) == days_from_civil(y, 1, 1) + days_before_month(y, m) + d - 1,
        0 <= days_before_month(y, m) + d - 1 < 365 + (if is_leap_year(y) { 1int } else { 0int }),
{
    reveal(days_from_civil);
    lemma_march_year_length(y);
    assert(days_from_civil(y, 1, 1) == march_years_days(y - 1) + 306 - 719468);
    if m <= 2 {
        assert(days_from_civil(y, m, d) == march_years_days(y - 1) + (153 * (m + 9) + 2) / 5 + d - 1 - 719468);
    } else {
        assert(days_from_civil(y, m, d) == march_years_days(y) + (153 * (m - 3) + 2) / 5 + d - 1 - 719468);
    }
}

/// Within one year, a later month, or a later day of the same month, has more days before it.
proof fn lemma_same_year_order(y: int, m1: int, d1: int, m2: int, d2: int)
    requires
        is_calendar_date(y, m1, d1),
        is_calendar_date(y, m2, d2),
        m1 < m2 || (m1 == m2 && d1 < d2),
    ensures
        days_from_civil(y, m1, d1) < days_from_civil(y, m2, d2),
{
    lemma_day_in_year(y, m1, d1);
    lemma_day_in_year(y, m2, d2);
    if m1 < m2 {
        assert(days_before_month(y, m1) + days_in_month(y, m1) <= days_before_month(y, m2));
    }
}

/// The first of January moves forward by the length of each year.
proof fn lemma_year_start_order(y1: int, y2: int)
    requires
        y1 < y2,
    ensures
        days_from_civil(y1, 1, 1) + 365 + (if is_leap_year(y1) { 1int } else { 0int })
            <= days_from_civil(y2, 1, 1),
    decreases y2 - y1,
{
    reveal(days_from_civil);
    lemma_march_year_length(y1);
    assert(days_from_civil(y1, 1, 1) == march_years_days(y1 - 1) + 306 - 719468);
    assert(days_from_civil(y1 + 1, 1, 1) == march_years_days(y1) + 306 - 719468);
    if y1 + 1 < y2 {
        lemma_year_start_order(y1 + 1, y2);
    }
}

/// Later calendar dates lie strictly more days after the epoch.
proof fn lemma_civil_order(y1: int, m1: int, d1: int, y2: int, m2: int, d2: int)
    requires
        is_calendar_date(y1, m1, d1),
        is_calendar_date(y2, m2, d2),
        y1 < y2 || (y1 == y2 && (m1 < m2 || (m1 == m2 && d1 < d2))),
    ensures
        days_from_civil(y1, m1, d1) < days_from_civil(y2, m2, d2),
{
    if y1 < y2 {
        lemma_day_in_year(y1, m1, d1);
        lemma_day_in_year(y2, m2, d2);
        lemma_year_start_order(y1, y2);
    } else {
        lemma_same_year_order(y1, m1, d1, m2, d2);
    }
}

/// `a` sorts before `b` character by character: they agree up to some position, where the
/// character of `a` is the smaller.
pub open spec fn text_before(a: Seq<char>, b: Seq<char>) -> bool {
    exists|i: int|
        #![trigger a[i], b[i]]
        0 <= i < a.len() && i < b.len() && a.subrange(0, i) == b.subrange(0, i) && (a[i] as int) < (b[i] as int)
}

/// `j` is the first position where `f` and `g` differ, and `f` has the smaller character there.
spec fn first_smaller_at(f: Seq<char>, g: Seq<char>, j: int) -> bool {
    0 <= j < f.len() && j < g.len() && f.subrange(0, j) == g.subrange(0, j) && (f[j] as int) < (g[j] as int)
}

/// Zero-padded two-digit numbers sort as the numbers do.
proof fn lemma_two_digits_order(a: int, b: int) -> (j: int)
    requires
        0 <= a < b <= 99,
    ensures
        first_smaller_at(two_digits(a), two_digits(b), j),
        j < 2,
{
    let fa = two_digits(a);
    let fb = two_digits(b);
    if a / 10 < b / 10 {
        assert(fa.subrange(0, 0) =~= fb.subrange(0, 0));
        0
    } else {
        assert(a / 10 == b / 10);
        assert(fa.subrange(0, 1) =~= fb.subrange(0, 1));
        1
    }
}

/// Zero-padded four-digit numbers sort as the numbers do.
proof fn lemma_four_digits_order(a: int, b: int) -> (j: int)
    requires
        0 <= a < b <= 9999,
    ensures
        first_smaller_at(four_digits(a), four_digits(b), j),
        j < 4,
{
    let fa = four_digits(a);
    let fb = four_digits(b);
    if a / 100 < b / 100 {
        let k = lemma_two_digits_order(a / 100, b / 100);
        assert(fa.subrange(0, k) =~= two_digits(a / 100).subrange(0, k));
        assert(fb.subrange(0, k) =~= two_digits(b / 100).subrange(0, k));
        k
    } else {
        assert(a / 100 == b / 100);
        assert(a % 100 < b % 100);
        let k = lemma_two_digits_order(a % 100, b % 100);
        assert(fa.subrange(0, 2 + k) =~= fb.subrange(0, 2 + k)) by {
            assert(two_digits(a % 100).subrange(0, k) == two_digits(b % 100).subrange(0, k));
            assert forall|p: int| 0 <= p < 2 + k implies fa[p] == fb[p] by {
                if p >= 2 {
                    assert(two_digits(a % 100).subrange(0, k)[p - 2] == two_digits(b % 100).subrange(0, k)[p - 2]);
                }
            }
        }
        2 + k
    }
}

/// Two texts that agree before `start` and whose fields at `start` first differ at `j`, the
/// first text's character the smaller, sort in that order.
proof fn lemma_field_decides(t1: Seq<char>, t2: Seq<char>, start: int, len: int, j: int)
    requires
        0 <= start,
        0 <= len,
        start + len <= t1.len(),
        start + len <= t2.len(),
        t1.subrange(0, start) == t2.subrange(0, start),
        first_smaller_at(t1.subrange(start, start + len), t2.subrange(start, start + len), j),
    ensures
        text_before(t1, t2),
{
    let f1 = t1.subrange(start, start + len);
    let f2 = t2.subrange(start, start + len);
    let i = start + j;
    assert(f1.len() == len && f2.len() == len);
    assert forall|p: int| 0 <= p < i implies t1[p] == t2[p] by {
        if p < start {
            assert(t1.subrange(0, start)[p] == t1[p]);
            assert(t2.subrange(0, start)[p] == t2[p]);
            assert(t1[p] == t2[p]);
        } else {
            assert(f1.subrange(0, j)[p - start] == f2.subrange(0, j)[p - start]);
            assert(f1[p - start] == t1[p]);
            assert(f2[p - start] == t2[p]);
            assert(t1[p] == t2[p]);
        }
    }
    assert(t1.subrange(0, i) =~= t2.subrange(0, i));
    assert(t1[i] == f1[j] && t2[i] == f2[j]);
}

/// Where two texts carry equal fields at `start`, they agree on those positions.
proof fn lemma_equal_field(t1: Seq<char>, t2: Seq<char>, start: int, end: int, f: Seq<char>)
    requires
        0 <= start <= end <= t1.len(),
        end <= t2.len(),
        t1.subrange(start, end) == f,
        t2.subrange(start, end) == f,
    ensures
        forall|p: int| start <= p < end ==> t1[p] == t2[p],
{
    assert forall|p: int| start <= p < end implies t1[p] == t2[p] by {
        assert(t1.subrange(start, end)[p - start] == t2.subrange(start, end)[p - start]);
    }
}

/// A date whose day number lies between 0000-01-01 and 9999-12-31 has a four-digit year.
proof fn lemma_four_digit_year(y: int, m: int, d: int)
    requires
        is_calendar_date(y, m, d),
        -719528 <= days_from_civil(y, m, d) <= 2932896,
    ensures
        0 <= y <= 9999,
{
    if y < 0 {
        lemma_civil_order(y, m, d, 0, 1, 1);
        assert(days_from_civil(0, 1, 1) == -719528) by { reveal(days_from_civil); }
    }
    if y > 9999 {
        lemma_civil_order(9999, 12, 31, y, m, d);
        assert(days_from_civil(9999, 12, 31) == 2932896) by { reveal(days_from_civil); }
    }
}

/// The date a standard text shows: the local date of `secs`, with a four-digit year.
proof fn lemma_date_of_layout(text: Seq<char>, secs: int, offset: int) -> (date: (int, int, int))
    requires
        standard_layout(text, secs, offset),
        local_year_has_four_digits(secs, offset),
    ensures
        shows_date(text, date.0, date.1, date.2),
        days_from_civil(date.0, date.1, date.2) == (secs + offset) / 86400,
        0 <= date.0 <= 9999,
{
    let (y, m, d) = choose|y: int, m: int, d: int| #![trigger days_from_civil(y, m, d)]
        shows_date(text, y, m, d) && days_from_civil(y, m, d) == (secs + offset) / 86400;
    lemma_four_digit_year(y, m, d);
    (y, m, d)
}

/// Two calendar dates with the same day number are the same date.
proof fn lemma_civil_injective(y1: int, m1: int, d1: int, y2: int, m2: int, d2: int)
    requires
        is_calendar_date(y1, m1, d1),
        is_calendar_date(y2, m2, d2),
        days_from_civil(y1, m1, d1) == days_from_civil(y2, m2, d2),
    ensures
        y1 == y2 && m1 == m2 && d1 == d2,
{
    if y1 < y2 || (y1 == y2 && (m1 < m2 || (m1 == m2 && d1 < d2))) {
        lemma_civil_order(y1, m1, d1, y2, m2, d2);
    }
    if y2 < y1 || (y1 == y2 && (m2 < m1 || (m1 == m2 && d2 < d1))) {
        lemma_civil_order(y2, m2, d2, y1, m1, d1);
    }
}

/// Within a day, hours, then minutes, then seconds order the seconds since midnight.
proof fn lemma_time_of_day_order(a: int, b: int)
    requires
        0 <= a < b < 86400,
    ensures
        0 <= a / 3600 <= b / 3600 <= 23,
        0 <= (a % 3600) / 60 <= 59,
        0 <= (b % 3600) / 60 <= 59,
        a / 3600 == b / 3600 ==> (a % 3600) / 60 <= (b % 3600) / 60,
        a / 3600 == b / 3600 && (a % 3600) / 60 == (b % 3600) / 60 ==> a % 60 < b % 60,
{
    lemma_fundamental_div_mod(a, 3600);
    lemma_fundamental_div_mod(b, 3600);
    lemma_fundamental_div_mod(a % 3600, 60);
    lemma_fundamental_div_mod(b % 3600, 60);
    lemma_fundamental_div_mod_converse(a, 60, 60 * (a / 3600) + (a % 3600) / 60, (a % 3600) % 60);
    lemma_fundamental_div_mod_converse(b, 60, 60 * (b / 3600) + (b % 3600) / 60, (b % 3600) % 60);
}

/// The separators of the standard layout: `-`, `-`, `T`, `:` and `:`, in a text of 25 characters.
spec fn layout_marks(text: Seq<char>) -> bool {
    &&& text.len() == 25
    &&& text[4] == '-'
    &&& text[7] == '-'
    &&& text[10] == 'T'
    &&& text[13] == ':'
    &&& text[16] == ':'
}

/// The local time of day `sod` (seconds since midnight) as `HH`, `MM` and `SS`.
spec fn shows_time(text: Seq<char>, sod: int) -> bool {
    &&& text.subrange(11, 13) == two_digits(sod / 3600)
    &&& text.subrange(14, 16) == two_digits((sod % 3600) / 60)
    &&& text.subrange(17, 19) == two_digits(sod % 60)
}

/// The parts of a standard text that do not depend on its date.
proof fn lemma_layout_parts(text: Seq<char>, secs: int, offset: int)
    requires
        standard_layout(text, secs, offset),
    ensures
        layout_marks(text),
        shows_time(text, local_second_of_day(secs, offset)),
{
}

/// Texts that show the same date agree on their first eleven characters.
proof fn lemma_same_date_prefix(t1: Seq<char>, t2: Seq<char>, y: int, m: int, d: int)
    requires
        shows_date(t1, y, m, d),
        shows_date(t2, y, m, d),
        layout_marks(t1),
        layout_marks(t2),
    ensures
        t1.subrange(0, 11) == t2.subrange(0, 11),
{
    lemma_equal_field(t1, t2, 0, 4, four_digits(y));
    lemma_equal_field(t1, t2, 5, 7, two_digits(m));
    lemma_equal_field(t1, t2, 8, 10, two_digits(d));
    assert(t1.subrange(0, 11) =~= t2.subrange(0, 11));
}

/// A text showing an earlier date (four-digit years) sorts before one showing a later date.
proof fn lemma_earlier_date_text(
    t1: Seq<char>,
    t2: Seq<char>,
    y1: int,
    m1: int,
    d1: int,
    y2: int,
    m2: int,
    d2: int,
)
    requires
        shows_date(t1, y1, m1, d1),
        shows_date(t2, y2, m2, d2),
        layout_marks(t1),
        layout_marks(t2),
        0 <= y1 <= 9999,
        0 <= y2 <= 9999,
        y1 < y2 || (y1 == y2 && (m1 < m2 || (m1 == m2 && d1 < d2))),
    ensures
        text_before(t1, t2),
{
    if y1 < y2 {
        let j = lemma_four_digits_order(y1, y2);
        assert(t1.subrange(0, 0) =~= t2.subrange(0, 0));
        lemma_field_decides(t1, t2, 0, 4, j);
    } else if m1 < m2 {
        lemma_equal_field(t1, t2, 0, 4, four_digits(y1));
        let j = lemma_two_digits_order(m1, m2);
        assert(t1.subrange(0, 5) =~= t2.subrange(0, 5));
        lemma_field_decides(t1, t2, 5, 2, j);
    } else {
        lemma_equal_field(t1, t2, 0, 4, four_digits(y1));
        lemma_equal_field(t1, t2, 5, 7, two_digits(m1));
        let j = lemma_two_digits_order(d1, d2);
        assert(t1.subrange(0, 8) =~= t2.subrange(0, 8));
        lemma_field_decides(t1, t2, 8, 2, j);
    }
}

/// Of two texts that agree up to the `T`, the one showing the earlier time of day sorts first.
proof fn lemma_earlier_time_text(t1: Seq<char>, t2: Seq<char>, a: int, b: int)
    requires
        t1.subrange(0, 11) == t2.subrange(0, 11),
        layout_marks(t1),
        layout_marks(t2),
        shows_time(t1, a),
        shows_time(t2, b),
        0 <= a < b < 86400,
    ensures
        text_before(t1, t2),
{
    lemma_time_of_day_order(a, b);
    if a / 3600 < b / 3600 {
        let j = lemma_two_digits_order(a / 3600, b / 3600);
        lemma_field_decides(t1, t2, 11, 2, j);
    } else if (a % 3600) / 60 < (b % 3600) / 60 {
        lemma_equal_field(t1, t2, 0, 11, t1.subrange(0, 11));
        lemma_equal_field(t1, t2, 11, 13, two_digits(a / 3600));
        let j = lemma_two_digits_order((a % 3600) / 60, (b % 3600) / 60);
        assert(t1.subrange(0, 14) =~= t2.subrange(0, 14));
        lemma_field_decides(t1, t2, 14, 2, j);
    } else {
        lemma_equal_field(t1, t2, 0, 11, t1.subrange(0, 11));
        lemma_equal_field(t1, t2, 11, 13, two_digits(a / 3600));
        lemma_equal_field(t1, t2, 14, 16, two_digits((a % 3600) / 60));
        let j = lemma_two_digits_order(a % 60, b % 60);
        assert(t1.subrange(0, 17) =~= t2.subrange(0, 17));
        lemma_field_decides(t1, t2, 17, 2, j);
    }
}

/// The standard text of an earlier instant sorts before that of a later one.
proof fn lemma_earlier_text_before(t1: Seq<char>, t2: Seq<char>, s1: int, s2: int, offset: int)
    requires
        standard_layout(t1, s1, offset),
        standard_layout(t2, s2, offset),
        local_year_has_four_digits(s1, offset),
        local_year_has_four_digits(s2, offset),
        s1 < s2,
    ensures
        text_before(t1, t2),
{
    let (y1, m1, d1) = lemma_date_of_layout(t1, s1, offset);
    let (y2, m2, d2) = lemma_date_of_layout(t2, s2, offset);
    lemma_layout_parts(t1, s1, offset);
    lemma_layout_parts(t2, s2, offset);
    let days1 = (s1 + offset) / 86400;
    let days2 = (s2 + offset) / 86400;
    lemma_fundamental_div_mod(s1 + offset, 86400);
    lemma_fundamental_div_mod(s2 + offset, 86400);
    assert(days1 <= days2);
    if days1 < days2 {
        if y2 < y1 || (y2 == y1 && (m2 < m1 || (m2 == m1 && d2 < d1))) {
            lemma_civil_order(y2, m2, d2, y1, m1, d1);
        }
        if y1 == y2 && m1 == m2 && d1 == d2 {
            assert(days1 == days2);
        }
        lemma_earlier_date_text(t1, t2, y1, m1, d1, y2, m2, d2);
    } else {
        lemma_civil_injective(y1, m1, d1, y2, m2, d2);
        lemma_same_date_prefix(t1, t2, y1, m1, d1);
        lemma_earlier_time_text(t1, t2, local_second_of_day(s1, offset), local_second_of_day(s2, offset));
    }
}

/// Two standard texts of one instant at one offset are the same text.
proof fn lemma_same_instant_same_text(t1: Seq<char>, t2: Seq<char>, secs: int, offset: int)
    requires
        standard_layout(t1, secs, offset),
        standard_layout(t2, secs, offset),
        local_year_has_four_digits(secs, offset),
    ensures
        t1 == t2,
{
    let (y, m, d) = lemma_date_of_layout(t1, secs, offset);
    let (y2, m2, d2) = lemma_date_of_layout(t2, secs, offset);
    lemma_civil_injective(y, m, d, y2, m2, d2);
    lemma_layout_parts(t1, secs, offset);
    lemma_layout_parts(t2, secs, offset);
    lemma_same_date_prefix(t1, t2, y, m, d);
    let sod = local_second_of_day(secs, offset);
    let off = if offset < 0 { -offset } else { offset };
    lemma_equal_field(t1, t2, 0, 11, t1.subrange(0, 11));
    lemma_equal_field(t1, t2, 11, 13, two_digits(sod / 3600));
    lemma_equal_field(t1, t2, 14, 16, two_digits((sod % 3600) / 60));
    lemma_equal_field(t1, t2, 17, 19, two_digits(sod % 60));
    lemma_equal_field(t1, t2, 20, 22, two_digits(off / 3600));
    lemma_equal_field(t1, t2, 23, 25, two_digits((off % 3600) / 60));
    assert(t1 =~= t2);
}

/// Standard texts at one offset sort as their instants do: for instants whose local dates
/// lie in the years 0 to 9999, the text of an earlier instant sorts before that of a later
/// one, character by character, and two texts are equal exactly when their instants (in whole
/// seconds) are. So successive readings of the clock, shown in Thailand time, never go
/// backwards as text.
pub proof fn law_standard_text_follows_time(t1: Seq<char>, t2: Seq<char>, s1: int, s2: int, offset: int)
    requires
        standard_layout(t1, s1, offset),
        standard_layout(t2, s2, offset),
        local_year_has_four_digits(s1, offset),
        local_year_has_four_digits(s2, offset),
    ensures
        s1 < s2 ==> text_before(t1, t2),
        (t1 == t2) == (s1 == s2),
{
    if s1 < s2 {
        lemma_earlier_text_before(t1, t2, s1, s2, offset);
        let i = choose|i: int| #![trigger t1[i], t2[i]]
            0 <= i < t1.len() && i < t2.len() && t1.subrange(0, i) == t2.subrange(0, i)
                && (t1[i] as int) < (t2[i] as int);
        assert(t1[i] != t2[i]);
    } else if s2 < s1 {
        lemma_earlier_text_before(t2, t1, s2, s1, offset);
        let i = choose|i: int| #![trigger t2[i], t1[i]]
            0 <= i < t2.len() && i < t1.len() && t2.subrange(0, i) == t1.subrange(0, i)
                && (t2[i] as int) < (t1[i] as int);
        assert(t1[i] != t2[i]);
    } else {
        lemma_same_instant_same_text(t1, t2, s1, offset);
    }
}

/// One instant shown in Thailand time and in UTC: the minutes and seconds agree, the Thai hour
/// is the UTC hour plus seven (around the clock), and the offsets read `+07:00` and `+00:00`.
pub proof fn law_thai_text_is_utc_plus_seven(utc: Seq<char>, thai: Seq<char>, secs: int)
    requires
        standard_layout(utc, secs, 0),
        standard_layout(thai, secs, THAI_OFFSET_SECONDS as int),
    ensures
        thai.subrange(14, 19) == utc.subrange(14, 19),
        utc.subrange(11, 13) == two_digits((secs % 86400) / 3600),
        thai.subrange(11, 13) == two_digits(((secs % 86400) / 3600 + 7) % 24),
        utc.subrange(19, 25) == seq!['+', '0', '0', ':', '0', '0'],
        thai.subrange(19, 25) == seq!['+', '0', '7', ':', '0', '0'],
{
    lemma_layout_parts(utc, secs, 0);
    lemma_layout_parts(thai, secs, THAI_OFFSET_SECONDS as int);
    let a = secs % 86400;
    let b = (secs + 25200) % 86400;
    lemma_fundamental_div_mod(secs, 86400);
    lemma_fundamental_div_mod(a, 3600);
    let h = a / 3600;
    let r = a % 3600;
    if a + 25200 < 86400 {
        lemma_fundamental_div_mod_converse(secs + 25200, 86400, secs / 86400, a + 25200);
        lemma_fundamental_div_mod_converse(b, 3600, h + 7, r);
    } else {
        lemma_fundamental_div_mod_converse(secs + 25200, 86400, secs / 86400 + 1, a + 25200 - 86400);
        lemma_fundamental_div_mod_converse(b, 3600, h - 17, r);
    }
    assert(b / 3600 == (h + 7) % 24);
    assert(b % 3600 == r);
    lemma_fundamental_div_mod(r, 60);
    lemma_fundamental_div_mod_converse(a, 60, 60 * h + r / 60, r % 60);
    lemma_fundamental_div_mod_converse(b, 60, 60 * (b / 3600) + r / 60, r % 60);
    assert(thai.subrange(14, 19) =~= utc.subrange(14, 19)) by {
        assert forall|p: int| 14 <= p < 19 implies thai[p] == utc[p] by {
            if p < 16 {
                assert(thai.subrange(14, 16)[p - 14] == utc.subrange(14, 16)[p - 14]);
            } else if p > 16 {
                assert(thai.subrange(17, 19)[p - 17] == utc.subrange(17, 19)[p - 17]);
            }
        }
    }
    assert(utc.subrange(19, 25) =~= seq!['+', '0', '0', ':', '0', '0']) by {
        assert(utc.subrange(20, 22) == two_digits(0));
        assert(utc.subrange(23, 25) == two_digits(0));
        assert forall|p: int| 20 <= p < 25 && p != 22 implies utc[p] == '0' by {
            if p < 22 {
                assert(utc.subrange(20, 22)[p - 20] == utc[p]);
            } else {
                assert(utc.subrange(23, 25)[p - 23] == utc[p]);
            }
        }
    }
    assert(thai.subrange(19, 25) =~= seq!['+', '0', '7', ':', '0', '0']) by {
        assert(thai.subrange(20, 22) == two_digits(7));
        assert(thai.subrange(23, 25) == two_digits(0));
        assert(thai.subrange(20, 22)[0] == thai[20]);
        assert(thai.subrange(20, 22)[1] == thai[21]);
        assert(thai.subrange(23, 25)[0] == thai[23]);
        assert(thai.subrange(23, 25)[1] == thai[24]);
    }
}

} // verus!
