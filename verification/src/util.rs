//! Identifier suffixes and calendar dates.
use crate::text::{
    digit, hex_text, hexadecimal, padded, padded_hex_text, padded_hexadecimal, padded_text,
};
use crate::time::SystemTime;
use vstd::arithmetic::div_mod::{lemma_fundamental_div_mod, lemma_fundamental_div_mod_converse};
use vstd::prelude::*;
use vstd::string::*;

verus! {

/// Whether `y` is a leap year of the Gregorian calendar.
pub open spec fn is_leap(y: int) -> bool {
    (y % 4 == 0 && y % 100 != 0) || y % 400 == 0
}

/// How many days month `m` of year `y` has.
pub open spec fn days_in_month(y: int, m: int) -> int {
    if m == 2 {
        if is_leap(y) {
            29
        } else {
            28
        }
    } else if m == 4 || m == 6 || m == 9 || m == 11 {
        30
    } else {
        31
    }
}

/// How many days of year `y` come before month `m`.
pub open spec fn days_before_month(y: int, m: int) -> int
    decreases m,
{
    if m <= 1 {
        0
    } else {
        days_before_month(y, m - 1) + days_in_month(y, m - 1)
    }
}

/// How many days come before year `y`, counted from the first of January of
/// year one.
pub open spec fn days_before_year(y: int) -> int {
    365 * (y - 1) + (y - 1) / 4 - (y - 1) / 100 + (y - 1) / 400
}

/// Whether there is a day `d` in month `m` of year `y`.
pub open spec fn is_date(y: int, m: int, d: int) -> bool {
    &&& 1 <= m <= 12
    &&& 1 <= d <= days_in_month(y, m)
}

/// How many days after 1970-01-01 a date is.
pub open spec fn day_number(y: int, m: int, d: int) -> int {
    days_before_year(y) + days_before_month(y, m) + d - 1 - 719162
}

/// The date that follows.
pub open spec fn next_date(y: int, m: int, d: int) -> (int, int, int) {
    if d < days_in_month(y, m) {
        (y, m, d + 1)
    } else if m < 12 {
        (y, m + 1, 1)
    } else {
        (y + 1, 1, 1)
    }
}

/// Day numbers count dates one by one from 1970-01-01: that date has number
/// zero, and the next date has the next number.
pub proof fn day_numbers_count_dates(y: int, m: int, d: int)
    requires
        is_date(y, m, d),
    ensures
        day_number(1970, 1, 1) == 0,
        ({
            let (ny, nm, nd) = next_date(y, m, d);
            is_date(ny, nm, nd) && day_number(ny, nm, nd) == day_number(y, m, d) + 1
        }),
{
    if d == days_in_month(y, m) {
        if m < 12 {
            assert(days_before_month(y, m + 1) == days_before_month(y, m) + days_in_month(y, m));
        } else {
            lemma_year_length(y);
            lemma_leap_quotients(y);
        }
    }
}

proof fn lemma_year_length(y: int)
    ensures
        days_before_month(y, 12) + 31 == if is_leap(y) {
            366int
        } else {
            365
        },
{
    reveal_with_fuel(days_before_month, 13);
}

/// How many days of a span of four hundred years that starts in March come
/// before its year `k`.
spec fn days_before_march_year(k: int) -> int {
    365 * k + k / 4 - k / 100
}

/// The year of a span of four hundred years in which day `doe` falls.
proof fn lemma_year_of_era(doe: int, yoe: int)
    requires
        0 <= doe <= 146096,
        yoe == (doe - doe / 1460 + doe / 36524 - doe / 146096) / 365,
    ensures
        0 <= yoe <= 399,
        days_before_march_year(yoe) <= doe,
        doe - days_before_march_year(yoe) <= 365,
        doe - days_before_march_year(yoe) == 365 ==> is_leap(yoe + 1),
{
    let a = doe / 1460;
    let b = doe / 36524;
    let c = doe / 146096;
    assert(0 <= b <= 4);
    assert(0 <= c <= 1);
    assert(0 <= yoe <= 399);
    let q = yoe / 100;
    assert(0 <= q <= 3);
    if b == 0 {
    } else if b == 1 {
    } else if b == 2 {
    } else if b == 3 {
    } else {
    }
}

/// The year of the calendar in which month `m` falls, where `y` is a year
/// counted from March.
spec fn calendar_year(y: int, m: int) -> int {
    if m <= 2 {
        y + 1
    } else {
        y
    }
}

/// The month and day of day `doy` of a year counted from March.
proof fn lemma_month_of_year(y: int, doy: int, mp: int, m: int, d: int)
    requires
        0 <= doy <= 365,
        doy == 365 ==> is_leap(y + 1),
        mp == (5 * doy + 2) / 153,
        d == doy - (153 * mp + 2) / 5 + 1,
        m == if mp < 10 {
            mp + 3
        } else {
            mp - 9
        },
    ensures
        0 <= mp <= 11,
        is_date(calendar_year(y, m), m, d),
        m <= 2 ==> days_before_month(y + 1, m) + d - 1 == doy - 306,
        m >= 3 ==> days_before_month(y, m) + d - 1 == doy + 59 + if is_leap(y) {
            1int
        } else {
            0
        },
{
    reveal_with_fuel(days_before_month, 13);
    assert(0 <= mp <= 11);
}

/// Quotients and remainders of a year, split by spans of four hundred years.
proof fn lemma_split_year(era: int, k: int)
    ensures
        (era * 400 + k) / 4 == era * 100 + k / 4,
        (era * 400 + k) / 100 == era * 4 + k / 100,
        (era * 400 + k) / 400 == era + k / 400,
        is_leap(era * 400 + k) == is_leap(k),
{
    assert((era * 400 + k) / 4 == era * 100 + k / 4);
    assert((era * 400 + k) / 100 == era * 4 + k / 100);
    assert((era * 400 + k) / 400 == era + k / 400);
    assert((era * 400 + k) % 4 == k % 4);
    assert((era * 400 + k) % 100 == k % 100);
    assert((era * 400 + k) % 400 == k % 400);
}

/// How many days come before a year, split by spans of four hundred years.
proof fn lemma_days_before_year(era: int, yoe: int)
    requires
        0 <= yoe <= 399,
    ensures
        days_before_year(era * 400 + yoe + 1) == era * 146097 + days_before_march_year(yoe),
        days_before_year(era * 400 + yoe + 1) == days_before_year(era * 400 + yoe) + 365 + if is_leap(
            era * 400 + yoe,
        ) {
            1int
        } else {
            0
        },
        is_leap(era * 400 + yoe + 1) == is_leap(yoe + 1),
{
    lemma_split_year(era, yoe - 1);
    lemma_split_year(era, yoe);
    lemma_split_year(era, yoe + 1);
    assert(yoe / 400 == 0);
    lemma_leap_quotients(yoe);
}

/// A leap day is counted once, before the year that follows it.
proof fn lemma_leap_quotients(k: int)
    ensures
        k / 4 - k / 100 + k / 400 == (k - 1) / 4 - (k - 1) / 100 + (k - 1) / 400 + if is_leap(k) {
            1int
        } else {
            0
        },
{
    lemma_quotient_step(k, 4);
    lemma_quotient_step(k, 100);
    lemma_quotient_step(k, 400);
    lemma_multiple(k, 100, 25, 4);
    lemma_multiple(k, 400, 4, 100);
    lemma_leap_count(
        (k / 4, (k - 1) / 4),
        (k / 100, (k - 1) / 100),
        (k / 400, (k - 1) / 400),
        k % 4 == 0,
        k % 100 == 0,
        k % 400 == 0,
    );
}

/// What divides by a product divides by each of its factors.
proof fn lemma_multiple(k: int, product: int, a: int, b: int)
    requires
        product == a * b,
        product > 0,
        b > 0,
    ensures
        k % product == 0 ==> k % b == 0,
{
    lemma_fundamental_div_mod(k, product);
    if k % product == 0 {
        let q = k / product;
        assert(k == (a * q) * b + 0) by (nonlinear_arith)
            requires
                k == product * q,
                product == a * b,
        ;
        lemma_fundamental_div_mod_converse(k, b, a * q, 0);
    }
}

proof fn lemma_leap_count(
    fours: (int, int),
    hundreds: (int, int),
    four_hundreds: (int, int),
    by4: bool,
    by100: bool,
    by400: bool,
)
    requires
        fours.0 == fours.1 + if by4 {
            1int
        } else {
            0
        },
        hundreds.0 == hundreds.1 + if by100 {
            1int
        } else {
            0
        },
        four_hundreds.0 == four_hundreds.1 + if by400 {
            1int
        } else {
            0
        },
        by100 ==> by4,
        by400 ==> by100,
    ensures
        fours.0 - hundreds.0 + four_hundreds.0 == fours.1 - hundreds.1 + four_hundreds.1 + if by4
            && !by100 || by400 {
            1int
        } else {
            0
        },
{
}

proof fn lemma_quotient_step(k: int, n: int)
    requires
        n > 0,
    ensures
        k / n == (k - 1) / n + if k % n == 0 {
            1int
        } else {
            0
        },
{
    lemma_fundamental_div_mod(k, n);
    if k % n == 0 {
        assert(k - 1 == (k / n - 1) * n + (n - 1)) by (nonlinear_arith)
            requires
                k == n * (k / n),
        ;
        lemma_fundamental_div_mod_converse(k - 1, n, k / n - 1, n - 1);
    } else {
        assert(k - 1 == (k / n) * n + (k % n - 1)) by (nonlinear_arith)
            requires
                k == n * (k / n) + k % n,
        ;
        lemma_fundamental_div_mod_converse(k - 1, n, k / n, k % n - 1);
    }
}

/// The year, month and day of the given number of days after 1970-01-01.
pub fn days_to_ymd(days: u64) -> (res: (u64, u64, u64))
    requires
        days <= u64::MAX - 719468,
    ensures
        is_date(res.0 as int, res.1 as int, res.2 as int),
        day_number(res.0 as int, res.1 as int, res.2 as int) == days,
{
    let days: u64 = days + 719468;
    let era: u64 = days / 146097;
    let doe: u64 = days % 146097;
    let yoe: u64 = (doe - doe / 1460 + doe / 36524 - doe / 146096) / 365;
    proof {
        lemma_year_of_era(doe as int, yoe as int);
    }
    let y: u64 = yoe + era * 400;
    let ghost march_year: int = y as int;
    let doy: u64 = doe - (365 * yoe + yoe / 4 - yoe / 100);
    let mp: u64 = (5 * doy + 2) / 153;
    assert((153 * mp + 2) / 5 <= doy);
    let d: u64 = doy - (153 * mp + 2) / 5 + 1;
    let m: u64 = if mp < 10 {
        mp + 3
    } else {
        mp - 9
    };
    let y: u64 = if m <= 2 {
        y + 1
    } else {
        y
    };
    proof {
        lemma_days_before_year(era as int, yoe as int);
        lemma_month_of_year(march_year, doy as int, mp as int, m as int, d as int);
    }
    (y, m, d)
}

/// Two dates with the same day number are the same date.
pub proof fn dates_are_numbered_apart(y: int, m: int, d: int, y2: int, m2: int, d2: int)
    requires
        is_date(y, m, d),
        is_date(y2, m2, d2),
        day_number(y, m, d) == day_number(y2, m2, d2),
    ensures
        y == y2 && m == m2 && d == d2,
{
    lemma_day_of_year(y, m, d);
    lemma_day_of_year(y2, m2, d2);
    lemma_leap_quotients(y);
    lemma_leap_quotients(y2);
    if y < y2 {
        lemma_years_grow(y + 1, y2);
    } else if y2 < y {
        lemma_years_grow(y2 + 1, y);
    } else if m < m2 {
        lemma_months_grow(y, m + 1, m2);
    } else if m2 < m {
        lemma_months_grow(y, m2 + 1, m);
    }
}

proof fn lemma_day_of_year(y: int, m: int, d: int)
    requires
        is_date(y, m, d),
    ensures
        0 <= days_before_month(y, m) + d - 1 < 365 + if is_leap(y) {
            1int
        } else {
            0
        },
{
    reveal_with_fuel(days_before_month, 13);
}

proof fn lemma_months_grow(y: int, m: int, m2: int)
    requires
        1 <= m <= m2 <= 12,
    ensures
        days_before_month(y, m) <= days_before_month(y, m2),
    decreases m2 - m,
{
    if m < m2 {
        lemma_months_grow(y, m, m2 - 1);
    }
}

proof fn lemma_years_grow(y: int, y2: int)
    requires
        y <= y2,
    ensures
        days_before_year(y) <= days_before_year(y2),
    decreases y2 - y,
{
    if y < y2 {
        lemma_years_grow(y, y2 - 1);
        lemma_leap_quotients(y2 - 1);
    }
}

/// The date and time of day, `secs` seconds after 1970-01-01T00:00:00Z, in
/// the form `2026-02-14T10:00:01Z`, for the given date.
pub open spec fn timestamp(date: (u64, u64, u64), secs: int) -> Seq<char> {
    padded(date.0 as nat, 4) + "-"@ + padded(date.1 as nat, 2) + "-"@ + padded(date.2 as nat, 2)
        + "T"@ + padded((secs % 86400 / 3600) as nat, 2) + ":"@ + padded(
        (secs % 3600 / 60) as nat,
        2,
    ) + ":"@ + padded((secs % 60) as nat, 2) + "Z"@
}

/// The date on which second `secs` after 1970-01-01T00:00:00Z falls.
pub open spec fn date_of(secs: int) -> (u64, u64, u64) {
    choose|date: (u64, u64, u64)|
        is_date(date.0 as int, date.1 as int, date.2 as int) && day_number(
            date.0 as int,
            date.1 as int,
            date.2 as int,
        ) == secs / 86400
}

proof fn lemma_time_of_day(secs: int)
    requires
        0 <= secs,
    ensures
        secs % 86400 % 3600 == secs % 3600,
        secs % 86400 % 60 == secs % 60,
{
}

/// The form of `timestamp`.
fn timestamp_text(date: (u64, u64, u64), secs: u64) -> (res: String)
    ensures
        res@ == timestamp(date, secs as int),
{
    let time_secs: u64 = secs % 86400;
    let hours: u64 = time_secs / 3600;
    let mins: u64 = (time_secs % 3600) / 60;
    let s: u64 = time_secs % 60;
    proof {
        lemma_time_of_day(secs as int);
    }
    let mut out = padded_text(date.0 as u128, 4);
    out.append("-");
    out.append(padded_text(date.1 as u128, 2).as_str());
    out.append("-");
    out.append(padded_text(date.2 as u128, 2).as_str());
    out.append("T");
    out.append(padded_text(hours as u128, 2).as_str());
    out.append(":");
    out.append(padded_text(mins as u128, 2).as_str());
    out.append(":");
    out.append(padded_text(s as u128, 2).as_str());
    out.append("Z");
    out
}

/// Formats a moment as ISO 8601 UTC, such as `2026-02-14T10:00:01Z`. A moment
/// before 1970 is shown as the start of 1970.
pub fn format_system_time(t: &SystemTime) -> (res: String)
    ensures
        res@ == timestamp(date_of(t.seconds_since_epoch()), t.seconds_since_epoch()),
        is_date(
            date_of(t.seconds_since_epoch()).0 as int,
            date_of(t.seconds_since_epoch()).1 as int,
            date_of(t.seconds_since_epoch()).2 as int,
        ),
        day_number(
            date_of(t.seconds_since_epoch()).0 as int,
            date_of(t.seconds_since_epoch()).1 as int,
            date_of(t.seconds_since_epoch()).2 as int,
        ) == t.seconds_since_epoch() / 86400,
{
    let secs: u64 = t.unix_seconds();
    let (year, month, day) = days_to_ymd(secs / 86400);
    proof {
        let date = date_of(secs as int);
        dates_are_numbered_apart(
            year as int,
            month as int,
            day as int,
            date.0 as int,
            date.1 as int,
            date.2 as int,
        );
    }
    timestamp_text((year, month, day), secs)
}

/// The suffix for a clock reading and a sequence number, in hexadecimal: the
/// low 32 bits of the one, in eight digits, and then the other. As the first
/// part is always as long, the second can be told from the whole.
pub open spec fn suffix(nanos: nat, seq: nat) -> Seq<char> {
    padded_hexadecimal(nanos % 0x1_0000_0000, 8) + hexadecimal(seq)
}

/// The number that is handed out after `calls` others, fewer than 2^64 of
/// them, counting from `start`: numbers wrap round after the last 64-bit one.
pub open spec fn number_after(start: u64, calls: nat) -> u64 {
    if start + calls <= u64::MAX {
        (start + calls) as u64
    } else {
        (start + calls - u64::MAX - 1) as u64
    }
}

/// The sequence numbers handed out so far.
#[derive(Debug)]
pub struct SuffixCounter {
    pub next: u64,
}

impl SuffixCounter {
    /// A counter that has handed out nothing.
    pub fn new() -> (res: SuffixCounter)
        ensures
            res.next == 0,
    {
        SuffixCounter { next: 0 }
    }
}

/// Makes a suffix for allocation ids from the time of day and the next
/// sequence number, which wraps round after the last 64-bit number.
pub fn rand_suffix(counter: &mut SuffixCounter, now: SystemTime) -> (res: String)
    ensures
        res@ == suffix(now.nanos_since_epoch() as nat, old(counter).next as nat),
        final(counter).next == number_after(old(counter).next, 1),
{
    let nanos: u128 = now.unix_nanos();
    let seq: u64 = counter.next;
    counter.next = counter.next.wrapping_add(1);
    let mut out = padded_hex_text(nanos % 0x1_0000_0000, 8);
    out.append(hex_text(seq as u128).as_str());
    out
}

proof fn lemma_hexadecimal_injective(a: nat, b: nat)
    requires
        hexadecimal(a) == hexadecimal(b),
    ensures
        a == b,
    decreases a,
{
    let x = hexadecimal(a);
    let y = hexadecimal(b);
    lemma_hexadecimal_len(a);
    lemma_hexadecimal_len(b);
    if a < 16 {
        assert(x.len() == 1);
        if b >= 16 {
            lemma_hexadecimal_len(b / 16);
        }
        assert(x[0] == digit(a as int));
        assert(y[0] == digit(b as int));
    } else {
        lemma_hexadecimal_len(a / 16);
        assert(b >= 16);
        assert(x.drop_last() =~= hexadecimal(a / 16));
        assert(y.drop_last() =~= hexadecimal(b / 16));
        lemma_hexadecimal_injective(a / 16, b / 16);
        assert(x.last() == digit((a % 16) as int));
        assert(y.last() == digit((b % 16) as int));
    }
}

proof fn lemma_hexadecimal_len(n: nat)
    ensures
        hexadecimal(n).len() >= 1,
        n < 16 ==> hexadecimal(n).len() == 1,
{
}

/// `16` to the power of `n`.
spec fn sixteen_to(n: nat) -> nat
    decreases n,
{
    if n == 0 {
        1
    } else {
        16 * sixteen_to((n - 1) as nat)
    }
}

proof fn lemma_hexadecimal_fits(n: nat, width: nat)
    requires
        width > 0,
        n < sixteen_to(width),
    ensures
        hexadecimal(n).len() <= width,
    decreases width,
{
    lemma_hexadecimal_len(n);
    if n >= 16 {
        assert(width > 1) by {
            reveal_with_fuel(sixteen_to, 2);
        }
        lemma_hexadecimal_fits(n / 16, (width - 1) as nat);
    }
}

proof fn lemma_clock_part(nanos: nat)
    ensures
        padded_hexadecimal(nanos % 0x1_0000_0000, 8).len() == 8,
{
    assert(sixteen_to(8) == 0x1_0000_0000) by {
        reveal_with_fuel(sixteen_to, 9);
    }
    lemma_hexadecimal_fits(nanos % 0x1_0000_0000, 8);
}

/// Suffixes with different sequence numbers differ, whatever the clock read.
pub proof fn suffixes_differ(nanos: nat, seq: nat, nanos2: nat, seq2: nat)
    requires
        seq != seq2,
    ensures
        suffix(nanos, seq) != suffix(nanos2, seq2),
{
    lemma_clock_part(nanos);
    lemma_clock_part(nanos2);
    if suffix(nanos, seq) == suffix(nanos2, seq2) {
        let a = suffix(nanos, seq);
        assert(a.subrange(8, a.len() as int) =~= hexadecimal(seq));
        assert(a.subrange(8, a.len() as int) =~= hexadecimal(seq2));
        lemma_hexadecimal_injective(seq, seq2);
    }
}

/// The counter moves on by one number with each call, and any two calls out
/// of fewer than 2^64 give different suffixes: `i` and `j` say how many calls
/// went before the two, `nanos` and `nanos2` what the clock read at them.
pub proof fn suffixes_are_unique(start: u64, i: nat, nanos: nat, j: nat, nanos2: nat)
    requires
        i < j <= u64::MAX,
    ensures
        number_after(start, 0) == start,
        number_after(number_after(start, i), 1) == number_after(start, i + 1),
        suffix(nanos, number_after(start, i) as nat) != suffix(
            nanos2,
            number_after(start, j) as nat,
        ),
{
    suffixes_differ(
        nanos,
        number_after(start, i) as nat,
        nanos2,
        number_after(start, j) as nat,
    );
}

/// A time is written as its date and its hour, minute and second, each in two digits
/// and the year in four.
pub proof fn times_are_written_by_the_clock(
    date: (u64, u64, u64),
    days: int,
    hour: int,
    minute: int,
    second: int,
)
    requires
        0 <= days,
        0 <= hour < 24,
        0 <= minute < 60,
        0 <= second < 60,
    ensures
        timestamp(date, ((days * 24 + hour) * 60 + minute) * 60 + second) == padded(
            date.0 as nat,
            4,
        ) + "-"@ + padded(date.1 as nat, 2) + "-"@ + padded(date.2 as nat, 2) + "T"@ + padded(
            hour as nat,
            2,
        ) + ":"@ + padded(minute as nat, 2) + ":"@ + padded(second as nat, 2) + "Z"@,
{
    let secs = ((days * 24 + hour) * 60 + minute) * 60 + second;
    assert(secs % 60 == second);
    assert(secs % 3600 / 60 == minute);
    assert(secs % 86400 / 3600 == hour);
}

} // verus!
