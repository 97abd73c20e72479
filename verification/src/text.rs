//! The text shown on screen: the clock, session lengths and start times.

use vstd::prelude::*;
use vstd::string::*;

use crate::input::{all_digits, digits_value, is_digit, parsed_u32, unsigned_part};

verus! {

/// The decimal digit `d` (0 to 9) as text.
pub open spec fn digit_text(d: int) -> Seq<char> {
    if d == 0 {
        "0"@
    } else if d == 1 {
        "1"@
    } else if d == 2 {
        "2"@
    } else if d == 3 {
        "3"@
    } else if d == 4 {
        "4"@
    } else if d == 5 {
        "5"@
    } else if d == 6 {
        "6"@
    } else if d == 7 {
        "7"@
    } else if d == 8 {
        "8"@
    } else {
        "9"@
    }
}

/// `n` written in decimal, without leading zeros (`{}`).
pub open spec fn decimal(n: nat) -> Seq<char>
    decreases n,
{
    if n < 10 {
        digit_text(n as int)
    } else {
        decimal(n / 10) + digit_text((n % 10) as int)
    }
}

/// `n` written in decimal with at least two digits (`{:02}`).
pub open spec fn two_digits(n: nat) -> Seq<char> {
    if n < 10 { "0"@ + decimal(n) } else { decimal(n) }
}

/// `"HH:MM"` style: both numbers with at least two digits.
pub open spec fn pair_text(a: nat, b: nat) -> Seq<char> {
    two_digits(a) + ":"@ + two_digits(b)
}

fn digit_str(d: u32) -> (s: &'static str)
    requires
        d < 10,
    ensures
        s@ == digit_text(d as int),
{
    if d == 0 {
        "0"
    } else if d == 1 {
        "1"
    } else if d == 2 {
        "2"
    } else if d == 3 {
        "3"
    } else if d == 4 {
        "4"
    } else if d == 5 {
        "5"
    } else if d == 6 {
        "6"
    } else if d == 7 {
        "7"
    } else if d == 8 {
        "8"
    } else {
        "9"
    }
}

/// Appends `n` in decimal.
pub fn push_decimal(out: &mut String, n: u64)
    ensures
        final(out)@ == old(out)@ + decimal(n as nat),
    decreases n,
{
    if n >= 10 {
        push_decimal(out, n / 10);
    }
    out.append(digit_str((n % 10) as u32));
    proof {
        if n >= 10 {
            assert(final(out)@ == old(out)@ + decimal((n / 10) as nat) + digit_text((n % 10) as int));
        }
    }
}

/// Appends `n` in decimal with at least two digits.
pub fn push_two_digits(out: &mut String, n: u32)
    ensures
        final(out)@ == old(out)@ + two_digits(n as nat),
{
    if n < 10 {
        out.append("0");
    }
    push_decimal(out, n as u64);
}

/// The countdown shown on the clock: whole minutes and seconds, `"MM:SS"`.
pub fn clock_text(secs: u32) -> (s: String)
    ensures
        s@ == pair_text((secs / 60) as nat, (secs % 60) as nat),
{
    let mut out = String::new();
    push_two_digits(&mut out, secs / 60);
    out.append(":");
    push_two_digits(&mut out, secs % 60);
    out
}

/// A session length as the history shows it: `"25m"` for whole minutes,
/// else `"24:05"`.
pub open spec fn duration_text(secs: nat) -> Seq<char> {
    if secs % 60 == 0 {
        decimal(secs / 60) + "m"@
    } else {
        decimal(secs / 60) + ":"@ + two_digits(secs % 60)
    }
}

pub fn format_duration(secs: u32) -> (s: String)
    ensures
        s@ == duration_text(secs as nat),
{
    let m = secs / 60;
    let sec = secs % 60;
    let mut out = String::new();
    push_decimal(&mut out, m as u64);
    if sec == 0 {
        out.append("m");
    } else {
        out.append(":");
        push_two_digits(&mut out, sec);
    }
    out
}

/// Short English month name; month 0 is January, 11 and above December.
pub open spec fn month_text(m: int) -> Seq<char> {
    if m == 0 {
        "Jan"@
    } else if m == 1 {
        "Feb"@
    } else if m == 2 {
        "Mar"@
    } else if m == 3 {
        "Apr"@
    } else if m == 4 {
        "May"@
    } else if m == 5 {
        "Jun"@
    } else if m == 6 {
        "Jul"@
    } else if m == 7 {
        "Aug"@
    } else if m == 8 {
        "Sep"@
    } else if m == 9 {
        "Oct"@
    } else if m == 10 {
        "Nov"@
    } else {
        "Dec"@
    }
}

fn month_str(m: u32) -> (s: &'static str)
    ensures
        s@ == month_text(m as int),
{
    if m == 0 {
        "Jan"
    } else if m == 1 {
        "Feb"
    } else if m == 2 {
        "Mar"
    } else if m == 3 {
        "Apr"
    } else if m == 4 {
        "May"
    } else if m == 5 {
        "Jun"
    } else if m == 6 {
        "Jul"
    } else if m == 7 {
        "Aug"
    } else if m == 8 {
        "Sep"
    } else if m == 9 {
        "Oct"
    } else if m == 10 {
        "Nov"
    } else {
        "Dec"
    }
}

/// One day in milliseconds.
pub const DAY_MS: i64 = 86_400_000;

/// When a session started, as the history shows it: `"Today HH:MM"`,
/// `"Yesterday HH:MM"`, or `"Mon D HH:MM"`. `today_start_ms` is the local
/// midnight that starts today; `month` (0 = January), `day`, `hours` and
/// `minutes` are the local calendar fields of `started_at_ms`.
pub open spec fn when_text(
    started_at_ms: i64,
    today_start_ms: i64,
    month: u32,
    day: u32,
    hours: u32,
    minutes: u32,
) -> Seq<char> {
    let time = pair_text(hours as nat, minutes as nat);
    if started_at_ms >= today_start_ms {
        "Today "@ + time
    } else if started_at_ms >= today_start_ms - DAY_MS {
        "Yesterday "@ + time
    } else {
        month_text(month as int) + " "@ + decimal(day as nat) + " "@ + time
    }
}

pub fn format_when(
    started_at_ms: i64,
    today_start_ms: i64,
    month: u32,
    day: u32,
    hours: u32,
    minutes: u32,
) -> (s: String)
    requires
        today_start_ms - DAY_MS >= i64::MIN,
    ensures
        s@ == when_text(started_at_ms, today_start_ms, month, day, hours, minutes),
{
    let mut out = String::new();
    if started_at_ms >= today_start_ms {
        out.append("Today ");
    } else if started_at_ms >= today_start_ms - DAY_MS {
        out.append("Yesterday ");
    } else {
        let month_idx = if month > 11 { 11 } else { month };
        out.append(month_str(month_idx));
        out.append(" ");
        push_decimal(&mut out, day as u64);
        out.append(" ");
    }
    push_two_digits(&mut out, hours);
    out.append(":");
    push_two_digits(&mut out, minutes);
    out
}

/// The time of day of a session's end, `"HH:MM"`.
pub fn format_time_of_day(hours: u32, minutes: u32) -> (s: String)
    ensures
        s@ == pair_text(hours as nat, minutes as nat),
{
    let mut out = String::new();
    push_two_digits(&mut out, hours);
    out.append(":");
    push_two_digits(&mut out, minutes);
    out
}

/// The twelve month names, January first.
pub open spec fn month_names() -> Seq<Seq<char>> {
    seq!["Jan"@, "Feb"@, "Mar"@, "Apr"@, "May"@, "Jun"@, "Jul"@, "Aug"@, "Sep"@, "Oct"@, "Nov"@, "Dec"@]
}

/// A day is 24 hours of 60 minutes of 60 seconds of 1000 milliseconds.
pub proof fn lemma_day_length()
    ensures
        DAY_MS == 24 * 60 * 60 * 1000,
{
}

/// Month `m` (0 = January) is named by the `m`-th of the twelve names;
/// anything past December is shown as December.
pub proof fn lemma_month_names(m: int)
    ensures
        0 <= m < 12 ==> month_text(m) == month_names()[m],
        m >= 11 ==> month_text(m) == month_names()[11],
{
}

/// Each decimal digit is one ASCII digit character of that value.
pub proof fn lemma_digit_text(d: int)
    requires
        0 <= d < 10,
    ensures
        digit_text(d).len() == 1,
        is_digit(digit_text(d)[0]),
        digit_text(d)[0] as int == '0' as int + d,
        digits_value(digit_text(d)) == d,
{
    reveal_strlit("0");
    reveal_strlit("1");
    reveal_strlit("2");
    reveal_strlit("3");
    reveal_strlit("4");
    reveal_strlit("5");
    reveal_strlit("6");
    reveal_strlit("7");
    reveal_strlit("8");
    reveal_strlit("9");
    assert(digit_text(d).drop_last().len() == 0);
    assert(digits_value(digit_text(d).drop_last()) == 0);
}

proof fn lemma_digits_value_push(x: Seq<char>, c: Seq<char>)
    requires
        c.len() == 1,
    ensures
        digits_value(x + c) == digits_value(x) * 10 + (c[0] as int - '0' as int),
{
    assert((x + c).drop_last() == x);
    assert((x + c).last() == c[0]);
}

/// Writing `n` in decimal and reading the digits back gives `n`: the text
/// is one or more ASCII digits, without a leading zero unless `n` is 0.
pub proof fn lemma_decimal_reads_back(n: nat)
    ensures
        decimal(n).len() >= 1,
        all_digits(decimal(n)),
        digits_value(decimal(n)) == n,
        n > 0 ==> decimal(n)[0] != '0',
        n < 10 ==> decimal(n).len() == 1,
        n >= 10 ==> decimal(n).len() >= 2,
    decreases n,
{
    if n < 10 {
        lemma_digit_text(n as int);
        if n > 0 {
            assert(decimal(n)[0] as int == '0' as int + n);
        }
    } else {
        let hi = decimal(n / 10);
        let lo = digit_text((n % 10) as int);
        lemma_decimal_reads_back(n / 10);
        lemma_digit_text((n % 10) as int);
        lemma_digits_value_push(hi, lo);
        assert forall|i: int| 0 <= i < (hi + lo).len() implies is_digit(#[trigger] (hi + lo)[i]) by {
            if i < hi.len() {
                assert((hi + lo)[i] == hi[i]);
            } else {
                assert((hi + lo)[i] == lo[0]);
            }
        }
        assert((hi + lo)[0] == hi[0]);
    }
}

/// Every number of 32 bits, written in decimal, parses back to itself.
pub proof fn lemma_decimal_parses_back(n: u32)
    ensures
        parsed_u32(decimal(n as nat)) == Some(n),
{
    lemma_decimal_reads_back(n as nat);
    lemma_digit_text(0);
    assert(is_digit(decimal(n as nat)[0]));
    assert(unsigned_part(decimal(n as nat)) == decimal(n as nat));
}

proof fn lemma_leading_zero(x: Seq<char>)
    ensures
        digits_value("0"@ + x) == digits_value(x),
    decreases x.len(),
{
    reveal_strlit("0");
    if x.len() == 0 {
        assert(("0"@ + x).drop_last().len() == 0);
        assert(digits_value(("0"@ + x).drop_last()) == 0);
        assert(("0"@ + x).last() == '0');
    } else {
        lemma_leading_zero(x.drop_last());
        assert(("0"@ + x).drop_last() == "0"@ + x.drop_last());
        assert(("0"@ + x).last() == x.last());
    }
}

/// `n` with at least two digits reads back as `n`: ASCII digits, exactly
/// two of them below 100, a leading zero only below 10.
pub proof fn lemma_two_digits_read_back(n: nat)
    ensures
        two_digits(n).len() >= 2,
        n < 100 ==> two_digits(n).len() == 2,
        all_digits(two_digits(n)),
        digits_value(two_digits(n)) == n,
{
    lemma_decimal_reads_back(n);
    if n < 10 {
        reveal_strlit("0");
        lemma_leading_zero(decimal(n));
        let t = "0"@ + decimal(n);
        assert forall|i: int| 0 <= i < t.len() implies is_digit(#[trigger] t[i]) by {
            if i >= 1 {
                assert(t[i] == decimal(n)[i - 1]);
            }
        }
    } else if n < 100 {
        assert(decimal(n) == decimal(n / 10) + digit_text((n % 10) as int));
        lemma_decimal_reads_back(n / 10);
        lemma_digit_text((n % 10) as int);
    }
}

/// `"A:B"` text splits at its colon into the two numbers, each with at least
/// two digits.
pub proof fn lemma_pair_reads_back(a: nat, b: nat)
    ensures
        ({
            let t = pair_text(a, b);
            let k = two_digits(a).len() as int;
            &&& k >= 2
            &&& t[k] == ':'
            &&& t.take(k) == two_digits(a)
            &&& t.skip(k + 1) == two_digits(b)
            &&& digits_value(t.take(k)) == a
            &&& digits_value(t.skip(k + 1)) == b
            &&& (b < 100 ==> t.len() == k + 3)
        }),
{
    reveal_strlit(":");
    lemma_two_digits_read_back(a);
    lemma_two_digits_read_back(b);
    let t = pair_text(a, b);
    let k = two_digits(a).len() as int;
    assert(t.take(k) == two_digits(a));
    assert(t.skip(k + 1) == two_digits(b));
}

/// The clock reads back as whole minutes and seconds: the seconds part is
/// below 60 and the two make up `secs`.
pub proof fn lemma_clock_reads_back(secs: u32)
    ensures
        ({
            let t = pair_text((secs / 60) as nat, (secs % 60) as nat);
            let k = two_digits((secs / 60) as nat).len() as int;
            &&& t[k] == ':'
            &&& t.len() == k + 3
            &&& digits_value(t.skip(k + 1)) < 60
            &&& digits_value(t.take(k)) * 60 + digits_value(t.skip(k + 1)) == secs
        }),
{
    lemma_pair_reads_back((secs / 60) as nat, (secs % 60) as nat);
}

/// A whole number of minutes is shown as the minutes and `m`; anything else
/// as minutes, a colon and two-digit seconds; either way the parts make up
/// `secs`.
pub proof fn lemma_duration_reads_back(secs: nat)
    ensures
        ({
            let t = duration_text(secs);
            let k = decimal(secs / 60).len() as int;
            &&& t.take(k) == decimal(secs / 60)
            &&& digits_value(t.take(k)) == secs / 60
            &&& secs % 60 == 0 ==> t.len() == k + 1 && t[k] == 'm'
            &&& secs % 60 != 0 ==> {
                &&& t[k] == ':'
                &&& t.skip(k + 1) == two_digits(secs % 60)
                &&& digits_value(t.skip(k + 1)) * 1 + digits_value(t.take(k)) * 60 == secs
            }
        }),
{
    reveal_strlit("m");
    reveal_strlit(":");
    lemma_decimal_reads_back(secs / 60);
    lemma_two_digits_read_back(secs % 60);
    let t = duration_text(secs);
    let k = decimal(secs / 60).len() as int;
    assert(t.take(k) == decimal(secs / 60));
    if secs % 60 != 0 {
        assert(t.skip(k + 1) == two_digits(secs % 60));
    }
}

/// A start time today reads `Today HH:MM`, one in the day before reads
/// `Yesterday HH:MM`, and an earlier one reads as the month name, the day of
/// the month and the time.
pub proof fn lemma_when_cases(
    started_at_ms: i64,
    today_start_ms: i64,
    month: u32,
    day: u32,
    hours: u32,
    minutes: u32,
)
    ensures
        ({
            let t = when_text(started_at_ms, today_start_ms, month, day, hours, minutes);
            let time = pair_text(hours as nat, minutes as nat);
            &&& started_at_ms >= today_start_ms ==> t == "Today "@ + time
            &&& today_start_ms - 24 * 60 * 60 * 1000 <= started_at_ms < today_start_ms ==> t == "Yesterday "@
                + time
            &&& started_at_ms < today_start_ms - 24 * 60 * 60 * 1000 ==> t == month_names()[if month < 12 {
                month as int
            } else {
                11
            }] + " "@ + decimal(day as nat) + " "@ + time
        }),
{
}

} // verus!
