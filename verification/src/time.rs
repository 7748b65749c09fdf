//! Calendar arithmetic: UNIX seconds to a UTC date and time, and the two ways
//! the bot prints one.
use vstd::prelude::*;
use crate::text::{
    all_digits, append, dec, dec_value, decimal, decimal_padded, digit_char, digit_value, is_digit,
    string_of, zero_pad,
};

verus! {

/// Whether `y` is a leap year of the Gregorian calendar.
pub open spec fn leap_year(y: int) -> bool {
    (y % 4 == 0 && y % 100 != 0) || y % 400 == 0
}

/// The number of days in the year `y`.
pub open spec fn days_in_year(y: int) -> int {
    if leap_year(y) {
        366
    } else {
        365
    }
}

/// The number of days of month `i` (0 for January) in a leap or common year.
pub open spec fn month_len(leap: bool, i: int) -> int {
    if i == 1 {
        if leap {
            29
        } else {
            28
        }
    } else if i == 3 || i == 5 || i == 8 || i == 10 {
        30
    } else {
        31
    }
}

/// The year, and the day within it (from 0), that lies `d` days after the start of year `y`.
pub open spec fn year_and_day(y: int, d: nat) -> (int, nat)
    decreases d,
{
    if d < days_in_year(y) {
        (y, d)
    } else {
        year_and_day(y + 1, (d - days_in_year(y)) as nat)
    }
}

/// The month (from 1) and the day within it (from 0) of day `d` of a year,
/// counting from month `i` (0 for January).
pub open spec fn month_and_day(leap: bool, i: nat, d: nat) -> (nat, nat)
    decreases 12 - i,
{
    if i >= 12 || d < month_len(leap, i as int) {
        (i + 1, d)
    } else {
        month_and_day(leap, i + 1, (d - month_len(leap, i as int)) as nat)
    }
}

/// A UTC date and time of day.
pub struct Civil {
    pub year: nat,
    pub month: nat,
    pub day: nat,
    pub hour: nat,
    pub minute: nat,
    pub second: nat,
}

/// The UTC date and time `secs` seconds after 1970-01-01 00:00:00.
pub open spec fn civil(secs: nat) -> Civil {
    let days = secs / 86400;
    let tod = secs % 86400;
    let (y, d) = year_and_day(1970, days);
    let (mo, dm) = month_and_day(leap_year(y), 0, d);
    Civil {
        year: y as nat,
        month: mo,
        day: dm + 1,
        hour: tod / 3600,
        minute: (tod % 3600) / 60,
        second: tod % 60,
    }
}

/// The date as `DD.MM.YYYY HH:MM:SS UTC`.
pub open spec fn dotted(c: Civil) -> Seq<char> {
    zero_pad(dec(c.day), 2) + seq!['.'] + zero_pad(dec(c.month), 2) + seq!['.'] + dec(c.year)
        + seq![' '] + zero_pad(dec(c.hour), 2) + seq![':'] + zero_pad(dec(c.minute), 2) + seq![':']
        + zero_pad(dec(c.second), 2) + seq![' ', 'U', 'T', 'C']
}

/// The date as ISO 8601, `YYYY-MM-DDTHH:MM:SSZ`.
pub open spec fn iso(c: Civil) -> Seq<char> {
    zero_pad(dec(c.year), 4) + seq!['-'] + zero_pad(dec(c.month), 2) + seq!['-'] + zero_pad(
        dec(c.day),
        2,
    ) + seq!['T'] + zero_pad(dec(c.hour), 2) + seq![':'] + zero_pad(dec(c.minute), 2) + seq![':']
        + zero_pad(dec(c.second), 2) + seq!['Z']
}

/// Whether `y` is a leap year.
pub fn is_leap(y: u64) -> (r: bool)
    ensures
        r == leap_year(y as int),
{
    (y % 4 == 0 && y % 100 != 0) || y % 400 == 0
}

fn month_length(leap: bool, i: u64) -> (r: u64)
    ensures
        r == month_len(leap, i as int),
{
    if i == 1 {
        if leap {
            29
        } else {
            28
        }
    } else if i == 3 || i == 5 || i == 8 || i == 10 {
        30
    } else {
        31
    }
}

/// The fields of `civil(secs)`, computed.
fn civil_fields(secs: u64) -> (r: (u64, u64, u64, u64, u64, u64))
    ensures
        r.0 == civil(secs as nat).year,
        r.1 == civil(secs as nat).month,
        r.2 == civil(secs as nat).day,
        r.3 == civil(secs as nat).hour,
        r.4 == civil(secs as nat).minute,
        r.5 == civil(secs as nat).second,
{
    let days = secs / 86400;
    let tod = secs % 86400;
    let h = tod / 3600;
    let m = (tod % 3600) / 60;
    let s = tod % 60;
    let mut y: u64 = 1970;
    let mut d: u64 = days;
    loop
        invariant
            days == secs / 86400,
            days <= u64::MAX / 86400,
            1970 <= y,
            d <= days,
            (y - 1970) * 365 <= days - d,
            year_and_day(1970, days as nat) == year_and_day(y as int, d as nat),
        ensures
            year_and_day(1970, days as nat) == (y as int, d as nat),
            d <= days,
        decreases d,
    {
        let diy: u64 = if is_leap(y) {
            366
        } else {
            365
        };
        if d < diy {
            break;
        }
        d = d - diy;
        y = y + 1;
    }
    let leap = is_leap(y);
    let ghost d0 = d as nat;
    let mut mo: u64 = 1;
    let mut i: u64 = 0;
    while i < 12
        invariant
            i <= 12,
            mo == i + 1,
            d <= d0,
            d0 <= days,
            days <= u64::MAX / 86400,
            month_and_day(leap, 0, d0) == month_and_day(leap, i as nat, d as nat),
        ensures
            month_and_day(leap, 0, d0) == (mo as nat, d as nat),
            d <= d0,
        decreases 12 - i,
    {
        let dim = month_length(leap, i);
        if d < dim {
            break;
        }
        d = d - dim;
        mo = mo + 1;
        i = i + 1;
    }
    (y, mo, d + 1, h, m, s)
}

/// The UTC time `secs` seconds after the epoch as `DD.MM.YYYY HH:MM:SS UTC`.
pub fn time_from_secs(secs: u64) -> (r: String)
    ensures
        r@ == dotted(civil(secs as nat)),
{
    let (y, mo, day, h, m, s) = civil_fields(secs);
    let mut v = decimal_padded(day, 2);
    v.push('.');
    append(&mut v, &decimal_padded(mo, 2));
    v.push('.');
    append(&mut v, &decimal(y));
    v.push(' ');
    append(&mut v, &decimal_padded(h, 2));
    v.push(':');
    append(&mut v, &decimal_padded(m, 2));
    v.push(':');
    append(&mut v, &decimal_padded(s, 2));
    v.push(' ');
    v.push('U');
    v.push('T');
    v.push('C');
    let ghost c = civil(secs as nat);
    assert(v@ =~= dotted(c));
    string_of(&v)
}

/// The UTC time `secs_since_epoch` seconds after the epoch in ISO 8601 (`YYYY-MM-DDTHH:MM:SSZ`).
pub fn iso_8601(secs_since_epoch: u64) -> (r: String)
    ensures
        r@ == iso(civil(secs_since_epoch as nat)),
{
    let (y, mo, day, h, m, s) = civil_fields(secs_since_epoch);
    let mut v = decimal_padded(y, 4);
    v.push('-');
    append(&mut v, &decimal_padded(mo, 2));
    v.push('-');
    append(&mut v, &decimal_padded(day, 2));
    v.push('T');
    append(&mut v, &decimal_padded(h, 2));
    v.push(':');
    append(&mut v, &decimal_padded(m, 2));
    v.push(':');
    append(&mut v, &decimal_padded(s, 2));
    v.push('Z');
    let ghost c = civil(secs_since_epoch as nat);
    assert(v@ =~= iso(c));
    string_of(&v)
}


/// The number of days from 1970-01-01 to the first day of year `y`.
pub open spec fn days_before_year(y: int) -> int
    decreases y - 1970,
{
    if y <= 1970 {
        0
    } else {
        days_before_year(y - 1) + days_in_year(y - 1)
    }
}

/// The number of days of a year before the first day of month `i` (0 for January).
pub open spec fn days_before_month(leap: bool, i: int) -> int
    decreases i,
{
    if i <= 0 {
        0
    } else {
        days_before_month(leap, i - 1) + month_len(leap, i - 1)
    }
}

/// The number of days from 1970-01-01 to the date of `c`.
pub open spec fn day_number(c: Civil) -> int {
    days_before_year(c.year as int) + days_before_month(leap_year(c.year as int), c.month - 1)
        + c.day - 1
}

proof fn lemma_year_and_day(y: int, d: nat)
    requires
        y >= 1970,
    ensures
        year_and_day(y, d).0 >= y,
        year_and_day(y, d).1 < days_in_year(year_and_day(y, d).0),
        days_before_year(year_and_day(y, d).0) + year_and_day(y, d).1 == days_before_year(y) + d,
    decreases d,
{
    if d >= days_in_year(y) {
        lemma_year_and_day(y + 1, (d - days_in_year(y)) as nat);
    }
}

proof fn lemma_year_length(leap: bool)
    ensures
        days_before_month(leap, 12) == if leap {
            366int
        } else {
            365int
        },
{
    reveal_with_fuel(days_before_month, 13);
}

proof fn lemma_month_and_day(leap: bool, i: nat, d: nat)
    requires
        i <= 12,
        days_before_month(leap, i as int) + d < days_before_month(leap, 12),
    ensures
        i + 1 <= month_and_day(leap, i, d).0 <= 12,
        month_and_day(leap, i, d).1 < month_len(leap, month_and_day(leap, i, d).0 - 1),
        days_before_month(leap, month_and_day(leap, i, d).0 - 1) + month_and_day(leap, i, d).1
            == days_before_month(leap, i as int) + d,
    decreases 12 - i,
{
    if i >= 12 {
    } else if d < month_len(leap, i as int) {
    } else {
        lemma_month_and_day(leap, i + 1, (d - month_len(leap, i as int)) as nat);
    }
}

/// The date and time that `civil` gives are a valid calendar date and time of
/// day, and they denote exactly `secs`: counting the days before that date
/// from 1970-01-01 and adding the time of day gives back `secs`.
pub proof fn lemma_civil_correct(secs: nat)
    ensures
        civil(secs).year >= 1970,
        1 <= civil(secs).month <= 12,
        1 <= civil(secs).day <= month_len(
            leap_year(civil(secs).year as int),
            civil(secs).month - 1,
        ),
        civil(secs).hour < 24,
        civil(secs).minute < 60,
        civil(secs).second < 60,
        secs == 86400 * day_number(civil(secs)) + 3600 * civil(secs).hour + 60 * civil(
            secs,
        ).minute + civil(secs).second,
{
    let days = secs / 86400;
    let tod = secs % 86400;
    lemma_year_and_day(1970, days);
    let (y, d) = year_and_day(1970, days);
    let leap = leap_year(y);
    lemma_year_length(leap);
    assert(days_before_month(leap, 0) == 0);
    lemma_month_and_day(leap, 0, d);
    assert(tod == 3600 * (tod / 3600) + 60 * ((tod % 3600) / 60) + tod % 60);
}


proof fn lemma_days_before_year_grows(y0: int, y: int)
    requires
        1970 <= y0 <= y,
    ensures
        days_before_year(y) >= days_before_year(y0) + 365 * (y - y0),
    decreases y - y0,
{
    if y > y0 {
        lemma_days_before_year_grows(y0, y - 1);
    }
}

proof fn lemma_year_inverse(y0: int, y: int, r: nat)
    requires
        1970 <= y0 <= y,
        r < days_in_year(y),
    ensures
        year_and_day(y0, (days_before_year(y) - days_before_year(y0) + r) as nat) == (y, r),
    decreases y - y0,
{
    lemma_days_before_year_grows(y0, y);
    if y > y0 {
        lemma_days_before_year_grows(y0 + 1, y);
        assert(days_before_year(y0 + 1) == days_before_year(y0) + days_in_year(y0));
        lemma_year_inverse(y0 + 1, y, r);
    }
}

proof fn lemma_days_before_month_grows(leap: bool, i: int, j: int)
    requires
        0 <= i <= j,
    ensures
        days_before_month(leap, j) >= days_before_month(leap, i) + 28 * (j - i),
    decreases j - i,
{
    if j > i {
        lemma_days_before_month_grows(leap, i, j - 1);
    }
}

proof fn lemma_month_inverse(leap: bool, i: nat, mo: nat, r: nat)
    requires
        1 <= mo <= 12,
        i <= mo - 1,
        r < month_len(leap, mo - 1),
    ensures
        month_and_day(
            leap,
            i,
            (days_before_month(leap, mo - 1) - days_before_month(leap, i as int) + r) as nat,
        ) == (mo, r),
    decreases mo - i,
{
    lemma_days_before_month_grows(leap, i as int, mo - 1);
    if i < mo - 1 {
        lemma_days_before_month_grows(leap, i + 1 as int, mo - 1);
        assert(days_before_month(leap, (i + 1) as int) == days_before_month(leap, i as int) + month_len(
            leap,
            i as int,
        ));
        lemma_month_inverse(leap, i + 1, mo, r);
    }
}

/// Every valid UTC date and time from 1970 on is what `civil` gives for the
/// number of seconds it denotes: together with `lemma_civil_correct`, `civil`
/// and counting seconds undo each other.
pub proof fn lemma_civil_inverse(c: Civil)
    requires
        c.year >= 1970,
        1 <= c.month <= 12,
        1 <= c.day <= month_len(leap_year(c.year as int), c.month - 1),
        c.hour < 24,
        c.minute < 60,
        c.second < 60,
    ensures
        civil((86400 * day_number(c) + 3600 * c.hour + 60 * c.minute + c.second) as nat) == c,
{
    let y = c.year as int;
    let leap = leap_year(y);
    lemma_days_before_year_grows(1970, y);
    assert(days_before_year(1970) == 0);
    let dm = days_before_month(leap, c.month - 1) + c.day - 1;
    lemma_days_before_month_grows(leap, 0, c.month - 1);
    lemma_year_length(leap);
    lemma_days_before_month_grows(leap, c.month as int, 12);
    assert(days_before_month(leap, c.month as int) == days_before_month(leap, c.month - 1)
        + month_len(leap, c.month - 1));
    assert(dm < days_in_year(y));
    let d = day_number(c);
    assert(d == days_before_year(y) - days_before_year(1970) + dm);
    lemma_year_inverse(1970, y, dm as nat);
    assert(days_before_month(leap, 0) == 0);
    lemma_month_inverse(leap, 0, c.month, (c.day - 1) as nat);
    let t = 3600 * c.hour + 60 * c.minute + c.second;
    let secs = 86400 * d + t;
    assert(0 <= t < 86400);
    assert(secs / 86400 == d && secs % 86400 == t) by (nonlinear_arith)
        requires
            secs == 86400 * d + t,
            0 <= t < 86400,
            d >= 0,
    ;
    assert(t / 3600 == c.hour && (t % 3600) / 60 == c.minute && t % 60 == c.second) by (
    nonlinear_arith)
        requires
            t == 3600 * c.hour + 60 * c.minute + c.second,
            c.minute < 60,
            c.second < 60,
    ;
}

/// The calendar day after the date of `c`, at the same time of day.
pub open spec fn next_date(c: Civil) -> Civil {
    if c.day < month_len(leap_year(c.year as int), c.month - 1) {
        Civil {
            year: c.year,
            month: c.month,
            day: c.day + 1,
            hour: c.hour,
            minute: c.minute,
            second: c.second,
        }
    } else if c.month < 12 {
        Civil {
            year: c.year,
            month: c.month + 1,
            day: 1,
            hour: c.hour,
            minute: c.minute,
            second: c.second,
        }
    } else {
        Civil {
            year: c.year + 1,
            month: 1,
            day: 1,
            hour: c.hour,
            minute: c.minute,
            second: c.second,
        }
    }
}

/// One day (86400 seconds) later it is the same time of day on the next
/// calendar day: the day of the month goes up by one, or the month, or the
/// year rolls over, and February 29 comes only in leap years.
pub proof fn lemma_next_day(secs: nat)
    ensures
        civil(secs + 86400) == next_date(civil(secs)),
{
    let c = civil(secs);
    lemma_civil_correct(secs);
    let n = next_date(c);
    let leap = leap_year(c.year as int);
    if c.day < month_len(leap, c.month - 1) {
        assert(day_number(n) == day_number(c) + 1);
    } else if c.month < 12 {
        assert(days_before_month(leap, c.month as int) == days_before_month(leap, c.month - 1)
            + month_len(leap, c.month - 1));
        assert(day_number(n) == day_number(c) + 1);
    } else {
        lemma_year_length(leap);
        assert(days_before_month(leap, 12) == days_before_month(leap, 11) + month_len(leap, 11));
        assert(days_before_year(c.year + 1int) == days_before_year(c.year as int) + days_in_year(
            c.year as int,
        ));
        assert(days_before_month(leap_year(n.year as int), 0) == 0);
        assert(day_number(n) == day_number(c) + 1);
    }
    assert(month_len(leap_year(n.year as int), n.month - 1) >= 28);
    lemma_civil_inverse(n);
    assert(86400 * day_number(n) + 3600 * n.hour + 60 * n.minute + n.second == secs + 86400);
}

proof fn lemma_digit_char(d: nat)
    requires
        d < 10,
    ensures
        is_digit(digit_char(d)),
        digit_value(digit_char(d)) == d,
{
}

proof fn lemma_dec(n: nat)
    ensures
        all_digits(dec(n)),
        dec(n).len() >= 1,
        n >= 10 ==> dec(n).len() >= 2,
        n >= 100 ==> dec(n).len() >= 3,
        n >= 1000 ==> dec(n).len() >= 4,
        dec_value(dec(n)) == n,
    decreases n,
{
    if n < 10 {
        lemma_digit_char(n);
        assert(dec(n).drop_last() =~= Seq::<char>::empty());
        assert(dec(n).last() == digit_char(n));
        assert(dec_value(Seq::<char>::empty()) == 0);
    } else {
        lemma_dec(n / 10);
        lemma_digit_char(n % 10);
        let s = dec(n / 10);
        assert(dec(n).drop_last() =~= s);
        assert(dec(n).last() == digit_char(n % 10));
        assert(dec_value(dec(n)) == dec_value(s) * 10 + digit_value(digit_char(n % 10)));
        assert((n / 10) * 10 + n % 10 == n);
        assert forall|i: int| 0 <= i < dec(n).len() implies is_digit(#[trigger] dec(n)[i]) by {
            if i < s.len() {
                assert(dec(n)[i] == s[i]);
            }
        }
    }
}

proof fn lemma_leading_zero(s: Seq<char>)
    ensures
        dec_value(seq!['0'] + s) == dec_value(s),
    decreases s.len(),
{
    let z = seq!['0'] + s;
    assert(digit_value('0') == 0);
    if s.len() == 0 {
        assert(z.drop_last() =~= Seq::<char>::empty());
        assert(z.last() == '0');
        assert(dec_value(Seq::<char>::empty()) == 0);
    } else {
        lemma_leading_zero(s.drop_last());
        assert(z.drop_last() =~= seq!['0'] + s.drop_last());
        assert(z.last() == s.last());
    }
}

proof fn lemma_zero_pad(n: nat, w: nat)
    ensures
        all_digits(zero_pad(dec(n), w)),
        dec_value(zero_pad(dec(n), w)) == n,
    decreases w,
{
    lemma_dec(n);
    let s = dec(n);
    if s.len() < w {
        let k = (w - s.len()) as nat;
        let z = Seq::new(k, |i: int| '0');
        if k > 1 {
            lemma_zero_pad(n, (w - 1) as nat);
            assert(zero_pad(s, (w - 1) as nat) =~= Seq::new((k - 1) as nat, |i: int| '0') + s);
            assert(z + s =~= seq!['0'] + (Seq::new((k - 1) as nat, |i: int| '0') + s));
            lemma_leading_zero(Seq::new((k - 1) as nat, |i: int| '0') + s);
        } else {
            assert(z + s =~= seq!['0'] + s);
            lemma_leading_zero(s);
        }
        assert forall|i: int| 0 <= i < (z + s).len() implies is_digit(#[trigger] (z + s)[i]) by {
            if i >= k {
                assert((z + s)[i] == s[i - k]);
            }
        }
    }
}

/// A text made of digits, a separator that is no digit, and a rest, splits
/// in only one way.
proof fn lemma_split_at(a: Seq<char>, b: Seq<char>, x: char, r: Seq<char>, q: Seq<char>)
    requires
        all_digits(a),
        all_digits(b),
        !is_digit(x),
        a + seq![x] + r == b + seq![x] + q,
    ensures
        a == b,
        r == q,
{
    let l = a + seq![x] + r;
    let m = b + seq![x] + q;
    if a.len() < b.len() {
        assert(l[a.len() as int] == x);
        assert(m[a.len() as int] == b[a.len() as int]);
    } else if b.len() < a.len() {
        assert(m[b.len() as int] == x);
        assert(l[b.len() as int] == a[b.len() as int]);
    }
    assert(a =~= l.take(a.len() as int));
    assert(b =~= m.take(b.len() as int));
    assert(r =~= l.skip(a.len() + 1int));
    assert(q =~= m.skip(b.len() + 1int));
}

/// The ISO 8601 text of `c`, split as digits, a separator and the rest.
proof fn lemma_iso_fields(c: Civil)
    ensures
        iso(c) == zero_pad(dec(c.year), 4) + seq!['-'] + (zero_pad(dec(c.month), 2) + seq!['-'] + (
        zero_pad(dec(c.day), 2) + seq!['T'] + (zero_pad(dec(c.hour), 2) + seq![':'] + (zero_pad(
            dec(c.minute),
            2,
        ) + seq![':'] + (zero_pad(dec(c.second), 2) + seq!['Z']))))),
        all_digits(zero_pad(dec(c.year), 4)),
        all_digits(zero_pad(dec(c.month), 2)),
        all_digits(zero_pad(dec(c.day), 2)),
        all_digits(zero_pad(dec(c.hour), 2)),
        all_digits(zero_pad(dec(c.minute), 2)),
        all_digits(zero_pad(dec(c.second), 2)),
        dec_value(zero_pad(dec(c.year), 4)) == c.year,
        dec_value(zero_pad(dec(c.month), 2)) == c.month,
        dec_value(zero_pad(dec(c.day), 2)) == c.day,
        dec_value(zero_pad(dec(c.hour), 2)) == c.hour,
        dec_value(zero_pad(dec(c.minute), 2)) == c.minute,
        dec_value(zero_pad(dec(c.second), 2)) == c.second,
{
    lemma_zero_pad(c.year, 4);
    lemma_zero_pad(c.month, 2);
    lemma_zero_pad(c.day, 2);
    lemma_zero_pad(c.hour, 2);
    lemma_zero_pad(c.minute, 2);
    lemma_zero_pad(c.second, 2);
    lemma_regroup(
        zero_pad(dec(c.year), 4),
        seq!['-'],
        zero_pad(dec(c.month), 2),
        seq!['-'],
        zero_pad(dec(c.day), 2),
        seq!['T'],
        zero_pad(dec(c.hour), 2),
        seq![':'],
        zero_pad(dec(c.minute), 2),
        seq![':'],
        zero_pad(dec(c.second), 2),
        seq!['Z'],
    );
}

proof fn lemma_regroup(
    p0: Seq<char>,
    p1: Seq<char>,
    p2: Seq<char>,
    p3: Seq<char>,
    p4: Seq<char>,
    p5: Seq<char>,
    p6: Seq<char>,
    p7: Seq<char>,
    p8: Seq<char>,
    p9: Seq<char>,
    p10: Seq<char>,
    p11: Seq<char>,
)
    ensures
        p0 + p1 + p2 + p3 + p4 + p5 + p6 + p7 + p8 + p9 + p10 + p11 == p0 + p1 + (p2 + p3 + (p4 + p5
            + (p6 + p7 + (p8 + p9 + (p10 + p11))))),
{
    assert(p0 + p1 + p2 + p3 + p4 + p5 + p6 + p7 + p8 + p9 + p10 + p11 =~= p0 + p1 + (p2 + p3 + (p4
        + p5 + (p6 + p7 + (p8 + p9 + (p10 + p11))))));
}

/// The two ways the bot prints a time agree: when the ISO 8601 text of
/// `secs` reads `Y-MM-DDThh:mm:ssZ` with the digit groups `y`, `mo`, `d`,
/// `h`, `mi`, `s`, the dotted text reads `DD.MM.Y hh:mm:ss UTC` with the same
/// groups.
pub proof fn lemma_formats_agree(
    secs: nat,
    y: Seq<char>,
    mo: Seq<char>,
    d: Seq<char>,
    h: Seq<char>,
    mi: Seq<char>,
    s: Seq<char>,
)
    requires
        all_digits(y),
        all_digits(mo),
        all_digits(d),
        all_digits(h),
        all_digits(mi),
        all_digits(s),
        iso(civil(secs)) == y + seq!['-'] + mo + seq!['-'] + d + seq!['T'] + h + seq![':'] + mi + seq![
            ':',
        ] + s + seq!['Z'],
    ensures
        dotted(civil(secs)) == d + seq!['.'] + mo + seq!['.'] + y + seq![' '] + h + seq![':'] + mi
            + seq![':'] + s + seq![' ', 'U', 'T', 'C'],
{
    let c = civil(secs);
    lemma_civil_correct(secs);
    lemma_iso_fields(c);
    lemma_dec(c.year);
    let r5 = s + seq!['Z'];
    let r4 = mi + seq![':'] + r5;
    let r3 = h + seq![':'] + r4;
    let r2 = d + seq!['T'] + r3;
    let r1 = mo + seq!['-'] + r2;
    lemma_regroup(y, seq!['-'], mo, seq!['-'], d, seq!['T'], h, seq![':'], mi, seq![':'], s, seq!['Z']);
    let i5 = zero_pad(dec(c.second), 2) + seq!['Z'];
    let i4 = zero_pad(dec(c.minute), 2) + seq![':'] + i5;
    let i3 = zero_pad(dec(c.hour), 2) + seq![':'] + i4;
    let i2 = zero_pad(dec(c.day), 2) + seq!['T'] + i3;
    let i1 = zero_pad(dec(c.month), 2) + seq!['-'] + i2;
    lemma_split_at(zero_pad(dec(c.year), 4), y, '-', i1, r1);
    lemma_split_at(zero_pad(dec(c.month), 2), mo, '-', i2, r2);
    lemma_split_at(zero_pad(dec(c.day), 2), d, 'T', i3, r3);
    lemma_split_at(zero_pad(dec(c.hour), 2), h, ':', i4, r4);
    lemma_split_at(zero_pad(dec(c.minute), 2), mi, ':', i5, r5);
    assert(zero_pad(dec(c.second), 2) =~= i5.drop_last());
    assert(s =~= r5.drop_last());
    assert(zero_pad(dec(c.year), 4) == dec(c.year));
    assert(dotted(c) =~= d + seq!['.'] + mo + seq!['.'] + y + seq![' '] + h + seq![':'] + mi
        + seq![':'] + s + seq![' ', 'U', 'T', 'C']);
}

/// Different times have different ISO 8601 texts.
pub proof fn lemma_iso_injective(s1: nat, s2: nat)
    requires
        iso(civil(s1)) == iso(civil(s2)),
    ensures
        s1 == s2,
{
    let a = civil(s1);
    let b = civil(s2);
    lemma_civil_correct(s1);
    lemma_civil_correct(s2);
    lemma_iso_fields(a);
    lemma_iso_fields(b);
    let a5 = zero_pad(dec(a.second), 2) + seq!['Z'];
    let a4 = zero_pad(dec(a.minute), 2) + seq![':'] + a5;
    let a3 = zero_pad(dec(a.hour), 2) + seq![':'] + a4;
    let a2 = zero_pad(dec(a.day), 2) + seq!['T'] + a3;
    let a1 = zero_pad(dec(a.month), 2) + seq!['-'] + a2;
    let b5 = zero_pad(dec(b.second), 2) + seq!['Z'];
    let b4 = zero_pad(dec(b.minute), 2) + seq![':'] + b5;
    let b3 = zero_pad(dec(b.hour), 2) + seq![':'] + b4;
    let b2 = zero_pad(dec(b.day), 2) + seq!['T'] + b3;
    let b1 = zero_pad(dec(b.month), 2) + seq!['-'] + b2;
    lemma_split_at(zero_pad(dec(a.year), 4), zero_pad(dec(b.year), 4), '-', a1, b1);
    lemma_split_at(zero_pad(dec(a.month), 2), zero_pad(dec(b.month), 2), '-', a2, b2);
    lemma_split_at(zero_pad(dec(a.day), 2), zero_pad(dec(b.day), 2), 'T', a3, b3);
    lemma_split_at(zero_pad(dec(a.hour), 2), zero_pad(dec(b.hour), 2), ':', a4, b4);
    lemma_split_at(zero_pad(dec(a.minute), 2), zero_pad(dec(b.minute), 2), ':', a5, b5);
    assert(zero_pad(dec(a.second), 2) =~= a5.drop_last());
    assert(zero_pad(dec(b.second), 2) =~= b5.drop_last());
    assert(a == b);
}

/// `a` comes strictly before `b` in the order of dates and times: by year,
/// then month, day, hour, minute and second.
pub open spec fn civil_before(a: Civil, b: Civil) -> bool {
    a.year < b.year || (a.year == b.year && (a.month < b.month || (a.month == b.month && (a.day
        < b.day || (a.day == b.day && (a.hour < b.hour || (a.hour == b.hour && (a.minute < b.minute
        || (a.minute == b.minute && a.second < b.second)))))))))
}

/// `c` is a valid UTC date and time from 1970 on.
pub open spec fn valid_civil(c: Civil) -> bool {
    &&& c.year >= 1970
    &&& 1 <= c.month <= 12
    &&& 1 <= c.day <= month_len(leap_year(c.year as int), c.month - 1)
    &&& c.hour < 24
    &&& c.minute < 60
    &&& c.second < 60
}

/// The number of seconds from 1970-01-01 00:00:00 to `c`.
pub open spec fn seconds_of(c: Civil) -> int {
    86400 * day_number(c) + 3600 * c.hour + 60 * c.minute + c.second
}

proof fn lemma_day_within_year(c: Civil)
    requires
        valid_civil(c),
    ensures
        0 <= days_before_month(leap_year(c.year as int), c.month - 1) + c.day - 1 < days_in_year(
            c.year as int,
        ),
{
    let leap = leap_year(c.year as int);
    lemma_days_before_month_grows(leap, 0, c.month - 1);
    lemma_days_before_month_grows(leap, c.month as int, 12);
    lemma_year_length(leap);
    assert(days_before_month(leap, c.month as int) == days_before_month(leap, c.month - 1)
        + month_len(leap, c.month - 1));
}

proof fn lemma_seconds_before(a: Civil, b: Civil)
    requires
        valid_civil(a),
        valid_civil(b),
        civil_before(a, b),
    ensures
        seconds_of(a) < seconds_of(b),
{
    lemma_day_within_year(a);
    lemma_day_within_year(b);
    let la = leap_year(a.year as int);
    if a.year < b.year {
        lemma_days_before_year_grows(a.year + 1int, b.year as int);
        assert(days_before_year(a.year + 1int) == days_before_year(a.year as int) + days_in_year(
            a.year as int,
        ));
        assert(day_number(a) < day_number(b));
    } else if a.month < b.month {
        lemma_days_before_month_grows(la, a.month as int, b.month - 1);
        assert(days_before_month(la, a.month as int) == days_before_month(la, a.month - 1)
            + month_len(la, a.month - 1));
        assert(day_number(a) < day_number(b));
    } else if a.day < b.day {
        assert(day_number(a) < day_number(b));
    } else {
        assert(day_number(a) == day_number(b));
    }
}

/// Later instants have later dates and times: `civil` keeps the order of
/// seconds.
pub proof fn lemma_civil_monotone(s1: nat, s2: nat)
    requires
        s1 < s2,
    ensures
        civil_before(civil(s1), civil(s2)),
{
    let a = civil(s1);
    let b = civil(s2);
    lemma_civil_correct(s1);
    lemma_civil_correct(s2);
    if !civil_before(a, b) {
        if a == b {
        } else {
            assert(civil_before(b, a));
            lemma_seconds_before(b, a);
        }
    }
}

proof fn lemma_days_before_year_closed(y: int)
    requires
        y >= 1970,
    ensures
        days_before_year(y) == 365 * (y - 1970) + ((y - 1) / 4 - (y - 1) / 100 + (y - 1) / 400) - 477,
    decreases y - 1970,
{
    if y > 1970 {
        lemma_days_before_year_closed(y - 1);
        let x = y - 1;
        assert((x / 4 - (x - 1) / 4) == if x % 4 == 0 { 1int } else { 0int });
        assert((x / 100 - (x - 1) / 100) == if x % 100 == 0 { 1int } else { 0int });
        assert((x / 400 - (x - 1) / 400) == if x % 400 == 0 { 1int } else { 0int });
    }
}

/// Up to 9999-12-31 23:59:59 (253402300799 seconds) the year has four digits.
proof fn lemma_year_bound(secs: nat)
    requires
        secs <= 253402300799,
    ensures
        civil(secs).year <= 9999,
{
    let c = civil(secs);
    lemma_civil_correct(secs);
    if c.year >= 10000 {
        lemma_days_before_year_grows(10000, c.year as int);
        lemma_days_before_year_closed(10000);
        lemma_day_within_year(c);
        assert(day_number(c) >= 2932897);
    }
}

/// `a` comes before `b` character by character: at the first place where
/// they differ, `a` has the smaller character (for ASCII texts, the order of
/// their bytes).
pub open spec fn text_before(a: Seq<char>, b: Seq<char>) -> bool {
    exists|i: int|
        0 <= i < a.len() && i < b.len() && #[trigger] a.take(i) == b.take(i) && a[i] < b[i]
}

proof fn lemma_dec_short(n: nat)
    ensures
        n < 10 ==> dec(n).len() == 1,
        n < 100 ==> dec(n).len() <= 2,
        n < 1000 ==> dec(n).len() <= 3,
        n < 10000 ==> dec(n).len() <= 4,
    decreases n,
{
    if n >= 10 {
        lemma_dec_short(n / 10);
    }
}

proof fn lemma_digits_equal(a: Seq<char>, b: Seq<char>)
    requires
        all_digits(a),
        all_digits(b),
        a.len() == b.len(),
        dec_value(a) == dec_value(b),
    ensures
        a == b,
    decreases a.len(),
{
    if a.len() > 0 {
        let x = a.last();
        let y = b.last();
        assert(is_digit(a[a.len() - 1]) && is_digit(b[b.len() - 1]));
        assert(digit_value(x) < 10 && digit_value(y) < 10);
        assert(digit_value(x) == digit_value(y) && dec_value(a.drop_last()) == dec_value(
            b.drop_last(),
        )) by (nonlinear_arith)
            requires
                dec_value(a.drop_last()) * 10 + digit_value(x) == dec_value(b.drop_last()) * 10
                    + digit_value(y),
                digit_value(x) < 10,
                digit_value(y) < 10,
        ;
        assert forall|i: int| 0 <= i < a.drop_last().len() implies is_digit(
            #[trigger] a.drop_last()[i],
        ) by {
            assert(a.drop_last()[i] == a[i]);
        }
        assert forall|i: int| 0 <= i < b.drop_last().len() implies is_digit(
            #[trigger] b.drop_last()[i],
        ) by {
            assert(b.drop_last()[i] == b[i]);
        }
        lemma_digits_equal(a.drop_last(), b.drop_last());
        assert(a =~= a.drop_last().push(x));
        assert(b =~= b.drop_last().push(y));
    }
}

/// Digit texts of one length compare as the numbers they denote.
proof fn lemma_digits_before(a: Seq<char>, b: Seq<char>)
    requires
        all_digits(a),
        all_digits(b),
        a.len() == b.len(),
        dec_value(a) < dec_value(b),
    ensures
        text_before(a, b),
    decreases a.len(),
{
    let n = a.len();
    if n == 0 {
    } else {
        let a0 = a.drop_last();
        let b0 = b.drop_last();
        let x = a.last();
        let y = b.last();
        assert(is_digit(a[n - 1]) && is_digit(b[n - 1]));
        assert forall|i: int| 0 <= i < a0.len() implies is_digit(#[trigger] a0[i]) by {
            assert(a0[i] == a[i]);
        }
        assert forall|i: int| 0 <= i < b0.len() implies is_digit(#[trigger] b0[i]) by {
            assert(b0[i] == b[i]);
        }
        assert(digit_value(x) < 10 && digit_value(y) < 10);
        if dec_value(a0) < dec_value(b0) {
            lemma_digits_before(a0, b0);
            let i = choose|i: int|
                0 <= i < a0.len() && i < b0.len() && #[trigger] a0.take(i) == b0.take(i) && a0[i]
                    < b0[i];
            assert(a.take(i) =~= a0.take(i));
            assert(b.take(i) =~= b0.take(i));
            assert(a[i] == a0[i] && b[i] == b0[i]);
        } else if dec_value(a0) == dec_value(b0) {
            lemma_digits_equal(a0, b0);
            assert(a.take(n - 1) =~= a0);
            assert(b.take(n - 1) =~= b0);
            assert(a.take(n - 1) == b.take(n - 1));
            assert(x < y);
        } else {
            assert(dec_value(a0) * 10 + digit_value(x) >= dec_value(b0) * 10 + digit_value(y))
                by (nonlinear_arith)
                requires
                    dec_value(a0) > dec_value(b0),
                    digit_value(y) < 10,
            ;
        }
    }
}

/// A common beginning and different rests of the same length keep the order
/// of the rests' first differing place.
proof fn lemma_before_after(p: Seq<char>, x: Seq<char>, y: Seq<char>, rx: Seq<char>, ry: Seq<char>)
    requires
        x.len() == y.len(),
        text_before(x, y),
    ensures
        text_before(p + x + rx, p + y + ry),
{
    let i = choose|i: int|
        0 <= i < x.len() && i < y.len() && #[trigger] x.take(i) == y.take(i) && x[i] < y[i];
    let j = p.len() + i;
    let l = p + x + rx;
    let m = p + y + ry;
    assert(l.take(j) =~= p + x.take(i));
    assert(m.take(j) =~= p + y.take(i));
    assert(l[j] == x[i] && m[j] == y[i]);
    assert(l.take(j) == m.take(j));
}

proof fn lemma_regroup_at(
    p0: Seq<char>,
    p1: Seq<char>,
    p2: Seq<char>,
    p3: Seq<char>,
    p4: Seq<char>,
    p5: Seq<char>,
    p6: Seq<char>,
    p7: Seq<char>,
    p8: Seq<char>,
    p9: Seq<char>,
    p10: Seq<char>,
    p11: Seq<char>,
)
    ensures
        ({
            let f = p0 + p1 + p2 + p3 + p4 + p5 + p6 + p7 + p8 + p9 + p10 + p11;
            &&& f == Seq::<char>::empty() + p0 + (p1 + p2 + p3 + p4 + p5 + p6 + p7 + p8 + p9 + p10
                + p11)
            &&& f == (p0 + p1) + p2 + (p3 + p4 + p5 + p6 + p7 + p8 + p9 + p10 + p11)
            &&& f == (p0 + p1 + p2 + p3) + p4 + (p5 + p6 + p7 + p8 + p9 + p10 + p11)
            &&& f == (p0 + p1 + p2 + p3 + p4 + p5) + p6 + (p7 + p8 + p9 + p10 + p11)
            &&& f == (p0 + p1 + p2 + p3 + p4 + p5 + p6 + p7) + p8 + (p9 + p10 + p11)
            &&& f == (p0 + p1 + p2 + p3 + p4 + p5 + p6 + p7 + p8 + p9) + p10 + p11
        }),
{
    let f = p0 + p1 + p2 + p3 + p4 + p5 + p6 + p7 + p8 + p9 + p10 + p11;
    assert(f =~= Seq::<char>::empty() + p0 + (p1 + p2 + p3 + p4 + p5 + p6 + p7 + p8 + p9 + p10
        + p11));
    assert(f =~= (p0 + p1) + p2 + (p3 + p4 + p5 + p6 + p7 + p8 + p9 + p10 + p11));
    assert(f =~= (p0 + p1 + p2 + p3) + p4 + (p5 + p6 + p7 + p8 + p9 + p10 + p11));
    assert(f =~= (p0 + p1 + p2 + p3 + p4 + p5) + p6 + (p7 + p8 + p9 + p10 + p11));
    assert(f =~= (p0 + p1 + p2 + p3 + p4 + p5 + p6 + p7) + p8 + (p9 + p10 + p11));
    assert(f =~= (p0 + p1 + p2 + p3 + p4 + p5 + p6 + p7 + p8 + p9) + p10 + p11);
}

proof fn lemma_field_before(m: nat, n: nat, w: nat)
    requires
        m < n,
        dec(n).len() <= w,
    ensures
        zero_pad(dec(m), w).len() == w,
        zero_pad(dec(n), w).len() == w,
        text_before(zero_pad(dec(m), w), zero_pad(dec(n), w)),
{
    lemma_zero_pad(m, w);
    lemma_zero_pad(n, w);
    lemma_dec_short(m);
    lemma_dec_short(n);
    assert(dec(m).len() <= dec(n).len()) by {
        lemma_dec_len_monotone(m, n);
    }
    lemma_digits_before(zero_pad(dec(m), w), zero_pad(dec(n), w));
}

proof fn lemma_dec_len_monotone(m: nat, n: nat)
    requires
        m <= n,
    ensures
        dec(m).len() <= dec(n).len(),
    decreases n,
{
    if m >= 10 {
        lemma_dec_len_monotone(m / 10, n / 10);
    }
}

/// Up to the end of the year 9999, a later instant has an ISO 8601 text that
/// comes later character by character, and every such text has 20
/// characters.
pub proof fn lemma_iso_monotone(s1: nat, s2: nat)
    requires
        s1 < s2,
        s2 <= 253402300799,
    ensures
        iso(civil(s1)).len() == 20,
        iso(civil(s2)).len() == 20,
        text_before(iso(civil(s1)), iso(civil(s2))),
{
    let a = civil(s1);
    let b = civil(s2);
    lemma_civil_correct(s1);
    lemma_civil_correct(s2);
    lemma_civil_monotone(s1, s2);
    lemma_year_bound(s2);
    lemma_year_bound(s1);
    lemma_dec(a.year);
    lemma_dec(b.year);
    lemma_dec_short(a.year);
    lemma_dec_short(b.year);
    lemma_dec_short(a.month);
    lemma_dec_short(b.month);
    lemma_dec_short(a.day);
    lemma_dec_short(b.day);
    lemma_dec_short(a.hour);
    lemma_dec_short(b.hour);
    lemma_dec_short(a.minute);
    lemma_dec_short(b.minute);
    lemma_dec_short(a.second);
    lemma_dec_short(b.second);
    assert(a.day <= 31 && b.day <= 31);
    lemma_regroup_at(
        zero_pad(dec(a.year), 4),
        seq!['-'],
        zero_pad(dec(a.month), 2),
        seq!['-'],
        zero_pad(dec(a.day), 2),
        seq!['T'],
        zero_pad(dec(a.hour), 2),
        seq![':'],
        zero_pad(dec(a.minute), 2),
        seq![':'],
        zero_pad(dec(a.second), 2),
        seq!['Z'],
    );
    lemma_regroup_at(
        zero_pad(dec(b.year), 4),
        seq!['-'],
        zero_pad(dec(b.month), 2),
        seq!['-'],
        zero_pad(dec(b.day), 2),
        seq!['T'],
        zero_pad(dec(b.hour), 2),
        seq![':'],
        zero_pad(dec(b.minute), 2),
        seq![':'],
        zero_pad(dec(b.second), 2),
        seq!['Z'],
    );
    if a.year < b.year {
        lemma_field_before(a.year, b.year, 4);
        lemma_before_after(
            Seq::<char>::empty(),
            zero_pad(dec(a.year), 4),
            zero_pad(dec(b.year), 4),
            seq!['-'] + zero_pad(dec(a.month), 2) + seq!['-'] + zero_pad(dec(a.day), 2) + seq!['T']
                + zero_pad(dec(a.hour), 2) + seq![':'] + zero_pad(dec(a.minute), 2) + seq![':']
                + zero_pad(dec(a.second), 2) + seq!['Z'],
            seq!['-'] + zero_pad(dec(b.month), 2) + seq!['-'] + zero_pad(dec(b.day), 2) + seq!['T']
                + zero_pad(dec(b.hour), 2) + seq![':'] + zero_pad(dec(b.minute), 2) + seq![':']
                + zero_pad(dec(b.second), 2) + seq!['Z'],
        );
    } else if a.month < b.month {
        lemma_field_before(a.month, b.month, 2);
        lemma_before_after(
            zero_pad(dec(a.year), 4) + seq!['-'],
            zero_pad(dec(a.month), 2),
            zero_pad(dec(b.month), 2),
            seq!['-'] + zero_pad(dec(a.day), 2) + seq!['T'] + zero_pad(dec(a.hour), 2) + seq![':']
                + zero_pad(dec(a.minute), 2) + seq![':'] + zero_pad(dec(a.second), 2) + seq!['Z'],
            seq!['-'] + zero_pad(dec(b.day), 2) + seq!['T'] + zero_pad(dec(b.hour), 2) + seq![':']
                + zero_pad(dec(b.minute), 2) + seq![':'] + zero_pad(dec(b.second), 2) + seq!['Z'],
        );
    } else if a.day < b.day {
        lemma_field_before(a.day, b.day, 2);
        lemma_before_after(
            zero_pad(dec(a.year), 4) + seq!['-'] + zero_pad(dec(a.month), 2) + seq!['-'],
            zero_pad(dec(a.day), 2),
            zero_pad(dec(b.day), 2),
            seq!['T'] + zero_pad(dec(a.hour), 2) + seq![':'] + zero_pad(dec(a.minute), 2) + seq![
                ':',
            ] + zero_pad(dec(a.second), 2) + seq!['Z'],
            seq!['T'] + zero_pad(dec(b.hour), 2) + seq![':'] + zero_pad(dec(b.minute), 2) + seq![
                ':',
            ] + zero_pad(dec(b.second), 2) + seq!['Z'],
        );
    } else if a.hour < b.hour {
        lemma_field_before(a.hour, b.hour, 2);
        lemma_before_after(
            zero_pad(dec(a.year), 4) + seq!['-'] + zero_pad(dec(a.month), 2) + seq!['-'] + zero_pad(
                dec(a.day),
                2,
            ) + seq!['T'],
            zero_pad(dec(a.hour), 2),
            zero_pad(dec(b.hour), 2),
            seq![':'] + zero_pad(dec(a.minute), 2) + seq![':'] + zero_pad(dec(a.second), 2) + seq![
                'Z',
            ],
            seq![':'] + zero_pad(dec(b.minute), 2) + seq![':'] + zero_pad(dec(b.second), 2) + seq![
                'Z',
            ],
        );
    } else if a.minute < b.minute {
        lemma_field_before(a.minute, b.minute, 2);
        lemma_before_after(
            zero_pad(dec(a.year), 4) + seq!['-'] + zero_pad(dec(a.month), 2) + seq!['-'] + zero_pad(
                dec(a.day),
                2,
            ) + seq!['T'] + zero_pad(dec(a.hour), 2) + seq![':'],
            zero_pad(dec(a.minute), 2),
            zero_pad(dec(b.minute), 2),
            seq![':'] + zero_pad(dec(a.second), 2) + seq!['Z'],
            seq![':'] + zero_pad(dec(b.second), 2) + seq!['Z'],
        );
    } else {
        lemma_field_before(a.second, b.second, 2);
        lemma_before_after(
            zero_pad(dec(a.year), 4) + seq!['-'] + zero_pad(dec(a.month), 2) + seq!['-'] + zero_pad(
                dec(a.day),
                2,
            ) + seq!['T'] + zero_pad(dec(a.hour), 2) + seq![':'] + zero_pad(dec(a.minute), 2)
                + seq![':'],
            zero_pad(dec(a.second), 2),
            zero_pad(dec(b.second), 2),
            seq!['Z'],
            seq!['Z'],
        );
    }
}

} // verus!
