//! ISO 8601 rendering of Unix timestamps.
use vstd::prelude::*;

use crate::text::string_from_chars;

verus! {

/// Gregorian leap-year rule.
pub open spec fn is_leap(year: int) -> bool {
    (year % 4 == 0 && year % 100 != 0) || year % 400 == 0
}

/// Days in a year.
pub open spec fn days_in_year(year: int) -> int {
    if is_leap(year) { 366 } else { 365 }
}

/// Days in month `m` (1-based) of a leap or common year.
pub open spec fn days_in_month(m: int, leap: bool) -> int {
    if m == 2 {
        if leap { 29 } else { 28 }
    } else if m == 4 || m == 6 || m == 9 || m == 11 {
        30
    } else {
        31
    }
}

/// Year containing day `days` counted from January 1st of `year`, and the day within it.
pub open spec fn year_and_day(days: int, year: int) -> (int, int)
    decreases days,
{
    if days < 0 || days < days_in_year(year) {
        (year, days)
    } else {
        year_and_day(days - days_in_year(year), year + 1)
    }
}

/// Month (1-based) containing day `days` of the year counted from month `m`, and the
/// day within that month.
pub open spec fn month_and_day(days: int, leap: bool, m: int) -> (int, int)
    decreases 13 - m,
{
    if m > 12 || days < days_in_month(m, leap) {
        (m, days)
    } else {
        month_and_day(days - days_in_month(m, leap), leap, m + 1)
    }
}

/// Calendar date `(year, month, day)` of day number `d` since 1970-01-01.
pub open spec fn civil_from_days(d: int) -> (int, int, int) {
    let (y, rem) = year_and_day(d, 1970);
    let (m, day0) = month_and_day(rem, is_leap(y), 1);
    (y, m, day0 + 1)
}

/// Decimal digit character.
pub open spec fn digit_char(d: int) -> char {
    ((d + 48) as u8) as char
}

/// Decimal digits of `n`.
pub open spec fn decimal(n: nat) -> Seq<char>
    decreases n,
{
    if n < 10 {
        seq![digit_char(n as int)]
    } else {
        decimal(n / 10).push(digit_char((n % 10) as int))
    }
}

/// Numbers with the same decimal digits are the same number.
pub proof fn decimal_is_injective(a: nat, b: nat)
    requires
        decimal(a) == decimal(b),
    ensures
        a == b,
    decreases a,
{
    lemma_decimal_len(a);
    lemma_decimal_len(b);
    if a < 10 && b < 10 {
        assert(decimal(a)[0] == digit_char(a as int));
        assert(decimal(b)[0] == digit_char(b as int));
        assert(((a + 48) as u8) as char == ((b + 48) as u8) as char);
    } else if a >= 10 && b >= 10 {
        let da = decimal(a / 10);
        let db = decimal(b / 10);
        assert(decimal(a).last() == digit_char((a % 10) as int));
        assert(decimal(b).last() == digit_char((b % 10) as int));
        assert((((a % 10) + 48) as u8) as char == (((b % 10) + 48) as u8) as char);
        assert(a % 10 == b % 10);
        assert(decimal(a).drop_last() =~= da);
        assert(decimal(b).drop_last() =~= db);
        decimal_is_injective(a / 10, b / 10);
    }
}

proof fn lemma_decimal_len(n: nat)
    ensures
        decimal(n).len() >= 1,
        n >= 10 ==> decimal(n).len() >= 2,
    decreases n,
{
    if n >= 10 {
        lemma_decimal_len(n / 10);
    }
}

/// Decimal digits of `n`, left-padded with zeros to at least `width` characters.
pub open spec fn padded(n: nat, width: nat) -> Seq<char> {
    let d = decimal(n);
    if d.len() >= width {
        d
    } else {
        Seq::new((width - d.len()) as nat, |i: int| '0') + d
    }
}

/// `YYYY-MM-DDTHH:MM:SSZ` for a Unix time in seconds.
pub open spec fn iso8601(secs: nat) -> Seq<char> {
    let days = secs / 86400;
    let tod = secs % 86400;
    let (y, m, d) = civil_from_days(days as int);
    padded(y as nat, 4) + seq!['-'] + padded(m as nat, 2) + seq!['-'] + padded(d as nat, 2)
        + seq!['T'] + padded((tod / 3600) as nat, 2) + seq![':'] + padded(((tod % 3600) / 60) as nat, 2)
        + seq![':'] + padded((tod % 60) as nat, 2) + seq!['Z']
}

/// Gregorian leap-year rule.
#[verifier::spinoff_prover]
pub fn is_leap_year(year: i64) -> (r: bool)
    ensures
        r == is_leap(year as int),
{
    (year % 4 == 0 && year % 100 != 0) || (year % 400 == 0)
}

pub fn push_decimal(out: &mut Vec<char>, n: u64)
    ensures
        final(out)@ == old(out)@ + decimal(n as nat),
    decreases n,
{
    if n >= 10 {
        push_decimal(out, n / 10);
    }
    let d: u8 = (n % 10) as u8 + 48;
    out.push(d as char);
    proof {
        if n < 10 {
            assert(decimal(n as nat) == seq![digit_char(n as int)]);
        }
    }
}

fn push_padded(out: &mut Vec<char>, n: u64, width: usize)
    ensures
        final(out)@ == old(out)@ + padded(n as nat, width as nat),
{
    let mut digits: Vec<char> = Vec::new();
    push_decimal(&mut digits, n);
    assert(digits@ == decimal(n as nat));
    if digits.len() < width {
        let pad = width - digits.len();
        let mut i: usize = 0;
        while i < pad
            invariant
                i <= pad,
                out@ == old(out)@ + Seq::new(i as nat, |k: int| '0'),
            decreases pad - i,
        {
            out.push('0');
            assert(Seq::new((i + 1) as nat, |k: int| '0') =~= Seq::new(i as nat, |k: int| '0').push('0'));
            i = i + 1;
        }
    }
    crate::text::extend_chars(out, &digits);
    proof {
        if digits@.len() < width {
            assert(out@ =~= old(out)@ + padded(n as nat, width as nat));
        } else {
            assert(out@ =~= old(out)@ + padded(n as nat, width as nat));
        }
    }
}

/// Renders a Unix time in seconds as `YYYY-MM-DDTHH:MM:SSZ` (UTC).
pub fn time_to_iso8601(secs: u64) -> (r: String)
    ensures
        r@ == iso8601(secs as nat),
{
    let days_since_epoch = secs / 86400;
    let time_of_day = secs % 86400;
    let hours = time_of_day / 3600;
    let minutes = (time_of_day % 3600) / 60;
    let seconds = time_of_day % 60;
    let mut days: u64 = days_since_epoch;
    let mut year: u64 = 1970;
    loop
        invariant
            days <= days_since_epoch,
            days_since_epoch <= u64::MAX / 86400,
            1970 <= year,
            year - 1970 <= days_since_epoch - days,
            year_and_day(days as int, year as int) == year_and_day(days_since_epoch as int, 1970),
        ensures
            days < days_in_year(year as int),
            year_and_day(days as int, year as int) == year_and_day(days_since_epoch as int, 1970),
            1970 <= year,
            days <= days_since_epoch,
        decreases days,
    {
        let diy: u64 = if is_leap_year(year as i64) { 366 } else { 365 };
        if days < diy {
            break;
        }
        days = days - diy;
        year = year + 1;
    }
    let leap = is_leap_year(year as i64);
    let mut month: u64 = 1;
    let mut m: u64 = 1;
    let ghost y = year;
    proof {
        assert(year_and_day(days as int, year as int) == (year as int, days as int));
    }
    while m <= 12
        invariant
            1 <= m <= 13,
            month == m,
            month_and_day(days as int, leap, m as int) == month_and_day(
                year_and_day(days_since_epoch as int, 1970).1,
                is_leap(year as int),
                1,
            ),
            leap == is_leap(year as int),
            days <= days_since_epoch,
        ensures
            1 <= m <= 13,
            month == m,
            m == 13 || days < days_in_month(m as int, leap),
            month_and_day(days as int, leap, m as int) == month_and_day(
                year_and_day(days_since_epoch as int, 1970).1,
                is_leap(year as int),
                1,
            ),
            days <= days_since_epoch,
        decreases 13 - m,
    {
        let dim: u64 = if m == 2 {
            if leap { 29 } else { 28 }
        } else if m == 4 || m == 6 || m == 9 || m == 11 {
            30
        } else {
            31
        };
        if days < dim {
            break;
        }
        days = days - dim;
        month = month + 1;
        m = m + 1;
    }
    proof {
        assert(month_and_day(days as int, leap, m as int) == (m as int, days as int));
    }
    let day = days + 1;
    let mut out: Vec<char> = Vec::new();
    push_padded(&mut out, year, 4);
    out.push('-');
    push_padded(&mut out, month, 2);
    out.push('-');
    push_padded(&mut out, day, 2);
    out.push('T');
    push_padded(&mut out, hours, 2);
    out.push(':');
    push_padded(&mut out, minutes, 2);
    out.push(':');
    push_padded(&mut out, seconds, 2);
    out.push('Z');
    proof {
        assert(out@ =~= iso8601(secs as nat));
    }
    string_from_chars(&out)
}


/// Days from the start of month `m` to the end of the year.
pub open spec fn days_from_month(m: int, leap: bool) -> int
    decreases 13 - m,
{
    if m > 12 {
        0
    } else {
        days_in_month(m, leap) + days_from_month(m + 1, leap)
    }
}

proof fn lemma_year_and_day(days: int, year: int)
    requires
        days >= 0,
    ensures
        year_and_day(days, year).0 >= year,
        0 <= year_and_day(days, year).1 < days_in_year(year_and_day(days, year).0),
    decreases days,
{
    if days >= days_in_year(year) {
        lemma_year_and_day(days - days_in_year(year), year + 1);
    }
}

proof fn lemma_month_and_day(days: int, leap: bool, m: int)
    requires
        1 <= m <= 12,
        0 <= days < days_from_month(m, leap),
    ensures
        m <= month_and_day(days, leap, m).0 <= 12,
        0 <= month_and_day(days, leap, m).1 < days_in_month(month_and_day(days, leap, m).0, leap),
    decreases 13 - m,
{
    if days >= days_in_month(m, leap) {
        if m == 12 {
            assert(days_from_month(13, leap) == 0);
        } else {
            lemma_month_and_day(days - days_in_month(m, leap), leap, m + 1);
        }
    }
}

/// Every rendered timestamp names a real calendar date: a year from 1970 on, a month
/// from 1 to 12, and a day that exists in that month of that year.
pub proof fn civil_date_is_valid(d: int)
    requires
        d >= 0,
    ensures
        civil_from_days(d).0 >= 1970,
        1 <= civil_from_days(d).1 <= 12,
        1 <= civil_from_days(d).2 <= days_in_month(civil_from_days(d).1, is_leap(civil_from_days(d).0)),
{
    lemma_year_and_day(d, 1970);
    let (y, rem) = year_and_day(d, 1970);
    let leap = is_leap(y);
    assert(days_from_month(1, leap) == days_in_year(y)) by {
        reveal_with_fuel(days_from_month, 13);
    }
    lemma_month_and_day(rem, leap, 1);
}

proof fn lemma_decimal_len_below(n: nat, k: nat, bound: nat)
    requires
        1 <= k <= 4,
        bound == (if k == 1 { 10nat } else if k == 2 { 100nat } else if k == 3 { 1000nat } else { 10000nat }),
        n < bound,
    ensures
        decimal(n).len() <= k,
    decreases k,
{
    if n >= 10 {
        let b2: nat = if k == 2 { 10nat } else if k == 3 { 100nat } else { 1000nat };
        assert(k >= 2);
        lemma_decimal_len_below(n / 10, (k - 1) as nat, b2);
    }
}

proof fn lemma_padded_len(n: nat, width: nat)
    requires
        width == 2 || width == 4,
        width == 2 ==> n < 100,
        width == 4 ==> n < 10000,
    ensures
        padded(n, width).len() == width,
{
    if width == 2 {
        lemma_decimal_len_below(n, 2, 100);
    } else {
        lemma_decimal_len_below(n, 4, 10000);
    }
}

/// Leap years before year `n`, counted from year 1.
pub open spec fn leap_years_before(n: int) -> int {
    (n - 1) / 4 - (n - 1) / 100 + (n - 1) / 400
}

/// Days from January 1st of `year` to January 1st of 10000.
pub open spec fn days_to_year_10000(year: int) -> int {
    365 * (10000 - year) + leap_years_before(10000) - leap_years_before(year)
}

proof fn lemma_leap_step(y: int)
    requires
        y >= 1,
    ensures
        leap_years_before(y + 1) - leap_years_before(y) == (if is_leap(y) { 1int } else { 0int }),
{
    assert(y / 4 - (y - 1) / 4 == (if y % 4 == 0 { 1int } else { 0int }));
    assert(y / 100 - (y - 1) / 100 == (if y % 100 == 0 { 1int } else { 0int }));
    assert(y / 400 - (y - 1) / 400 == (if y % 400 == 0 { 1int } else { 0int }));
    assert(y % 400 == 0 ==> y % 100 == 0);
    assert(y % 100 == 0 ==> y % 4 == 0);
}

proof fn lemma_year_below_10000(d: int, year: int)
    requires
        1 <= year <= 10000,
        0 <= d < days_to_year_10000(year),
    ensures
        year_and_day(d, year).0 <= 9999,
    decreases d,
{
    lemma_leap_step(year);
    if d >= days_in_year(year) {
        lemma_year_below_10000(d - days_in_year(year), year + 1);
    }
}

/// Unix times below 253402300800 are those up to the end of year 9999.
pub open spec fn before_year_10000(secs: nat) -> bool {
    secs < 253402300800
}

/// A Unix time before year 10000 falls in a year up to 9999.
pub proof fn year_of_time_before_10000(secs: nat)
    requires
        before_year_10000(secs),
    ensures
        civil_from_days((secs / 86400) as int).0 <= 9999,
{
    assert(days_to_year_10000(1970) == 2932897);
    assert(secs / 86400 < 2932897);
    lemma_year_below_10000((secs / 86400) as int, 1970);
}

/// A rendered timestamp of a Unix time before year 10000 is the 20 characters
/// `YYYY-MM-DDTHH:MM:SSZ`.
pub proof fn iso_text_has_twenty_chars(secs: nat)
    requires
        before_year_10000(secs),
    ensures
        iso8601(secs).len() == 20,
{
    year_of_time_before_10000(secs);
    let days = secs / 86400;
    let tod = secs % 86400;
    civil_date_is_valid(days as int);
    let (y, m, d) = civil_from_days(days as int);
    assert(days_in_month(m, is_leap(y)) <= 31);
    lemma_padded_len(y as nat, 4);
    lemma_padded_len(m as nat, 2);
    lemma_padded_len(d as nat, 2);
    lemma_padded_len((tod / 3600) as nat, 2);
    lemma_padded_len(((tod % 3600) / 60) as nat, 2);
    lemma_padded_len((tod % 60) as nat, 2);
}

} // verus!
verus! {

/// The digit character of `n`'s `k`-th decimal place from the right.
pub open spec fn place_digit(n: nat, p: nat) -> char {
    digit_char(((n / p) % 10) as int)
}

proof fn lemma_padded2(n: nat)
    requires
        n < 100,
    ensures
        padded(n, 2) == seq![place_digit(n, 10), place_digit(n, 1)],
{
    if n < 10 {
        assert(decimal(n) == seq![digit_char(n as int)]);
        assert(n / 10 == 0);
        assert(digit_char(0) == '0');
        assert(padded(n, 2) =~= seq![place_digit(n, 10), place_digit(n, 1)]);
    } else {
        assert(decimal(n / 10) == seq![digit_char((n / 10) as int)]);
        assert((n / 10) % 10 == n / 10);
        assert(decimal(n) =~= seq![place_digit(n, 10), place_digit(n, 1)]);
    }
}

proof fn lemma_padded4(n: nat)
    requires
        n < 10000,
    ensures
        padded(n, 4) == seq![place_digit(n, 1000), place_digit(n, 100), place_digit(n, 10), place_digit(n, 1)],
{
    let target = seq![place_digit(n, 1000), place_digit(n, 100), place_digit(n, 10), place_digit(n, 1)];
    assert(digit_char(0) == '0');
    if n < 10 {
        assert(decimal(n) == seq![digit_char(n as int)]);
        assert(n / 1000 == 0 && n / 100 == 0 && n / 10 == 0);
        assert(padded(n, 4) =~= target);
    } else if n < 100 {
        lemma_padded2(n);
        assert(decimal(n / 10) == seq![digit_char((n / 10) as int)]);
        assert(decimal(n) =~= seq![place_digit(n, 10), place_digit(n, 1)]);
        assert(n / 1000 == 0 && n / 100 == 0);
        assert(padded(n, 4) =~= target);
    } else if n < 1000 {
        let q = n / 10;
        assert(decimal(q / 10) == seq![digit_char((q / 10) as int)]);
        assert(decimal(q) =~= seq![digit_char((q / 10) as int), digit_char((q % 10) as int)]);
        assert(q / 10 == n / 100) by (nonlinear_arith) requires q == n / 10;
        assert(n / 1000 == 0);
        assert((n / 100) % 10 == n / 100);
        assert(decimal(n) =~= seq![place_digit(n, 100), place_digit(n, 10), place_digit(n, 1)]);
        assert(padded(n, 4) =~= target);
    } else {
        let q = n / 10;
        let r = q / 10;
        assert(decimal(r / 10) == seq![digit_char((r / 10) as int)]);
        assert(decimal(r) =~= seq![digit_char((r / 10) as int), digit_char((r % 10) as int)]);
        assert(decimal(q) =~= seq![digit_char((r / 10) as int), digit_char((r % 10) as int), digit_char((q % 10) as int)]);
        assert(r == n / 100) by (nonlinear_arith) requires q == n / 10, r == q / 10;
        assert(r / 10 == n / 1000) by (nonlinear_arith) requires r == n / 100;
        assert((n / 1000) % 10 == n / 1000);
        assert(decimal(n) =~= target);
    }
}

/// `s` comes before `t`: they agree up to a place where `s` has the smaller character.
pub open spec fn differs_lower(s: Seq<char>, t: Seq<char>) -> bool {
    exists|i: int|
        0 <= i < s.len() && i < t.len() && s.subrange(0, i) == t.subrange(0, i) && #[trigger] s[i]
            < t[i]
}

proof fn lemma_differs_lower_text_less(s: Seq<char>, t: Seq<char>, i: int)
    requires
        0 <= i < s.len(),
        i < t.len(),
        s.subrange(0, i) == t.subrange(0, i),
        s[i] < t[i],
    ensures
        crate::text::text_less(s, t),
    decreases i,
{
    if i > 0 {
        assert(s[0] == s.subrange(0, i)[0]);
        assert(t[0] == t.subrange(0, i)[0]);
        assert(s.drop_first().subrange(0, i - 1) =~= s.subrange(0, i).drop_first());
        assert(t.drop_first().subrange(0, i - 1) =~= t.subrange(0, i).drop_first());
        lemma_differs_lower_text_less(s.drop_first(), t.drop_first(), i - 1);
    }
}

proof fn lemma_extend_right(s: Seq<char>, t: Seq<char>, u: Seq<char>, v: Seq<char>)
    requires
        differs_lower(s, t),
    ensures
        differs_lower(s + u, t + v),
{
    let i = choose|i: int|
        0 <= i < s.len() && i < t.len() && s.subrange(0, i) == t.subrange(0, i) && #[trigger] s[i]
            < t[i];
    assert((s + u).subrange(0, i) =~= s.subrange(0, i));
    assert((t + v).subrange(0, i) =~= t.subrange(0, i));
    assert((s + u)[i] == s[i] && (t + v)[i] == t[i]);
}

proof fn lemma_extend_left(p: Seq<char>, u: Seq<char>, v: Seq<char>)
    requires
        differs_lower(u, v),
    ensures
        differs_lower(p + u, p + v),
{
    let i = choose|i: int|
        0 <= i < u.len() && i < v.len() && u.subrange(0, i) == v.subrange(0, i) && #[trigger] u[i]
            < v[i];
    let j = p.len() + i;
    assert((p + u).subrange(0, j) =~= p + u.subrange(0, i));
    assert((p + v).subrange(0, j) =~= p + v.subrange(0, i));
    assert((p + u)[j] == u[i] && (p + v)[j] == v[i]);
}

proof fn lemma_digit_char_order(a: int, b: int)
    requires
        0 <= a < b <= 9,
    ensures
        digit_char(a) < digit_char(b),
{
    assert(((a + 48) as u8) as char == ((a + 48) as u8) as char);
    assert(digit_char(a) as int == a + 48);
    assert(digit_char(b) as int == b + 48);
}

proof fn lemma_padded2_lt(a: nat, b: nat)
    requires
        a < b < 100,
    ensures
        differs_lower(padded(a, 2), padded(b, 2)),
{
    lemma_padded2(a);
    lemma_padded2(b);
    let (pa, pb) = (padded(a, 2), padded(b, 2));
    if a / 10 < b / 10 {
        lemma_digit_char_order((a / 10) as int, (b / 10) as int);
        assert(pa.subrange(0, 0) =~= pb.subrange(0, 0));
        assert(pa[0] < pb[0]);
    } else {
        assert(a / 10 == b / 10);
        assert(a % 10 < b % 10);
        lemma_digit_char_order((a % 10) as int, (b % 10) as int);
        assert(pa.subrange(0, 1) =~= pb.subrange(0, 1));
        assert(pa[1] < pb[1]);
    }
}

proof fn lemma_four_places(a: nat, b: nat)
    requires
        a < b < 10000,
    ensures
        a / 1000 < b / 1000
            || (a / 1000 == b / 1000 && (a / 100) % 10 < (b / 100) % 10)
            || (a / 1000 == b / 1000 && (a / 100) % 10 == (b / 100) % 10 && (a / 10) % 10 < (b / 10) % 10)
            || (a / 1000 == b / 1000 && (a / 100) % 10 == (b / 100) % 10 && (a / 10) % 10 == (b / 10) % 10
                && a % 10 < b % 10),
{
    assert(a / 100 == (a / 1000) * 10 + (a / 100) % 10);
    assert(b / 100 == (b / 1000) * 10 + (b / 100) % 10);
    assert(a / 10 == (a / 100) * 10 + (a / 10) % 10);
    assert(b / 10 == (b / 100) * 10 + (b / 10) % 10);
    assert(a == (a / 10) * 10 + a % 10);
    assert(b == (b / 10) * 10 + b % 10);
}

proof fn lemma_padded4_lt(a: nat, b: nat)
    requires
        a < b < 10000,
    ensures
        differs_lower(padded(a, 4), padded(b, 4)),
{
    lemma_padded4(a);
    lemma_padded4(b);
    lemma_four_places(a, b);
    let (pa, pb) = (padded(a, 4), padded(b, 4));
    if a / 1000 < b / 1000 {
        lemma_digit_char_order(((a / 1000) % 10) as int, ((b / 1000) % 10) as int);
        assert(pa.subrange(0, 0) =~= pb.subrange(0, 0));
        assert(pa[0] < pb[0]);
    } else if (a / 100) % 10 < (b / 100) % 10 {
        lemma_digit_char_order(((a / 100) % 10) as int, ((b / 100) % 10) as int);
        assert(pa.subrange(0, 1) =~= pb.subrange(0, 1));
        assert(pa[1] < pb[1]);
    } else if (a / 10) % 10 < (b / 10) % 10 {
        lemma_digit_char_order(((a / 10) % 10) as int, ((b / 10) % 10) as int);
        assert(pa.subrange(0, 2) =~= pb.subrange(0, 2));
        assert(pa[2] < pb[2]);
    } else {
        lemma_digit_char_order((a % 10) as int, (b % 10) as int);
        assert(pa.subrange(0, 3) =~= pb.subrange(0, 3));
        assert(pa[3] < pb[3]);
    }
}

proof fn lemma_year_monotone(d1: int, d2: int, y: int)
    requires
        0 <= d1 < d2,
    ensures
        year_and_day(d1, y).0 < year_and_day(d2, y).0 || (year_and_day(d1, y).0 == year_and_day(d2, y).0
            && year_and_day(d1, y).1 < year_and_day(d2, y).1),
    decreases d1,
{
    let n = days_in_year(y);
    if d2 < n {
    } else if d1 < n {
        lemma_year_and_day(d2 - n, y + 1);
    } else {
        lemma_year_monotone(d1 - n, d2 - n, y + 1);
    }
}

proof fn lemma_month_monotone(r1: int, r2: int, leap: bool, m: int)
    requires
        1 <= m <= 12,
        0 <= r1 < r2 < days_from_month(m, leap),
    ensures
        month_and_day(r1, leap, m).0 < month_and_day(r2, leap, m).0 || (month_and_day(r1, leap, m).0
            == month_and_day(r2, leap, m).0 && month_and_day(r1, leap, m).1 < month_and_day(r2, leap, m).1),
    decreases 13 - m,
{
    let n = days_in_month(m, leap);
    if r2 < n {
    } else if r1 < n {
        if m == 12 {
            assert(days_from_month(13, leap) == 0);
        } else {
            lemma_month_and_day(r2 - n, leap, m + 1);
        }
    } else {
        if m == 12 {
            assert(days_from_month(13, leap) == 0);
        } else {
            lemma_month_monotone(r1 - n, r2 - n, leap, m + 1);
        }
    }
}

/// A date as a triple compared place by place.
pub open spec fn date_before(a: (int, int, int), b: (int, int, int)) -> bool {
    a.0 < b.0 || (a.0 == b.0 && (a.1 < b.1 || (a.1 == b.1 && a.2 < b.2)))
}

proof fn lemma_civil_monotone(d1: int, d2: int)
    requires
        0 <= d1 < d2,
    ensures
        date_before(civil_from_days(d1), civil_from_days(d2)),
{
    lemma_year_monotone(d1, d2, 1970);
    lemma_year_and_day(d1, 1970);
    lemma_year_and_day(d2, 1970);
    let (y1, r1) = year_and_day(d1, 1970);
    let (y2, r2) = year_and_day(d2, 1970);
    if y1 == y2 {
        let leap = is_leap(y1);
        assert(days_from_month(1, leap) == days_in_year(y1)) by {
            reveal_with_fuel(days_from_month, 13);
        }
        lemma_month_monotone(r1, r2, leap, 1);
    }
}

proof fn lemma_year_not_decreasing(d1: int, d2: int)
    requires
        0 <= d1 <= d2,
    ensures
        civil_from_days(d1).0 <= civil_from_days(d2).0,
{
    if d1 < d2 {
        lemma_civil_monotone(d1, d2);
    }
}

proof fn lemma_clock_order(t1: nat, t2: nat)
    requires
        t1 < t2 < 86400,
    ensures
        date_before(
            ((t1 / 3600) as int, ((t1 % 3600) / 60) as int, (t1 % 60) as int),
            ((t2 / 3600) as int, ((t2 % 3600) / 60) as int, (t2 % 60) as int),
        ),
{
    assert(t1 == (t1 / 3600) * 3600 + ((t1 % 3600) / 60) * 60 + t1 % 60);
    assert(t2 == (t2 / 3600) * 3600 + ((t2 % 3600) / 60) * 60 + t2 % 60);
}

/// The six numeric fields a timestamp is written with.
pub type TimeFields = (nat, nat, nat, nat, nat, nat);

/// The fields of a Unix time: year, month, day, hour, minute, second.
pub open spec fn time_fields(secs: nat) -> TimeFields {
    let days = secs / 86400;
    let tod = secs % 86400;
    let (y, m, d) = civil_from_days(days as int);
    (y as nat, m as nat, d as nat, (tod / 3600) as nat, ((tod % 3600) / 60) as nat, (tod % 60) as nat)
}

/// Field `k` of a timestamp, padded as it is written.
pub open spec fn field_text(f: TimeFields, k: int) -> Seq<char> {
    if k == 0 {
        padded(f.0, 4)
    } else if k == 1 {
        padded(f.1, 2)
    } else if k == 2 {
        padded(f.2, 2)
    } else if k == 3 {
        padded(f.3, 2)
    } else if k == 4 {
        padded(f.4, 2)
    } else {
        padded(f.5, 2)
    }
}

/// The separator written after field `k`.
pub open spec fn separator(k: int) -> Seq<char> {
    if k == 0 || k == 1 {
        seq!['-']
    } else if k == 2 {
        seq!['T']
    } else if k == 3 || k == 4 {
        seq![':']
    } else {
        seq!['Z']
    }
}

/// The text of fields `0..k`, each with its separator.
pub open spec fn fields_text(f: TimeFields, k: nat) -> Seq<char>
    decreases k,
{
    if k == 0 {
        Seq::empty()
    } else {
        fields_text(f, (k - 1) as nat) + field_text(f, k - 1) + separator(k - 1)
    }
}

/// The text of fields `k..6`, each with its separator.
pub open spec fn fields_rest(f: TimeFields, k: nat) -> Seq<char>
    decreases 6 - k,
{
    if k >= 6 {
        Seq::empty()
    } else {
        field_text(f, k as int) + separator(k as int) + fields_rest(f, k + 1)
    }
}

proof fn lemma_fields_split(f: TimeFields, k: nat)
    requires
        k <= 6,
    ensures
        fields_text(f, 6) == fields_text(f, k) + fields_rest(f, k),
    decreases 6 - k,
{
    if k < 6 {
        lemma_fields_split(f, k + 1);
        assert(fields_text(f, k + 1) + fields_rest(f, k + 1) =~= fields_text(f, k) + fields_rest(f, k));
    } else {
        assert(fields_text(f, 6) + fields_rest(f, 6) =~= fields_text(f, 6));
    }
}

proof fn lemma_iso_is_fields(secs: nat)
    ensures
        iso8601(secs) == fields_text(time_fields(secs), 6),
{
    reveal_with_fuel(fields_text, 7);
    assert(iso8601(secs) =~= fields_text(time_fields(secs), 6));
}

proof fn lemma_fields_text_equal(f: TimeFields, g: TimeFields, k: nat)
    requires
        k <= 6,
        k > 0 ==> f.0 == g.0,
        k > 1 ==> f.1 == g.1,
        k > 2 ==> f.2 == g.2,
        k > 3 ==> f.3 == g.3,
        k > 4 ==> f.4 == g.4,
        k > 5 ==> f.5 == g.5,
    ensures
        fields_text(f, k) == fields_text(g, k),
    decreases k,
{
    if k > 0 {
        lemma_fields_text_equal(f, g, (k - 1) as nat);
    }
}

proof fn lemma_field_text_lt(f: TimeFields, g: TimeFields, k: nat)
    requires
        k < 6,
        f.0 < 10000 && g.0 < 10000,
        f.1 < 100 && g.1 < 100 && f.2 < 100 && g.2 < 100,
        f.3 < 100 && g.3 < 100 && f.4 < 100 && g.4 < 100 && f.5 < 100 && g.5 < 100,
        k == 0 ==> f.0 < g.0,
        k == 1 ==> f.1 < g.1,
        k == 2 ==> f.2 < g.2,
        k == 3 ==> f.3 < g.3,
        k == 4 ==> f.4 < g.4,
        k == 5 ==> f.5 < g.5,
    ensures
        differs_lower(field_text(f, k as int), field_text(g, k as int)),
{
    if k == 0 {
        lemma_padded4_lt(f.0, g.0);
    } else if k == 1 {
        lemma_padded2_lt(f.1, g.1);
    } else if k == 2 {
        lemma_padded2_lt(f.2, g.2);
    } else if k == 3 {
        lemma_padded2_lt(f.3, g.3);
    } else if k == 4 {
        lemma_padded2_lt(f.4, g.4);
    } else {
        lemma_padded2_lt(f.5, g.5);
    }
}

#[verifier::spinoff_prover]
#[verifier::rlimit(40)]
proof fn lemma_first_difference(f: TimeFields, g: TimeFields, k: nat)
    requires
        k < 6,
        f.0 < 10000 && g.0 < 10000,
        f.1 < 100 && g.1 < 100 && f.2 < 100 && g.2 < 100,
        f.3 < 100 && g.3 < 100 && f.4 < 100 && g.4 < 100 && f.5 < 100 && g.5 < 100,
        k > 0 ==> f.0 == g.0,
        k > 1 ==> f.1 == g.1,
        k > 2 ==> f.2 == g.2,
        k > 3 ==> f.3 == g.3,
        k > 4 ==> f.4 == g.4,
        k == 0 ==> f.0 < g.0,
        k == 1 ==> f.1 < g.1,
        k == 2 ==> f.2 < g.2,
        k == 3 ==> f.3 < g.3,
        k == 4 ==> f.4 < g.4,
        k == 5 ==> f.5 < g.5,
    ensures
        differs_lower(fields_text(f, 6), fields_text(g, 6)),
{
    lemma_field_text_lt(f, g, k);
    let pre = fields_text(f, k);
    lemma_fields_text_equal(f, g, k);
    lemma_extend_left(pre, field_text(f, k as int), field_text(g, k as int));
    let rf = separator(k as int) + fields_rest(f, k + 1);
    let rg = separator(k as int) + fields_rest(g, k + 1);
    lemma_extend_right(pre + field_text(f, k as int), pre + field_text(g, k as int), rf, rg);
    lemma_fields_split(f, k);
    lemma_fields_split(g, k);
    assert(fields_text(f, k) + fields_rest(f, k) =~= (pre + field_text(f, k as int)) + rf);
    assert(fields_text(g, k) + fields_rest(g, k) =~= (pre + field_text(g, k as int)) + rg);
}

/// Rendered timestamps keep time order: of two Unix times before year 10000, the
/// earlier one's text comes first.
#[verifier::spinoff_prover]
pub proof fn iso_text_keeps_time_order(a: nat, b: nat)
    requires
        a < b,
        before_year_10000(b),
    ensures
        crate::text::text_less(iso8601(a), iso8601(b)),
{
    year_of_time_before_10000(b);
    let (da, db) = (a / 86400, b / 86400);
    let (ta, tb) = (a % 86400, b % 86400);
    assert(da <= db);
    civil_date_is_valid(da as int);
    civil_date_is_valid(db as int);
    lemma_year_not_decreasing(da as int, db as int);
    let f = time_fields(a);
    let g = time_fields(b);
    assert(days_in_month(civil_from_days(da as int).1, is_leap(civil_from_days(da as int).0)) <= 31);
    assert(days_in_month(civil_from_days(db as int).1, is_leap(civil_from_days(db as int).0)) <= 31);
    if da < db {
        lemma_civil_monotone(da as int, db as int);
        if f.0 < g.0 {
            lemma_first_difference(f, g, 0);
        } else if f.1 < g.1 {
            lemma_first_difference(f, g, 1);
        } else {
            lemma_first_difference(f, g, 2);
        }
    } else {
        assert(ta < tb);
        lemma_clock_order(ta, tb);
        if f.3 < g.3 {
            lemma_first_difference(f, g, 3);
        } else if f.4 < g.4 {
            lemma_first_difference(f, g, 4);
        } else {
            lemma_first_difference(f, g, 5);
        }
    }
    lemma_iso_is_fields(a);
    lemma_iso_is_fields(b);
    let (s, t) = (fields_text(f, 6), fields_text(g, 6));
    let i = choose|i: int|
        0 <= i < s.len() && i < t.len() && s.subrange(0, i) == t.subrange(0, i) && #[trigger] s[i]
            < t[i];
    lemma_differs_lower_text_less(s, t, i);
}

} // verus!
