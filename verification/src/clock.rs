//! Dates and times of the station's tables, from the UTC calendar.

use vstd::prelude::*;
use chrono::Datelike;
use crate::text::{
    all_digits, decimal_digits, decimal_value, digit_value, format_u64, has_suffix, is_digit,
    push_char,
};

verus! {

/// The UTC calendar date (year, month, day) of the second `secs` after the
/// Unix epoch, where the calendar reaches that far.
pub uninterp spec fn utc_date(secs: i64) -> Option<(i32, u32, u32)>;

/// The text of the UTC time `secs` seconds and `nanos` nanoseconds after the
/// Unix epoch, as the calendar writes a time (`2020-09-11 08:15:00 UTC`),
/// where the calendar reaches that far.
pub uninterp spec fn utc_text(secs: i64, nanos: u32) -> Option<Seq<char>>;

/// The UTC date of the second `secs` after the epoch.
///
/// Trusted: `chrono::DateTime::<Utc>::from_timestamp(secs, 0)`, then `year`,
/// `month` and `day`. The contract claims that the result is the calendar's
/// (named by `utc_date`), and what chrono documents of `month` and `day`: a
/// month from 1 to 12, a day from 1 to 31. Which seconds the calendar reaches
/// is left unsaid.
#[verifier::external_body]
fn civil_date(secs: i64) -> (r: Option<(i32, u32, u32)>)
    ensures
        r == utc_date(secs),
        r matches Some(date) ==> 1 <= date.1 <= 12 && 1 <= date.2 <= 31,
{
    match chrono::DateTime::from_timestamp(secs, 0) {
        Some(t) => Some((t.year(), t.month(), t.day())),
        None => None,
    }
}

/// The text of a UTC time.
///
/// Trusted: `chrono::DateTime::<Utc>::from_timestamp(secs, nanos)`, then its
/// `Display` (`to_string`). The contract claims only that the result is the
/// calendar's text (named by `utc_text`); its form is left unsaid.
#[verifier::external_body]
fn time_text(secs: i64, nanos: u32) -> (r: Option<String>)
    ensures
        match r {
            Some(s) => utc_text(secs, nanos) == Some(s@),
            None => utc_text(secs, nanos) is None,
        },
{
    match chrono::DateTime::from_timestamp(secs, nanos) {
        Some(t) => Some(t.to_string()),
        None => None,
    }
}

/// `n` in decimal, with zeros in front up to `width` digits.
pub open spec fn padded(n: nat, width: nat) -> Seq<char> {
    let d = decimal_digits(n);
    if d.len() < width {
        Seq::new((width - d.len()) as nat, |i: int| '0') + d
    } else {
        d
    }
}

/// The year as `%Y` writes it: four digits from 0 to 9999, otherwise a sign
/// and at least four digits.
pub open spec fn year_text(y: i32) -> Seq<char> {
    if 0 <= y && y <= 9999 {
        padded(y as nat, 4)
    } else if y > 9999 {
        seq!['+'] + padded(y as nat, 4)
    } else {
        seq!['-'] + padded((-(y as int)) as nat, 4)
    }
}

/// The day stamp `%Y%m%d` of a date.
pub open spec fn day_stamp(date: (i32, u32, u32)) -> Seq<char> {
    year_text(date.0) + padded(date.1 as nat, 2) + padded(date.2 as nat, 2)
}

/// The name of the table of the day of second `secs`: its day stamp and
/// `.csv`.
pub open spec fn day_table(secs: i64) -> Option<Seq<char>> {
    match utc_date(secs) {
        Some(date) => Some(day_stamp(date) + ".csv"@),
        None => None,
    }
}

/// Ten to the power `k`.
spec fn ten_pow(k: nat) -> nat
    decreases k,
{
    if k == 0 {
        1
    } else {
        10 * ten_pow((k - 1) as nat)
    }
}

proof fn lemma_value_append(a: Seq<char>, b: Seq<char>)
    ensures
        decimal_value(a + b) == decimal_value(a) * ten_pow(b.len()) + decimal_value(b),
    decreases b.len(),
{
    if b.len() == 0 {
        assert(a + b =~= a);
        assert(decimal_value(b) == 0);
        assert(ten_pow(b.len()) == 1);
        assert(decimal_value(a) * 1 == decimal_value(a));
    } else {
        let c = b.drop_last();
        lemma_value_append(a, c);
        assert((a + b).drop_last() =~= a + c);
        assert((a + b).last() == b.last());
        let x = decimal_value(a);
        let p = ten_pow(c.len());
        let y = decimal_value(c);
        let d = digit_value(b.last());
        assert(ten_pow(b.len()) == 10 * p);
        assert(decimal_value(b) == y * 10 + d);
        assert(decimal_value(a + b) == decimal_value(a + c) * 10 + d);
        assert((x * p + y) * 10 + d == x * (10 * p) + (y * 10 + d)) by (nonlinear_arith);
    }
}

proof fn lemma_zeros(k: nat)
    ensures
        all_digits(Seq::new(k, |i: int| '0')),
        decimal_value(Seq::new(k, |i: int| '0')) == 0,
    decreases k,
{
    let z = Seq::new(k, |i: int| '0');
    assert forall|i: int| 0 <= i < z.len() implies is_digit(#[trigger] z[i]) by {
        assert(z[i] == '0');
    }
    if k > 0 {
        lemma_zeros((k - 1) as nat);
        assert(z.drop_last() =~= Seq::new((k - 1) as nat, |i: int| '0'));
        assert(digit_value(z.last()) == 0);
    }
}

proof fn lemma_digits_fit(n: nat, k: nat)
    requires
        k >= 1,
        n < ten_pow(k),
    ensures
        decimal_digits(n).len() <= k,
    decreases n,
{
    if n >= 10 {
        assert(k >= 2) by {
            reveal_with_fuel(ten_pow, 2);
        }
        let p = ten_pow((k - 1) as nat);
        assert(n / 10 < p) by (nonlinear_arith)
            requires
                n < 10 * p,
        ;
        lemma_digits_fit(n / 10, (k - 1) as nat);
    }
}

proof fn lemma_padded(n: nat, w: nat)
    requires
        w >= 1,
        n < ten_pow(w),
    ensures
        padded(n, w).len() == w,
        all_digits(padded(n, w)),
        decimal_value(padded(n, w)) == n,
{
    crate::text::lemma_decimal_digits(n);
    lemma_digits_fit(n, w);
    let d = decimal_digits(n);
    if d.len() < w {
        let z = Seq::new((w - d.len()) as nat, |i: int| '0');
        lemma_zeros((w - d.len()) as nat);
        lemma_value_append(z, d);
        let p = padded(n, w);
        assert(p == z + d);
        assert forall|i: int| 0 <= i < p.len() implies is_digit(#[trigger] p[i]) by {
            if i < z.len() {
                assert(p[i] == z[i]);
            } else {
                assert(p[i] == d[i - z.len()]);
            }
        }
    }
}

/// The day stamp of a date in the years 0 to 9999 is eight digits that,
/// read as a number, are the year, month and day: `yyyymmdd`. So the stamps
/// of two such dates are equal exactly when the dates are, and they sort as
/// the dates do.
pub proof fn lemma_day_stamp_digits(date: (i32, u32, u32))
    requires
        0 <= date.0 <= 9999,
        1 <= date.1 <= 12,
        1 <= date.2 <= 31,
    ensures
        day_stamp(date).len() == 8,
        all_digits(day_stamp(date)),
        decimal_value(day_stamp(date)) == date.0 * 10000 + date.1 * 100 + date.2,
{
    assert(ten_pow(2) == 100) by {
        reveal_with_fuel(ten_pow, 3);
    }
    assert(ten_pow(4) == 10000) by {
        reveal_with_fuel(ten_pow, 5);
    }
    let y = padded(date.0 as nat, 4);
    let m = padded(date.1 as nat, 2);
    let d = padded(date.2 as nat, 2);
    lemma_padded(date.0 as nat, 4);
    lemma_padded(date.1 as nat, 2);
    lemma_padded(date.2 as nat, 2);
    assert(year_text(date.0) == y);
    lemma_value_append(y, m);
    lemma_value_append(y + m, d);
    let s = day_stamp(date);
    assert(s == (y + m) + d);
    assert forall|i: int| 0 <= i < s.len() implies is_digit(#[trigger] s[i]) by {
        if i < 4 {
            assert(s[i] == y[i]);
        } else if i < 6 {
            assert(s[i] == m[i - 4]);
        } else {
            assert(s[i] == d[i - 6]);
        }
    }
}

/// The table of a day in the years 0 to 9999 is named by eight digits that
/// write the day as `yyyymmdd`, then `.csv`.
pub proof fn lemma_day_table_name(secs: i64, date: (i32, u32, u32))
    requires
        utc_date(secs) == Some(date),
        0 <= date.0 <= 9999,
        1 <= date.1 <= 12,
        1 <= date.2 <= 31,
    ensures
        day_table(secs) matches Some(t) && t.len() == 12 && has_suffix(t, ".csv"@) && all_digits(
            t.take(8),
        ) && decimal_value(t.take(8)) == date.0 * 10000 + date.1 * 100 + date.2,
{
    reveal_strlit(".csv");
    lemma_day_stamp_digits(date);
    let t = day_stamp(date) + ".csv"@;
    assert(t.take(8) =~= day_stamp(date));
    assert(t.subrange(t.len() - 4, t.len() as int) =~= ".csv"@);
}

fn padded_text(n: u64, width: usize) -> (r: String)
    ensures
        r@ == padded(n as nat, width as nat),
{
    let d = format_u64(n);
    let len = d.unicode_len();
    let mut r = String::new();
    if len < width {
        let mut i: usize = 0;
        while i < width - len
            invariant
                i <= width - len,
                r@ == Seq::new(i as nat, |k: int| '0'),
            decreases width - len - i,
        {
            push_char(&mut r, '0');
            assert(r@ =~= Seq::new((i + 1) as nat, |k: int| '0'));
            i = i + 1;
        }
    }
    r.append(d.as_str());
    r
}

fn year_stamp(y: i32) -> (r: String)
    ensures
        r@ == year_text(y),
{
    if 0 <= y && y <= 9999 {
        padded_text(y as u64, 4)
    } else if y > 9999 {
        let mut r = String::new();
        push_char(&mut r, '+');
        r.append(padded_text(y as u64, 4).as_str());
        r
    } else {
        let a: i64 = -(y as i64);
        let mut r = String::new();
        push_char(&mut r, '-');
        r.append(padded_text(a as u64, 4).as_str());
        r
    }
}

/// The name of the table of the day of the second `secs` after the epoch,
/// `YYYYMMDD.csv`, where the calendar reaches that far.
pub fn day_table_name(secs: i64) -> (r: Option<String>)
    ensures
        opt_text(r) == day_table(secs),
{
    match civil_date(secs) {
        Some(date) => {
            let mut r = year_stamp(date.0);
            r.append(padded_text(date.1 as u64, 2).as_str());
            r.append(padded_text(date.2 as u64, 2).as_str());
            r.append(".csv");
            Some(r)
        },
        None => None,
    }
}

/// The view of an optional text.
pub open spec fn opt_text(o: Option<String>) -> Option<Seq<char>> {
    match o {
        Some(s) => Some(s@),
        None => None,
    }
}

/// The text of the UTC time `secs` seconds and `nanos` nanoseconds after the
/// epoch, where the calendar reaches that far.
pub(crate) fn stamp(secs: i64, nanos: u32) -> (r: Option<String>)
    ensures
        opt_text(r) == utc_text(secs, nanos),
{
    time_text(secs, nanos)
}

} // verus!
