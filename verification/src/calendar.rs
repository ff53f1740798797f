//! Calendar dates of day counts (proleptic Gregorian calendar, days counted
//! from 1970-01-01), as used to date policy waivers.
use vstd::prelude::*;

use crate::text::{dec, push_dec, string_of};

verus! {

/// Whether a year has a 29th of February.
pub open spec fn is_leap(y: int) -> bool {
    y % 4 == 0 && (y % 100 != 0 || y % 400 == 0)
}

/// The number of days of a month.
pub open spec fn month_length(y: int, m: int) -> int {
    if m == 2 {
        if is_leap(y) {
            29
        } else {
            28
        }
    } else if m == 4 || m == 6 || m == 9 || m == 11 {
        30
    } else {
        31
    }
}

/// The day number (days since 1970-01-01) of a date: years are counted from
/// March, so that a leap day ends its year, in eras of 400 years.
pub open spec fn days_from_civil(y: int, m: int, d: int) -> int {
    let yy = if m <= 2 {
        y - 1
    } else {
        y
    };
    let era = yy / 400;
    let yoe = yy - era * 400;
    let mp = if m > 2 {
        m - 3
    } else {
        m + 9
    };
    let doy = (153 * mp + 2) / 5 + d - 1;
    let doe = yoe * 365 + yoe / 4 - yoe / 100 + doy;
    era * 146097 + doe - 719468
}

#[verifier::spinoff_prover]
#[verifier::rlimit(60)]
proof fn lemma_year_of_era(doe: int)
    requires
        0 <= doe <= 146096,
    ensures
        ({
            let yoe = (doe - doe / 1460 + doe / 36524 - doe / 146096) / 365;
            let doy = doe - (365 * yoe + yoe / 4 - yoe / 100);
            &&& 0 <= yoe <= 399
            &&& 0 <= doy <= 365
            &&& doy == 365 ==> (yoe + 1) % 4 == 0 && ((yoe + 1) % 100 != 0 || (yoe + 1) % 400 == 0)
        }),
{
}

#[verifier::spinoff_prover]
#[verifier::rlimit(60)]
proof fn lemma_day_of_year(doy: int)
    requires
        0 <= doy <= 365,
    ensures
        ({
            let mp = (5 * doy + 2) / 153;
            let d = doy - (153 * mp + 2) / 5 + 1;
            let m = if mp < 10 {
                mp + 3
            } else {
                mp - 9
            };
            &&& 0 <= mp <= 11
            &&& 1 <= d
            &&& (m == 2 ==> d <= 28 || doy == 365)
            &&& d <= month_length(0, m) || m == 2
        }),
{
}

/// The date a day number falls on, computed by eras of 400 years and years
/// counted from March.
spec fn civil_of(days: int) -> (int, int, int) {
    let z = days + 719468;
    let era = z / 146097;
    let doe = z - era * 146097;
    let yoe = (doe - doe / 1460 + doe / 36524 - doe / 146096) / 365;
    let doy = doe - (365 * yoe + yoe / 4 - yoe / 100);
    let mp = (5 * doy + 2) / 153;
    let d = doy - (153 * mp + 2) / 5 + 1;
    let m = if mp < 10 {
        mp + 3
    } else {
        mp - 9
    };
    let y = yoe + era * 400;
    (if m <= 2 {
        y + 1
    } else {
        y
    }, m, d)
}

#[verifier::spinoff_prover]
proof fn lemma_civil_of(days: int)
    ensures
        is_date(civil_of(days).0, civil_of(days).1, civil_of(days).2),
        days_from_civil(civil_of(days).0, civil_of(days).1, civil_of(days).2) == days,
{
    let z = days + 719468;
    let era = z / 146097;
    let doe = z - era * 146097;
    assert(0 <= doe <= 146096);
    lemma_year_of_era(doe);
    let yoe = (doe - doe / 1460 + doe / 36524 - doe / 146096) / 365;
    let doy = doe - (365 * yoe + yoe / 4 - yoe / 100);
    lemma_day_of_year(doy);
    let (year, m, d) = civil_of(days);
    let y = yoe + era * 400;
    let yy = if m <= 2 {
        year - 1
    } else {
        year
    };
    assert(yy == y);
    assert(yy / 400 == era);
    if m == 2 && doy == 365 {
        assert((year - era * 400) % 4 == (yoe + 1) % 4);
        assert((year - era * 400) % 100 == (yoe + 1) % 100);
        assert((year - era * 400) % 400 == (yoe + 1) % 400);
        assert(is_leap(year));
    }
}

/// The date (year, month, day) of a day number.
#[verifier::spinoff_prover]
pub fn civil_from_days(days_since_unix_epoch: i64) -> (r: (i32, u32, u32))
    requires
        -700_000_000_000 <= days_since_unix_epoch <= 700_000_000_000,
    ensures
        is_date(r.0 as int, r.1 as int, r.2 as int),
        days_from_civil(r.0 as int, r.1 as int, r.2 as int) == days_since_unix_epoch,
{
    let z: i64 = days_since_unix_epoch + 719_468;
    let era: i64 = if z >= 0 {
        z / 146_097
    } else {
        -((146_096 - z) / 146_097)
    };
    assert(era == z / 146097);
    let doe: i64 = z - era * 146_097;
    let yoe: i64 = (doe - doe / 1_460 + doe / 36_524 - doe / 146_096) / 365;
    let y: i64 = yoe + era * 400;
    let doy: i64 = doe - (365 * yoe + yoe / 4 - yoe / 100);
    let mp: i64 = (5 * doy + 2) / 153;
    let d: i64 = doy - (153 * mp + 2) / 5 + 1;
    let m: i64 = if mp < 10 {
        mp + 3
    } else {
        mp - 9
    };
    let year: i64 = if m <= 2 {
        y + 1
    } else {
        y
    };
    proof {
        lemma_civil_of(days_since_unix_epoch as int);
        assert(civil_of(days_since_unix_epoch as int) == (year as int, m as int, d as int));
    }
    (year as i32, m as u32, d as u32)
}

/// A valid date: a month of the year and a day of that month.
pub open spec fn is_date(y: int, m: int, d: int) -> bool {
    1 <= m <= 12 && 1 <= d <= month_length(y, m)
}

#[verifier::spinoff_prover]
#[verifier::rlimit(60)]
proof fn lemma_year_recovered(yoe: int, doy: int)
    requires
        0 <= yoe <= 399,
        0 <= doy <= 365,
        doy == 365 ==> (yoe + 1) % 4 == 0 && ((yoe + 1) % 100 != 0 || (yoe + 1) % 400 == 0),
    ensures
        ({
            let doe = yoe * 365 + yoe / 4 - yoe / 100 + doy;
            &&& 0 <= doe <= 146096
            &&& (doe - doe / 1460 + doe / 36524 - doe / 146096) / 365 == yoe
        }),
{
}

#[verifier::spinoff_prover]
#[verifier::rlimit(60)]
proof fn lemma_month_recovered(mp: int, d: int)
    requires
        0 <= mp <= 11,
        1 <= d <= 31,
        mp == 11 ==> d <= 29,
        (mp == 1 || mp == 3 || mp == 6 || mp == 8) ==> d <= 30,
    ensures
        ({
            let doy = (153 * mp + 2) / 5 + d - 1;
            &&& 0 <= doy <= 365
            &&& (5 * doy + 2) / 153 == mp
            &&& (doy == 365 ==> mp == 11 && d == 29)
        }),
{
}

/// A valid date as (era, day of era, year of era, day of year, month from March).
spec fn parts(y: int, m: int, d: int) -> (int, int, int, int, int) {
    let yy = if m <= 2 {
        y - 1
    } else {
        y
    };
    let era = yy / 400;
    let yoe = yy - era * 400;
    let mp = if m > 2 {
        m - 3
    } else {
        m + 9
    };
    let doy = (153 * mp + 2) / 5 + d - 1;
    let doe = yoe * 365 + yoe / 4 - yoe / 100 + doy;
    (era, doe, yoe, doy, mp)
}

#[verifier::spinoff_prover]
proof fn lemma_parts(y: int, m: int, d: int)
    requires
        is_date(y, m, d),
    ensures
        ({
            let (era, doe, yoe, doy, mp) = parts(y, m, d);
            &&& 0 <= doe <= 146096
            &&& days_from_civil(y, m, d) == era * 146097 + doe - 719468
            &&& (doe - doe / 1460 + doe / 36524 - doe / 146096) / 365 == yoe
            &&& (5 * doy + 2) / 153 == mp
        }),
{
    let (era, doe, yoe, doy, mp) = parts(y, m, d);
    let yy = if m <= 2 {
        y - 1
    } else {
        y
    };
    assert(0 <= yoe <= 399);
    lemma_month_recovered(mp, d);
    if doy == 365 {
        assert(m == 2 && d == 29);
        assert(is_leap(y));
        assert(yy + 1 == y);
        assert((yoe + 1) % 4 == y % 4);
        assert((yoe + 1) % 100 == y % 100);
        assert((yoe + 1) % 400 == y % 400);
    }
    lemma_year_recovered(yoe, doy);
}

/// Two dates with the same day number are the same date, so the date of a
/// day number is the only one with that number.
#[verifier::spinoff_prover]
pub proof fn law_day_number_names_one_date(y1: int, m1: int, d1: int, y2: int, m2: int, d2: int)
    requires
        is_date(y1, m1, d1),
        is_date(y2, m2, d2),
        days_from_civil(y1, m1, d1) == days_from_civil(y2, m2, d2),
    ensures
        y1 == y2 && m1 == m2 && d1 == d2,
{
    lemma_parts(y1, m1, d1);
    lemma_parts(y2, m2, d2);
    let (e1, o1, a1, b1, p1) = parts(y1, m1, d1);
    let (e2, o2, a2, b2, p2) = parts(y2, m2, d2);
    assert(e1 == e2 && o1 == o2);
    assert(a1 == a2);
    assert(b1 == b2);
    assert(p1 == p2);
    assert(m1 == m2);
    assert(d1 == d2);
}
#[verifier::spinoff_prover]
proof fn lemma_epoch_years(y: int, m: int, d: int)
    requires
        is_date(y, m, d),
        days_from_civil(y, m, d) >= 0,
    ensures
        y >= 1970,
{
    lemma_parts(y, m, d);
}
/// A number of a date written with at least two digits.
pub open spec fn two_digits(n: nat) -> Seq<char> {
    if n < 10 {
        seq!['0'] + dec(n)
    } else {
        dec(n)
    }
}

/// A date written `YYYY-MM-DD`.
pub open spec fn date_text_of(y: nat, m: nat, d: nat) -> Seq<char> {
    dec(y) + seq!['-'] + two_digits(m) + seq!['-'] + two_digits(d)
}

fn push_two_digits(out: &mut Vec<char>, n: u32)
    ensures
        final(out)@ == old(out)@ + two_digits(n as nat),
{
    if n < 10 {
        out.push('0');
        push_dec(out, n as u64);
        assert(final(out)@ =~= old(out)@ + two_digits(n as nat));
    } else {
        push_dec(out, n as u64);
    }
}

/// The `YYYY-MM-DD` text of the date of a day number on or after 1970-01-01.
pub fn date_text(days_since_unix_epoch: i64) -> (s: String)
    requires
        0 <= days_since_unix_epoch <= 700_000_000_000,
    ensures
        exists|y: int, m: int, d: int|
            #![trigger days_from_civil(y, m, d)]
            is_date(y, m, d) && y >= 1970 && days_from_civil(y, m, d) == days_since_unix_epoch && s@ == date_text_of(
                y as nat,
                m as nat,
                d as nat,
            ),
{
    let (y, m, d) = civil_from_days(days_since_unix_epoch);
    proof {
        lemma_epoch_years(y as int, m as int, d as int);
    }
    let mut v: Vec<char> = Vec::new();
    push_dec(&mut v, y as u64);
    v.push('-');
    push_two_digits(&mut v, m);
    v.push('-');
    push_two_digits(&mut v, d);
    assert(v@ =~= date_text_of(y as nat, m as nat, d as nat));
    string_of(&v)
}
} // verus!
