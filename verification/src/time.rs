//! Rendering server timestamps as local calendar time.
//!
//! A timestamp arrives as milliseconds since the epoch. The machine's
//! time-zone offset comes from the one trusted call below; everything
//! after it - the split into days and time of day, the proleptic
//! Gregorian reckoning of year, month and day, and the rendering - is
//! verified here. The supported instants are exactly those whose UTC
//! millisecond value a calendar of years -262143 through 262142 can
//! carry, the window the usual millisecond-timestamp constructors accept;
//! anything outside renders as the empty string. Years outside 0 through
//! 9999 render with an explicit sign, the rest zero-padded to four
//! digits.

use crate::decimal::{lemma_padded_digits_wf, push_padded_digits, spec_padded_digits};
use vstd::arithmetic::div_mod::{
    lemma_fundamental_div_mod, lemma_fundamental_div_mod_converse, lemma_mod_multiples_vanish,
};
use vstd::prelude::*;

verus! {

pub open spec fn is_leap_year(y: int) -> bool {
    y % 4 == 0 && (y % 100 != 0 || y % 400 == 0)
}

pub open spec fn days_in_year(y: int) -> int {
    if is_leap_year(y) {
        366
    } else {
        365
    }
}

pub open spec fn days_in_month(y: int, m: int) -> int
    recommends
        1 <= m <= 12,
{
    if m == 1 {
        31
    } else if m == 2 {
        if is_leap_year(y) {
            29
        } else {
            28
        }
    } else if m == 3 {
        31
    } else if m == 4 {
        30
    } else if m == 5 {
        31
    } else if m == 6 {
        30
    } else if m == 7 {
        31
    } else if m == 8 {
        31
    } else if m == 9 {
        30
    } else if m == 10 {
        31
    } else if m == 11 {
        30
    } else {
        31
    }
}

/// Days from 1970-01-01 to the first day of year `y`; negative for years
/// before 1970.
pub open spec fn spec_days_to_year(y: int) -> int
    decreases (if y >= 1970 {
        y - 1970
    } else {
        1970 - y
    }),
{
    if y == 1970 {
        0
    } else if y > 1970 {
        spec_days_to_year(y - 1) + days_in_year(y - 1)
    } else {
        spec_days_to_year(y + 1) - days_in_year(y)
    }
}

/// Days from the first day of year `y` to the first day of its month `m`.
pub open spec fn spec_days_before_month(y: int, m: int) -> int
    decreases m,
{
    if m <= 1 {
        0
    } else {
        spec_days_before_month(y, m - 1) + days_in_month(y, m - 1)
    }
}

/// Days from 1970-01-01 to the civil date `y-m-d`.
pub open spec fn spec_days_from_civil(y: int, m: int, d: int) -> int {
    spec_days_to_year(y) + spec_days_before_month(y, m) + d - 1
}

/// The span of years the calendar here reckons: one year of headroom
/// around the supported UTC window, room for the zone shift.
pub open spec fn year_in_calendar(y: int) -> bool {
    -262144 <= y <= 262143
}

/// Leapness repeats every 400 years, so a shift by a whole number of
/// 400-year cycles changes nothing.
proof fn lemma_leap_shift(y: int)
    ensures
        is_leap_year(y) == is_leap_year(y + 400000),
{
    lemma_mod_multiples_vanish(100000, y, 4);
    lemma_mod_multiples_vanish(4000, y, 100);
    lemma_mod_multiples_vanish(1000, y, 400);
}

fn days_in_year_x(y: i32) -> (r: u64)
    requires
        -300000 <= y <= 300000,
    ensures
        r == days_in_year(y as int),
{
    let yk: u64 = (y as i64 + 400000) as u64;
    proof {
        lemma_leap_shift(y as int);
    }
    if (yk % 4 == 0 && yk % 100 != 0) || yk % 400 == 0 {
        366
    } else {
        365
    }
}

fn days_in_month_x(y: i32, m: u32) -> (r: u64)
    requires
        -300000 <= y <= 300000,
        1 <= m <= 12,
    ensures
        r == days_in_month(y as int, m as int),
{
    if m == 2 {
        if days_in_year_x(y) == 366 {
            29
        } else {
            28
        }
    } else if m == 4 || m == 6 || m == 9 || m == 11 {
        30
    } else {
        31
    }
}

/// The civil date `days` days after 1970-01-01, for any count a calendar
/// of the years -262144 through 262143 can hold; the fields returned are
/// the unique in-range solution of the day count's equation.
pub fn civil_from_days(days: i64) -> (r: Option<(i32, u32, u32)>)
    ensures
        match r {
            Some((y, m, d)) => {
                &&& year_in_calendar(y as int)
                &&& 1 <= m <= 12
                &&& 1 <= d <= days_in_month(y as int, m as int)
                &&& spec_days_from_civil(y as int, m as int, d as int) == days
            },
            None => days < spec_days_to_year(-262144) || days >= spec_days_to_year(262144),
        },
        spec_days_to_year(-262144) <= days < spec_days_to_year(262144) ==> r is Some,
{
    let mut y: i32 = 1970;
    let mut rem: i64 = days;
    if days >= 0 {
        loop
            invariant
                1970 <= y <= 262144,
                rem == days - spec_days_to_year(y as int),
                rem >= 0,
            ensures
                1970 <= y <= 262143,
                rem == days - spec_days_to_year(y as int),
                0 <= rem < days_in_year(y as int),
            decreases 262144 - y,
        {
            if y == 262144 {
                return None;
            }
            let dy = days_in_year_x(y);
            if rem < dy as i64 {
                break ;
            }
            rem = rem - dy as i64;
            y = y + 1;
        }
    } else {
        loop
            invariant
                -262144 <= y <= 1970,
                rem == days - spec_days_to_year(y as int),
                rem < days_in_year(y as int),
                rem >= days,
            ensures
                -262144 <= y <= 1970,
                rem == days - spec_days_to_year(y as int),
                0 <= rem < days_in_year(y as int),
            decreases y + 262144,
        {
            if rem >= 0 {
                break ;
            }
            if y == -262144 {
                return None;
            }
            let dy = days_in_year_x(y - 1);
            y = y - 1;
            rem = rem + dy as i64;
        }
    }
    let mut m: u32 = 1;
    let mut mrem: u64 = rem as u64;
    loop
        invariant
            1 <= m <= 12,
            -262144 <= y <= 262143,
            mrem == days - spec_days_to_year(y as int) - spec_days_before_month(y as int, m as int),
            days - spec_days_to_year(y as int) < days_in_year(y as int),
            mrem <= days - spec_days_to_year(y as int),
        ensures
            1 <= m <= 12,
            -262144 <= y <= 262143,
            mrem == days - spec_days_to_year(y as int) - spec_days_before_month(y as int, m as int),
            days - spec_days_to_year(y as int) < days_in_year(y as int),
            m < 12 ==> mrem < days_in_month(y as int, m as int),
        decreases 12 - m,
    {
        if m >= 12 {
            break ;
        }
        let dim = days_in_month_x(y, m);
        if mrem < dim {
            break ;
        }
        mrem = mrem - dim;
        m = m + 1;
    }
    proof {
        if m == 12 {
            // Whatever is left fits in December: the year's day count is
            // the sum of its months'.
            assert(spec_days_before_month(y as int, 13) == days_in_year(y as int)) by {
                reveal_with_fuel(spec_days_before_month, 14);
            }
            assert(mrem < days_in_month(y as int, 12));
        }
    }
    Some((y, m, (mrem + 1) as u32))
}

/// Later years start later, by at least 365 days a year.
proof fn lemma_days_to_year_mono(a: int, b: int)
    requires
        a <= b,
    ensures
        spec_days_to_year(a) <= spec_days_to_year(b),
        spec_days_to_year(a) + 365 * (b - a) <= spec_days_to_year(b),
    decreases b - a,
{
    if a < b {
        lemma_days_to_year_mono(a, b - 1);
    }
}

/// A date's day count stays within its own year.
proof fn lemma_civil_day_in_year(y: int, m: int, d: int)
    requires
        1 <= m <= 12,
        1 <= d <= days_in_month(y, m),
    ensures
        spec_days_to_year(y) <= spec_days_from_civil(y, m, d) < spec_days_to_year(y + 1),
{
    assert(spec_days_before_month(y, m) + days_in_month(y, m) <= days_in_year(y)
        && spec_days_before_month(y, m) >= 0) by {
        reveal_with_fuel(spec_days_before_month, 14);
    }
}

/// The year-part text: zero-padded to four digits, with an explicit sign
/// for years outside 0 through 9999.
pub open spec fn spec_year_text(y: int) -> Seq<u8> {
    if 0 <= y <= 9999 {
        spec_padded_digits(y as nat, 3)
    } else if y > 9999 {
        seq![0x2bu8] + spec_padded_digits(y as nat, 3)
    } else {
        seq![0x2du8] + spec_padded_digits((-y) as nat, 3)
    }
}

/// The rendered form `YYYY-MM-DD hh:mm:ss`.
pub open spec fn spec_format_datetime(y: int, m: int, d: int, h: int, mi: int, s: int) -> Seq<u8> {
    spec_year_text(y) + seq![0x2du8] + spec_padded_digits(m as nat, 1) + seq![0x2du8]
        + spec_padded_digits(d as nat, 1) + seq![0x20u8] + spec_padded_digits(h as nat, 1) + seq![
        0x3au8,
    ] + spec_padded_digits(mi as nat, 1) + seq![0x3au8] + spec_padded_digits(s as nat, 1)
}

/// How a millisecond timestamp renders under a given zone offset: empty
/// text for a UTC instant outside the supported window, and otherwise the
/// civil date and clock time of the local instant.
pub open spec fn spec_timestamp_rendering(ms: int, off: int, out: Seq<char>) -> bool {
    let utc_days = ms / 86400000;
    if utc_days < spec_days_to_year(-262143) || utc_days >= spec_days_to_year(262143) {
        out == Seq::<char>::empty()
    } else {
        let lsecs = (ms + off * 1000) / 1000;
        let ldays = lsecs / 86400;
        let tod = lsecs % 86400;
        exists|y: int, m: int, d: int|
            {
                &&& #[trigger] spec_days_from_civil(y, m, d) == ldays
                &&& year_in_calendar(y)
                &&& 1 <= m <= 12
                &&& 1 <= d <= days_in_month(y, m)
                &&& out == spec_format_datetime(
                    y,
                    m,
                    d,
                    tod / 3600,
                    (tod % 3600) / 60,
                    tod % 60,
                ).map_values(|b: u8| b as char)
            }
    }
}

/// Relies on chrono's `Local` and `FixedOffset::local_minus_utc`: the
/// machine's current zone offset from UTC in seconds, which a
/// `FixedOffset` keeps strictly within one day. Nothing more is promised:
/// the offset depends on the machine and the moment.
#[verifier::external_body]
fn local_offset_seconds() -> (r: i32)
    ensures
        -86400 < (r as int),
        (r as int) < 86400,
{
    chrono::Local::now().offset().local_minus_utc()
}

/// Relies on `String::from_utf8`: bytes below 0x80 are valid UTF-8 and
/// decode to exactly those characters.
#[verifier::external_body]
fn ascii_to_string(v: Vec<u8>) -> (r: String)
    requires
        forall|i: int| 0 <= i < v@.len() ==> v@[i] < 0x80,
    ensures
        r@ == v@.map_values(|b: u8| b as char),
{
    String::from_utf8(v).unwrap_or_default()
}

/// Appends digits of `n` padded to `width`, keeping everything ASCII.
fn push_clock_field(out: &mut Vec<u8>, n: u64, width: u32)
    requires
        width >= 1,
        forall|i: int| 0 <= i < old(out)@.len() ==> old(out)@[i] < 0x80,
    ensures
        final(out)@ == old(out)@ + spec_padded_digits(n as nat, (width - 1) as nat),
        forall|i: int| 0 <= i < final(out)@.len() ==> final(out)@[i] < 0x80,
{
    push_padded_digits(out, n, width);
    proof {
        lemma_padded_digits_wf(n as nat, (width - 1) as nat);
        assert forall|i: int| 0 <= i < out@.len() implies out@[i] < 0x80 by {
            if i >= old(out)@.len() {
                assert(out@[i] == spec_padded_digits(n as nat, (width - 1) as nat)[i - old(
                    out,
                )@.len()]);
            }
        }
    }
}

/// Appends one ASCII punctuation byte.
fn push_sep(out: &mut Vec<u8>, b: u8)
    requires
        b < 0x80,
        forall|i: int| 0 <= i < old(out)@.len() ==> old(out)@[i] < 0x80,
    ensures
        final(out)@ == old(out)@ + seq![b],
        forall|i: int| 0 <= i < final(out)@.len() ==> final(out)@[i] < 0x80,
{
    out.push(b);
    assert(out@ =~= old(out)@ + seq![b]);
}

/// Appends the year-part text.
fn push_year(out: &mut Vec<u8>, y: i32)
    requires
        year_in_calendar(y as int),
        forall|i: int| 0 <= i < old(out)@.len() ==> old(out)@[i] < 0x80,
    ensures
        final(out)@ == old(out)@ + spec_year_text(y as int),
        forall|i: int| 0 <= i < final(out)@.len() ==> final(out)@[i] < 0x80,
{
    if 0 <= y && y <= 9999 {
        push_clock_field(out, y as u64, 4);
    } else if y > 9999 {
        push_sep(out, 0x2b);
        push_clock_field(out, y as u64, 4);
        assert(out@ =~= old(out)@ + spec_year_text(y as int));
    } else {
        push_sep(out, 0x2d);
        push_clock_field(out, (-(y as i64)) as u64, 4);
        assert(out@ =~= old(out)@ + spec_year_text(y as int));
    }
}

/// The floor of `a / b`, as the mathematical division rounds it.
fn floor_div_i128(a: i128, b: i128) -> (r: i128)
    requires
        0 < b < 0x1000_0000_0000_0000i128,
        -0x1_0000_0000_0000_0000_0000i128 < a < 0x1_0000_0000_0000_0000_0000i128,
    ensures
        r == (a as int) / (b as int),
{
    if a >= 0 {
        let q = ((a as u128) / (b as u128)) as i128;
        proof {
            assert((a as u128) as int == a as int);
            assert(((a as u128) / (b as u128)) as int == (a as int) / (b as int));
        }
        q
    } else {
        let m = (-a) as u128;
        proof {
            assert(m as int == -(a as int));
        }
        let num = m + (b as u128) - 1;
        let qu = num / (b as u128);
        proof {
            assert(num as int == -(a as int) + (b as int) - 1);
            assert(qu as int == (-(a as int) + (b as int) - 1) / (b as int));
        }
        let q = qu as i128;
        proof {
            let qi = q as int;
            let bi = b as int;
            let ai = a as int;
            assert(qi == ((-ai) + bi - 1) / bi);
            // q is the ceiling of (-a)/b, so -q is the floor of a/b.
            assert(qi * bi <= (-ai) + bi - 1 && (-ai) + bi - 1 < qi * bi + bi) by (
            nonlinear_arith)
                requires
                    qi == ((-ai) + bi - 1) / bi,
                    bi > 0,
                    (-ai) + bi - 1 >= 0,
            ;
            let r0 = ai + qi * bi;
            assert(0 <= r0 < bi);
            assert(ai == (-qi) * bi + r0) by (nonlinear_arith)
                requires
                    r0 == ai + qi * bi,
            ;
            lemma_fundamental_div_mod_converse(ai, bi, -qi, r0);
        }
        -q
    }
}

/// Renders a millisecond timestamp as local calendar text. A UTC instant
/// the supported calendar window cannot hold renders as empty text.
pub fn timestamp_to_datetime(timestamp: i64) -> (r: String)
    ensures
        exists|off: int|
            -86400 < off < 86400 && #[trigger] spec_timestamp_rendering(
                timestamp as int,
                off,
                r@,
            ),
{
    let off = local_offset_seconds();
    let ghost offi = off as int;
    let utc_days128 = floor_div_i128(timestamp as i128, 86400000);
    let utc_days: i64 = utc_days128 as i64;
    let ucivil = civil_from_days(utc_days);
    let in_window: bool = match ucivil {
        None => false,
        Some((uy, _, _)) => -262143 <= uy && uy <= 262142,
    };
    proof {
        lemma_days_to_year_mono(-262144, -262143);
        lemma_days_to_year_mono(262143, 262144);
        match ucivil {
            None => {},
            Some((uy, um, ud)) => {
                lemma_civil_day_in_year(uy as int, um as int, ud as int);
                if uy as int == -262144 {
                    lemma_days_to_year_mono(uy as int + 1, -262143);
                } else if uy as int == 262143 {
                    lemma_days_to_year_mono(262143, uy as int);
                } else {
                    lemma_days_to_year_mono(-262143, uy as int);
                    lemma_days_to_year_mono(uy as int + 1, 262143);
                }
            },
        }
    }
    if !in_window {
        let r = String::new();
        proof {
            assert(spec_timestamp_rendering(timestamp as int, offi, r@));
        }
        return r;
    }
    let total: i128 = timestamp as i128 + (off as i128) * 1000;
    let lsecs = floor_div_i128(total, 1000);
    let ldays128 = floor_div_i128(lsecs, 86400);
    let tod: u64 = (lsecs - ldays128 * 86400) as u64;
    proof {
        lemma_fundamental_div_mod(lsecs as int, 86400);
        lemma_nested_day_div(timestamp as int + offi * 1000);
        lemma_day_shift_bound(timestamp as int, offi, utc_days as int);
    }
    let ldays: i64 = ldays128 as i64;
    match civil_from_days(ldays) {
        None => {
            // Unreachable: the zone shift moves the day by at most one,
            // and the calendar has a year of headroom on each side.
            proof {
                assert(false);
            }
            String::new()
        },
        Some((y, m, d)) => {
            let h: u64 = tod / 3600;
            let mi: u64 = (tod % 3600) / 60;
            let s: u64 = tod % 60;
            let mut out: Vec<u8> = Vec::new();
            push_year(&mut out, y);
            push_sep(&mut out, 0x2d);
            push_clock_field(&mut out, m as u64, 2);
            push_sep(&mut out, 0x2d);
            push_clock_field(&mut out, d as u64, 2);
            push_sep(&mut out, 0x20);
            push_clock_field(&mut out, h, 2);
            push_sep(&mut out, 0x3a);
            push_clock_field(&mut out, mi, 2);
            push_sep(&mut out, 0x3a);
            push_clock_field(&mut out, s, 2);
            assert(out@ =~= spec_format_datetime(
                y as int,
                m as int,
                d as int,
                h as int,
                mi as int,
                s as int,
            ));
            let r = ascii_to_string(out);
            proof {
                let lsecsi = (timestamp as int + offi * 1000) / 1000;
                assert(h as int == (lsecsi % 86400) / 3600);
                assert(mi as int == ((lsecsi % 86400) % 3600) / 60);
                assert(s as int == (lsecsi % 86400) % 60);
                let fmt = spec_format_datetime(
                    y as int,
                    m as int,
                    d as int,
                    (lsecsi % 86400) / 3600,
                    ((lsecsi % 86400) % 3600) / 60,
                    (lsecsi % 86400) % 60,
                );
                assert(out@ == fmt);
                assert(r@ =~= fmt.map_values(|b: u8| b as char));
                assert(spec_days_from_civil(y as int, m as int, d as int) == ldays as int);
                assert(spec_timestamp_rendering(timestamp as int, offi, r@));
            }
            r
        },
    }
}

/// Dividing by a thousand and then by the seconds of a day lands on the
/// same day as dividing by the milliseconds of a day at once.
proof fn lemma_nested_day_div(t: int)
    ensures
        (t / 1000) / 86400 == t / 86400000,
{
    lemma_fundamental_div_mod(t, 1000);
    lemma_fundamental_div_mod(t / 1000, 86400);
    let q = (t / 1000) / 86400;
    let r = (t / 1000) % 86400 * 1000 + t % 1000;
    assert(t == q * 86400000 + r) by (nonlinear_arith)
        requires
            t == 1000 * (t / 1000) + t % 1000,
            t / 1000 == 86400 * ((t / 1000) / 86400) + (t / 1000) % 86400,
            q == (t / 1000) / 86400,
            r == (t / 1000) % 86400 * 1000 + t % 1000,
    ;
    assert(0 <= r < 86400000) by (nonlinear_arith)
        requires
            r == (t / 1000) % 86400 * 1000 + t % 1000,
            0 <= t % 1000 < 1000,
            0 <= (t / 1000) % 86400 < 86400,
    ;
    lemma_fundamental_div_mod_converse(t, 86400000, q, r);
}

/// A zone shift of under a day moves the day number by at most one.
proof fn lemma_day_shift_bound(ms: int, off: int, utc_days: int)
    requires
        -86400 < off < 86400,
        utc_days == ms / 86400000,
    ensures
        utc_days - 1 <= (ms + off * 1000) / 86400000 <= utc_days + 1,
{
    lemma_fundamental_div_mod(ms, 86400000);
    let t = ms + off * 1000;
    let lo = utc_days - 1;
    let tq = t / 86400000;
    lemma_fundamental_div_mod(t, 86400000);
    assert(lo * 86400000 < t && t < (utc_days + 2) * 86400000) by (nonlinear_arith)
        requires
            ms == 86400000 * utc_days + ms % 86400000,
            0 <= ms % 86400000 < 86400000,
            t == ms + off * 1000,
            -86400 < off < 86400,
            lo == utc_days - 1,
    ;
    assert(lo <= tq && tq <= utc_days + 1) by (nonlinear_arith)
        requires
            t == 86400000 * tq + t % 86400000,
            0 <= t % 86400000 < 86400000,
            lo * 86400000 < t,
            t < (utc_days + 2) * 86400000,
            lo == utc_days - 1,
    ;
}

} // verus!
