//! Conversion from days since the Unix epoch to a civil (proleptic Gregorian)
//! date, and the UTC timestamps written into generated metadata.
use vstd::prelude::*;

use crate::text::{concat2, push_char, string_of};

verus! {

/// Days from 0000-03-01 to 1970-01-01.
pub open spec fn epoch_shift() -> int {
    719468
}

/// The 400-year era of shifted day `z`.
pub open spec fn era_of(z: int) -> int {
    z / 146097
}

/// Year of era for day of era `doe`.
pub open spec fn yoe_of(doe: int) -> int {
    (doe - doe / 1460 + doe / 36524 - doe / 146096) / 365
}

/// Day of the (March-based) year for day of era `doe`.
pub open spec fn doy_of(doe: int) -> int {
    let yoe = yoe_of(doe);
    doe - (365 * yoe + yoe / 4 - yoe / 100)
}

/// March-based month index (0 = March) for day of year `doy`.
pub open spec fn mp_of(doy: int) -> int {
    (5 * doy + 2) / 153
}

/// The civil date `(year, month, day)` of the day `days` after 1970-01-01.
pub open spec fn civil_spec(days: int) -> (int, int, int) {
    let z = days + epoch_shift();
    let era = era_of(z);
    let doe = z - era * 146097;
    let yoe = yoe_of(doe);
    let doy = doy_of(doe);
    let mp = mp_of(doy);
    let d = doy - (153 * mp + 2) / 5 + 1;
    let m = if mp < 10 {
        mp + 3
    } else {
        mp - 9
    };
    let y = yoe + era * 400;
    (if m <= 2 {
        y + 1
    } else {
        y
    }, m, d)
}

/// Days from 1970-01-01 to the civil date `y-m-d` (Hinnant's `days_from_civil`).
pub open spec fn days_from_civil(y: int, m: int, d: int) -> int {
    let y2 = if m <= 2 {
        y - 1
    } else {
        y
    };
    let era = y2 / 400;
    let yoe = y2 - era * 400;
    let mp = if m > 2 {
        m - 3
    } else {
        m + 9
    };
    let doy = (153 * mp + 2) / 5 + d - 1;
    let doe = yoe * 365 + yoe / 4 - yoe / 100 + doy;
    era * 146097 + doe - epoch_shift()
}

/// Bounds of the year-of-era and day-of-year computations over a whole era.
proof fn lemma_era_bounds(doe: u32)
    requires
        doe < 146097,
    ensures
        0 <= yoe_of(doe as int) <= 399,
        0 <= doy_of(doe as int) <= 365,
{
    assert(doe < 146097 ==> {
        let n: u32 = (doe - doe / 1460 + doe / 36524 - doe / 146096) as u32;
        let yoe: u32 = n / 365;
        let t: u32 = (365 * yoe + yoe / 4 - yoe / 100) as u32;
        &&& t <= doe
        &&& doe - t <= 365
        &&& yoe <= 399
    }) by (bit_vector);
}

/// Month and day bounds from the day of year.
proof fn lemma_month_bounds(doy: u32)
    requires
        doy <= 365,
    ensures
        0 <= mp_of(doy as int) <= 11,
        1 <= doy - (153 * mp_of(doy as int) + 2) / 5 + 1 <= 31,
{
    assert(doy <= 365 ==> {
        let mp: u32 = ((5 * doy + 2) as u32) / 153;
        let base: u32 = ((153 * mp + 2) as u32) / 5;
        &&& mp <= 11
        &&& base <= doy
        &&& doy - base <= 30
    }) by (bit_vector);
}

/// The date of every day is a real month and a day of at most 31, and
/// `days_from_civil` gives the day back.
pub proof fn lemma_civil_round_trip(days: int)
    ensures
        1 <= civil_spec(days).1 <= 12,
        1 <= civil_spec(days).2 <= 31,
        days_from_civil(civil_spec(days).0, civil_spec(days).1, civil_spec(days).2) == days,
{
    let z = days + epoch_shift();
    let era = era_of(z);
    let doe = z - era * 146097;
    assert(0 <= doe < 146097);
    lemma_era_bounds(doe as u32);
    let yoe = yoe_of(doe);
    let doy = doy_of(doe);
    lemma_month_bounds(doy as u32);
    let mp = mp_of(doy);
    let (y, m, d) = civil_spec(days);
    let y2 = if m <= 2 {
        y - 1
    } else {
        y
    };
    assert(y2 == yoe + era * 400);
    assert(y2 / 400 == era) by {
        vstd::arithmetic::div_mod::lemma_fundamental_div_mod_converse(y2, 400, era, yoe);
    }
    let mp2 = if m > 2 {
        m - 3
    } else {
        m + 9
    };
    assert(mp2 == mp);
}

/// The civil date of the day `days` after 1970-01-01. The year is truncated to
/// `i32` by a wrapping cast.
pub fn civil_from_days(days: i64) -> (r: (i32, u32, u32))
    requires
        days <= i64::MAX - 719468,
    ensures
        r.0 == civil_spec(days as int).0 as i32,
        r.1 == civil_spec(days as int).1,
        r.2 == civil_spec(days as int).2,
{
    let z: i64 = days + 719468;
    let era: i64 = if z >= 0 {
        z / 146097
    } else {
        let a: u64 = (146096 - (z as i128)) as u64;
        assert(a as int == 146096 - z);
        let q: u64 = a / 146097;
        proof {
            vstd::arithmetic::div_mod::lemma_fundamental_div_mod(a as int, 146097);
            vstd::arithmetic::div_mod::lemma_fundamental_div_mod_converse(z as int, 146097, -(q as int), (z - (-(q as int)) * 146097) as int);
        }
        -(q as i64)
    };
    assert(era == era_of(z as int));
    let doe: u32 = (z - era * 146097) as u32;
    proof {
        lemma_era_bounds(doe);
    }
    let yoe: u32 = (doe - doe / 1460 + doe / 36524 - doe / 146096) / 365;
    let doy: u32 = doe - (365 * yoe + yoe / 4 - yoe / 100);
    proof {
        lemma_month_bounds(doy);
    }
    let mp: u32 = (5 * doy + 2) / 153;
    let d: u32 = doy - (153 * mp + 2) / 5 + 1;
    let m: u32 = if mp < 10 {
        mp + 3
    } else {
        mp - 9
    };
    let y: i64 = (yoe as i64) + era * 400;
    let y: i64 = if m <= 2 {
        y + 1
    } else {
        y
    };
    (y as i32, m, d)
}

/// Decimal digits of `n`.
pub open spec fn dec(n: nat) -> Seq<char>
    decreases n,
{
    if n < 10 {
        seq![digit_char(n)]
    } else {
        dec(n / 10) + seq![digit_char(n % 10)]
    }
}

/// The ASCII digit for `d < 10`.
pub open spec fn digit_char(d: nat) -> char {
    (('0' as u32) + d) as char
}

/// `n` in decimal, zero-padded on the left to at least `w` characters.
pub open spec fn pad(n: nat, w: nat) -> Seq<char> {
    let s = dec(n);
    if s.len() >= w {
        s
    } else {
        Seq::new((w - s.len()) as nat, |i: int| '0') + s
    }
}

/// `{:0w}` formatting of a signed number: the sign counts towards the width.
pub open spec fn pad_signed(v: int, w: nat) -> Seq<char> {
    if v < 0 {
        seq!['-'] + pad((-v) as nat, if w >= 1 {
            (w - 1) as nat
        } else {
            0
        })
    } else {
        pad(v as nat, w)
    }
}

fn digit_exec(d: u64) -> (r: char)
    requires
        d < 10,
    ensures
        r == digit_char(d as nat),
{
    let b: u8 = (48 + d) as u8;
    b as char
}

/// Decimal digits of `n`.
pub fn dec_exec(n: u64) -> (r: String)
    ensures
        r@ == dec(n as nat),
    decreases n,
{
    if n < 10 {
        let mut s = String::new();
        push_char(&mut s, digit_exec(n));
        assert(s@ =~= seq![digit_char(n as nat)]);
        s
    } else {
        let mut s = dec_exec(n / 10);
        push_char(&mut s, digit_exec(n % 10));
        s
    }
}

/// `n` zero-padded to `w` digits.
pub fn pad_exec(n: u64, w: usize) -> (r: String)
    ensures
        r@ == pad(n as nat, w as nat),
{
    let s = dec_exec(n);
    let len = crate::text::chars_of(s.as_str()).len();
    if len >= w {
        return s;
    }
    let mut zeros: Vec<char> = Vec::new();
    let mut i: usize = 0;
    while i < w - len
        invariant
            i <= w - len,
            zeros@ == Seq::new(i as nat, |k: int| '0'),
        decreases w - len - i,
    {
        zeros.push('0');
        assert(zeros@ =~= Seq::new((i + 1) as nat, |k: int| '0'));
        i = i + 1;
    }
    let z = string_of(&zeros);
    concat2(z.as_str(), s.as_str())
}

/// `{:0w}` formatting of an `i32`.
pub fn pad_signed_exec(v: i32, w: usize) -> (r: String)
    ensures
        r@ == pad_signed(v as int, w as nat),
{
    if v < 0 {
        let a: u64 = (0 - (v as i64)) as u64;
        let p = pad_exec(a, if w >= 1 { w - 1 } else { 0 });
        proof {
            reveal_strlit("-");
        }
        concat2("-", p.as_str())
    } else {
        pad_exec(v as u64, w)
    }
}

/// `YYYY-MM-DDTHH:MM:SSZ` for `secs` seconds after the Unix epoch.
pub open spec fn utc_iso_spec(secs: nat) -> Seq<char> {
    let days = secs / 86400;
    let tod = secs % 86400;
    let date = civil_spec(days as int);
    pad_signed(date.0 as i32 as int, 4) + "-"@ + pad(date.1 as nat, 2) + "-"@ + pad(date.2 as nat, 2) + "T"@
        + pad(tod / 3600, 2) + ":"@ + pad((tod % 3600) / 60, 2) + ":"@ + pad(tod % 60, 2) + "Z"@
}

/// Formats `secs` seconds after the Unix epoch as an ISO-8601 UTC timestamp.
pub fn utc_iso(secs: u64) -> (r: String)
    ensures
        r@ == utc_iso_spec(secs as nat),
{
    let days = secs / 86400;
    let tod = secs % 86400;
    let date = civil_from_days(days as i64);
    proof {
        lemma_civil_round_trip(days as int);
    }
    let mut out = pad_signed_exec(date.0, 4);
    out.append("-");
    let s = pad_exec(date.1 as u64, 2);
    out.append(s.as_str());
    out.append("-");
    let s = pad_exec(date.2 as u64, 2);
    out.append(s.as_str());
    out.append("T");
    let s = pad_exec(tod / 3600, 2);
    out.append(s.as_str());
    out.append(":");
    let s = pad_exec((tod % 3600) / 60, 2);
    out.append(s.as_str());
    out.append(":");
    let s = pad_exec(tod % 60, 2);
    out.append(s.as_str());
    out.append("Z");
    out
}

/// Seconds since the Unix epoch by the system clock, or 0 when the clock is
/// before the epoch (`SystemTime::now().duration_since(UNIX_EPOCH)`). Nothing
/// is stated of the value: it is the current time.
#[verifier::external_body]
fn unix_now_secs() -> u64 {
    std::time::SystemTime::now().duration_since(std::time::UNIX_EPOCH).map(|d| d.as_secs()).unwrap_or(0)
}

/// The current time as an ISO-8601 UTC timestamp.
pub fn utc_now_iso() -> (r: String)
    ensures
        exists|secs: nat| r@ == utc_iso_spec(secs),
{
    let secs = unix_now_secs();
    utc_iso(secs)
}

} // verus!
