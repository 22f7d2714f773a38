//! Time and randomness at the edge: one trusted reading of the system
//! clock, and verified arithmetic on top of it — civil-date conversion,
//! timestamp formatting, a xorshift step, and fixed-width hexadecimal
//! writing.

use vstd::prelude::*;
use crate::numparse::{format_u64, spec_dec_digits};
use crate::strutil::string_from_chars;
use vstd::string::StringExecFns;

verus! {

/// Relies on `std::time::SystemTime::now` and `duration_since`: the
/// nanoseconds since the Unix epoch, truncated to 64 bits. Nothing
/// further can be promised of a clock reading.
#[verifier::external_body]
pub fn unix_nanos_now() -> (r: u64)
    ensures
        true,
{
    std::time::SystemTime::now().duration_since(std::time::UNIX_EPOCH).unwrap_or_default()
        .as_nanos() as u64
}

/// Relies on `std::time::SystemTime::now` and `duration_since`: the
/// whole seconds since the Unix epoch.
#[verifier::external_body]
pub fn unix_secs_now() -> (r: u64)
    ensures
        true,
{
    std::time::SystemTime::now().duration_since(std::time::UNIX_EPOCH).unwrap_or_default()
        .as_secs()
}

/// One xorshift scramble step.
pub open spec fn spec_xorshift64(x0: u64) -> u64 {
    let x1 = x0 ^ (x0 << 13);
    let x2 = x1 ^ (x1 >> 7);
    x2 ^ (x2 << 17)
}

/// Scrambles a seed with three xorshift rounds.
pub fn xorshift64(x0: u64) -> (r: u64)
    ensures
        r == spec_xorshift64(x0),
{
    let x1 = x0 ^ (x0 << 13u64);
    let x2 = x1 ^ (x1 >> 7u64);
    x2 ^ (x2 << 17u64)
}

/// A pseudo-random 64-bit value: the clock scrambled by xorshift. Two
/// calls may return anything; nothing is promised of the result.
pub fn rand_simple() -> (r: u64)
    ensures
        true,
{
    let nanos = unix_nanos_now();
    xorshift64(nanos)
}

/// The hexadecimal digit of a value below sixteen.
pub open spec fn spec_hex_digit(d: nat) -> char {
    if d < 10 {
        ((d + ('0' as nat)) as u8) as char
    } else {
        ((d - 10 + ('a' as nat)) as u8) as char
    }
}

/// A 64-bit value as exactly sixteen hexadecimal digits.
pub open spec fn spec_hex16(n: u64) -> Seq<char> {
    Seq::new(16, |i: int| spec_hex_digit((((n as nat) / pow16(15 - i)) % 16) as nat))
}

pub open spec fn pow16(e: int) -> nat
    decreases e,
{
    if e <= 0 {
        1
    } else {
        16 * pow16(e - 1)
    }
}

/// The sixteen powers of sixteen a 64-bit value decomposes over.
proof fn lemma_pow16_vals()
    ensures
        pow16(0) == 1,
        pow16(1) == 0x10,
        pow16(2) == 0x100,
        pow16(3) == 0x1000,
        pow16(4) == 0x1_0000,
        pow16(5) == 0x10_0000,
        pow16(6) == 0x100_0000,
        pow16(7) == 0x1000_0000,
        pow16(8) == 0x1_0000_0000,
        pow16(9) == 0x10_0000_0000,
        pow16(10) == 0x100_0000_0000,
        pow16(11) == 0x1000_0000_0000,
        pow16(12) == 0x1_0000_0000_0000,
        pow16(13) == 0x10_0000_0000_0000,
        pow16(14) == 0x100_0000_0000_0000,
        pow16(15) == 0x1000_0000_0000_0000,
{
    assert(pow16(0) == 1);
    assert(pow16(1) == 0x10);
    assert(pow16(2) == 0x100);
    assert(pow16(3) == 0x1000);
    assert(pow16(4) == 0x1_0000);
    assert(pow16(5) == 0x10_0000);
    assert(pow16(6) == 0x100_0000);
    assert(pow16(7) == 0x1000_0000);
    assert(pow16(8) == 0x1_0000_0000);
    assert(pow16(9) == 0x10_0000_0000);
    assert(pow16(10) == 0x100_0000_0000);
    assert(pow16(11) == 0x1000_0000_0000);
    assert(pow16(12) == 0x1_0000_0000_0000);
    assert(pow16(13) == 0x10_0000_0000_0000);
    assert(pow16(14) == 0x100_0000_0000_0000);
    assert(pow16(15) == 0x1000_0000_0000_0000);
}

/// Writes a value as sixteen hexadecimal digits, zero padded.
pub fn format_hex16(n: u64) -> (r: String)
    ensures
        r@ == spec_hex16(n),
        r@.len() == 16,
{
    proof {
        lemma_pow16_vals();
    }
    let mut out: Vec<char> = Vec::new();
    let mut i: usize = 0;
    let mut p: u64 = 0x1000_0000_0000_0000;
    while i < 16
        invariant
            i <= 16,
            out@.len() == i as int,
            i < 16 ==> p as nat == pow16(15 - i),
            forall|k: int|
                0 <= k < i as int ==> #[trigger] out@[k] == spec_hex_digit(
                    (((n as nat) / pow16(15 - k)) % 16) as nat,
                ),
        decreases 16 - i,
    {
        proof {
            lemma_pow16_vals();
            assert(pow16(15 - i) >= 1) by {
                if 15 - i > 0 {
                }
            }
            assert(p >= 1);
        }
        let d: u64 = (n / p) % 16;
        let c: char = if d < 10 {
            ((d as u8) + 48) as char
        } else {
            ((d as u8) - 10 + 97) as char
        };
        proof {
            assert(c == spec_hex_digit(d as nat));
        }
        out.push(c);
        i += 1;
        if i < 16 {
            proof {
                lemma_pow16_vals();
                assert(pow16(15 - i + 1) == 16 * pow16(15 - i));
            }
            let ghost pprev = p;
            p = p / 16;
            proof {
                assert(p as nat == pow16(15 - i)) by (nonlinear_arith)
                    requires
                        pprev as nat == 16 * pow16(15 - i),
                        p == pprev / 16,
                ;
            }
        }
    }
    proof {
        assert(out@ =~= spec_hex16(n));
    }
    string_from_chars(&out)
}

/// Days, then hour, minute and second of a day-time split.
pub open spec fn spec_days_of(secs: u64) -> nat {
    (secs as nat) / 86400
}

/// The civil calendar date a day count since the epoch falls on,
/// written by the era-based conversion over 400-year cycles.
pub open spec fn spec_civil_from_days(z0: nat) -> (nat, nat, nat) {
    let z = z0 + 719468;
    let era = z / 146097;
    let doe = z % 146097;
    let yoe = (doe - doe / 1460 + doe / 36524 - doe / 146096) / 365;
    let y = yoe + era * 400;
    let doy = doe - (365 * yoe + yoe / 4 - yoe / 100);
    let mp = (5 * doy + 2) / 153;
    let d = doy - (153 * mp + 2) / 5 + 1;
    let m = if mp < 10 {
        mp + 3
    } else {
        mp - 9
    };
    let yy = if m <= 2 {
        y + 1
    } else {
        y
    };
    (yy as nat, m as nat, d as nat)
}

/// Computes the civil date of a day count since the epoch.
pub fn civil_from_days(z0: u64) -> (r: (u64, u64, u64))
    requires
        z0 < 0x1_0000_0000,
    ensures
        (r.0 as nat, r.1 as nat, r.2 as nat) == spec_civil_from_days(z0 as nat),
{
    let z: u64 = z0 + 719468;
    let era: u64 = z / 146097;
    let doe: u64 = z % 146097;
    let yoe: u64 = (doe - doe / 1460 + doe / 36524 - doe / 146096) / 365;
    proof {
        assert(doe / 1460 <= doe) by (nonlinear_arith);
        assert(era <= z) by (nonlinear_arith)
            requires
                era == z / 146097,
        ;
        assert(yoe <= doe) by (nonlinear_arith)
            requires
                yoe == (doe - doe / 1460 + doe / 36524 - doe / 146096) / 365,
                doe / 1460 <= doe,
                doe < 146097,
        ;
    }
    let y: u64 = yoe + era * 400;
    let doy: u64 = doe - (365 * yoe + yoe / 4 - yoe / 100);
    proof {
        assert(365 * yoe + yoe / 4 - yoe / 100 <= doe) by (nonlinear_arith)
            requires
                yoe == (doe - doe / 1460 + doe / 36524 - doe / 146096) / 365,
                doe < 146097,
                doe / 1460 <= doe,
        ;
    }
    let mp: u64 = (5 * doy + 2) / 153;
    proof {
        assert((153 * mp + 2) / 5 <= doy + 1) by (nonlinear_arith)
            requires
                mp == (5 * doy + 2) / 153,
                doy < 146097,
        ;
    }
    let d: u64 = doy - (153 * mp + 2) / 5 + 1;
    let m: u64 = if mp < 10 {
        mp + 3
    } else {
        mp - 9
    };
    let yy: u64 = if m <= 2 {
        y + 1
    } else {
        y
    };
    (yy, m, d)
}

/// A value in decimal, left padded with zeros to a width.
pub open spec fn spec_zero_pad(digits: Seq<char>, width: nat) -> Seq<char> {
    if digits.len() >= width {
        digits
    } else {
        Seq::new((width - digits.len()) as nat, |i: int| '0') + digits
    }
}

/// Writes a value in decimal, left padded with zeros.
pub fn format_padded(n: u64, width: usize) -> (r: String)
    requires
        width <= 8,
    ensures
        r@ == spec_zero_pad(spec_dec_digits(n as nat), width as nat),
{
    let digits = format_u64(n);
    let dv = crate::strutil::chars_vec(digits.as_str());
    if dv.len() >= width {
        return digits;
    }
    let mut out: Vec<char> = Vec::new();
    let pad = width - dv.len();
    let mut i: usize = 0;
    while i < pad
        invariant
            i <= pad,
            out@.len() == i as int,
            forall|k: int| 0 <= k < i as int ==> #[trigger] out@[k] == '0',
        decreases pad - i,
    {
        out.push('0');
        i += 1;
    }
    let mut j: usize = 0;
    while j < dv.len()
        invariant
            j <= dv@.len(),
            dv@ == spec_dec_digits(n as nat),
            out@.len() == pad + j,
            pad == width - dv@.len(),
            dv@.len() < width as int,
            forall|k: int| 0 <= k < pad ==> #[trigger] out@[k] == '0',
            forall|k: int| pad <= k < pad + j as int ==> #[trigger] out@[k] == dv@[k - pad],
        decreases dv.len() - j,
    {
        out.push(dv[j]);
        j += 1;
    }
    proof {
        assert(out@ =~= spec_zero_pad(spec_dec_digits(n as nat), width as nat));
    }
    string_from_chars(&out)
}

/// The `year-month-day` rendering of a date, zero padded.
pub open spec fn spec_date_string(y: nat, m: nat, d: nat) -> Seq<char> {
    spec_zero_pad(spec_dec_digits(y), 4) + seq!['-'] + spec_zero_pad(spec_dec_digits(m), 2)
        + seq!['-'] + spec_zero_pad(spec_dec_digits(d), 2)
}

/// Writes a civil date as `year-month-day`.
pub fn format_date(y: u64, m: u64, d: u64) -> (r: String)
    ensures
        r@ == spec_date_string(y as nat, m as nat, d as nat),
{
    let ys = format_padded(y, 4);
    let ms = format_padded(m, 2);
    let ds = format_padded(d, 2);
    let r = ys.concat("-").concat(ms.as_str()).concat("-").concat(ds.as_str());
    proof {
        reveal_strlit("-");
        assert("-"@ =~= seq!['-']);
        assert(r@ =~= spec_date_string(y as nat, m as nat, d as nat));
    }
    r
}

} // verus!
