//! Decimal reading and writing of machine integers, specified against a
//! mathematical digit expansion. The reader mirrors what the standard
//! integer parsers accept: an optional sign, then one or more ASCII
//! digits, rejected on any other character or on overflow.

use vstd::prelude::*;
use crate::strutil::{chars_vec, string_from_chars};

verus! {

/// Numeric value of an ASCII digit.
pub open spec fn spec_digit_val(c: char) -> nat {
    ((c as int) - ('0' as int)) as nat
}

pub open spec fn spec_is_digit(c: char) -> bool {
    '0' <= c && c <= '9'
}

pub open spec fn spec_all_digits(s: Seq<char>) -> bool {
    forall|i: int| 0 <= i < s.len() ==> spec_is_digit(#[trigger] s[i])
}

/// Value of a digit string, most significant first.
pub open spec fn spec_digits_value(s: Seq<char>) -> nat
    decreases s,
{
    if s.len() == 0 {
        0
    } else {
        spec_digits_value(s.drop_last()) * 10 + spec_digit_val(s.last())
    }
}

/// The digit body after an optional leading `+` sign.
pub open spec fn spec_unsigned_body(s: Seq<char>) -> Seq<char> {
    if s.len() > 0 && s[0] == '+' {
        s.drop_first()
    } else {
        s
    }
}

/// What parsing an unsigned 64-bit decimal accepts, and the value it reads.
pub open spec fn spec_parse_u64(s: Seq<char>) -> Option<u64> {
    let body = spec_unsigned_body(s);
    if body.len() > 0 && spec_all_digits(body) && spec_digits_value(body) <= u64::MAX {
        Some(spec_digits_value(body) as u64)
    } else {
        None
    }
}

/// Sign and digit body of a signed decimal string.
pub open spec fn spec_signed_neg(s: Seq<char>) -> bool {
    s.len() > 0 && s[0] == '-'
}

pub open spec fn spec_signed_body(s: Seq<char>) -> Seq<char> {
    if s.len() > 0 && (s[0] == '-' || s[0] == '+') {
        s.drop_first()
    } else {
        s
    }
}

/// What parsing a signed 64-bit decimal accepts, and the value it reads.
pub open spec fn spec_parse_i64(s: Seq<char>) -> Option<i64> {
    let body = spec_signed_body(s);
    if body.len() > 0 && spec_all_digits(body) {
        let v = spec_digits_value(body);
        if spec_signed_neg(s) {
            if v <= 0x8000_0000_0000_0000 {
                Some((-(v as int)) as i64)
            } else {
                None
            }
        } else {
            if v <= i64::MAX {
                Some(v as i64)
            } else {
                None
            }
        }
    } else {
        None
    }
}

/// Extending a digit prefix by one digit multiplies its value by ten.
proof fn lemma_digits_value_step(s: Seq<char>, i: int)
    requires
        0 <= i < s.len(),
    ensures
        spec_digits_value(s.subrange(0, i + 1)) == spec_digits_value(s.subrange(0, i)) * 10
            + spec_digit_val(s[i]),
{
    let t = s.subrange(0, i + 1);
    assert(t.drop_last() =~= s.subrange(0, i));
    assert(t.last() == s[i]);
}

/// Reads the digit body starting at `from`; `None` on a non-digit or on
/// overflow past the unsigned 64-bit range.
fn parse_digits(v: &Vec<char>, from: usize) -> (r: Option<u64>)
    requires
        from < v@.len(),
    ensures
        ({
            let body = v@.subrange(from as int, v@.len() as int);
            match r {
                Some(n) => spec_all_digits(body) && spec_digits_value(body) == n,
                None => !spec_all_digits(body) || spec_digits_value(body) > u64::MAX,
            }
        }),
{
    let ghost body = v@.subrange(from as int, v@.len() as int);
    let mut acc: u64 = 0;
    let mut i: usize = from;
    while i < v.len()
        invariant
            from <= i <= v@.len(),
            body == v@.subrange(from as int, v@.len() as int),
            spec_all_digits(body.subrange(0, i - from)),
            acc == spec_digits_value(body.subrange(0, i - from)),
        decreases v.len() - i,
    {
        let c = v[i];
        if !('0' <= c && c <= '9') {
            proof {
                assert(body[i - from] == v@[i as int]);
            }
            return None;
        }
        let d: u64 = (c as u32 as u64) - 48;
        proof {
            assert(spec_digit_val(c) == d);
        }
        if acc > (u64::MAX - d) / 10 {
            proof {
                let pre = body.subrange(0, i - from);
                lemma_digits_value_step(body, i - from);
                assert(spec_digits_value(body.subrange(0, i - from + 1)) > u64::MAX) by (nonlinear_arith)
                    requires
                        spec_digits_value(body.subrange(0, i - from + 1)) == spec_digits_value(
                            pre,
                        ) * 10 + spec_digit_val(v@[i as int]),
                        spec_digits_value(pre) == acc,
                        acc > (u64::MAX - d) / 10,
                        d == spec_digit_val(v@[i as int]),
                        d <= 9,
                ;
                lemma_digits_value_grows(body, i - from + 1);
            }
            return None;
        }
        proof {
            assert(acc * 10 + d <= u64::MAX) by (nonlinear_arith)
                requires
                    acc <= (u64::MAX - d) / 10,
                    d <= 9,
            ;
            lemma_digits_value_step(body, i - from);
        }
        acc = acc * 10 + d;
        i += 1;
    }
    proof {
        assert(body.subrange(0, body.len() as int) =~= body);
    }
    Some(acc)
}

/// A digit string's value never shrinks as it is extended to the right.
proof fn lemma_digits_value_grows(s: Seq<char>, i: int)
    requires
        0 <= i <= s.len(),
    ensures
        spec_digits_value(s.subrange(0, i)) <= spec_digits_value(s),
    decreases s.len() - i,
{
    if i < s.len() {
        lemma_digits_value_step(s, i);
        assert(spec_digits_value(s.subrange(0, i)) * 10 >= spec_digits_value(
            s.subrange(0, i),
        )) by (nonlinear_arith);
        lemma_digits_value_grows(s, i + 1);
    } else {
        assert(s.subrange(0, i) =~= s);
    }
}

/// Reads an unsigned 64-bit decimal, accepting an optional leading `+`.
pub fn parse_u64(s: &str) -> (r: Option<u64>)
    ensures
        r == spec_parse_u64(s@),
{
    let v = chars_vec(s);
    if v.len() == 0 {
        return None;
    }
    let from: usize = if v[0] == '+' {
        1
    } else {
        0
    };
    if from >= v.len() {
        proof {
            assert(spec_unsigned_body(s@).len() == 0);
        }
        return None;
    }
    let r = parse_digits(&v, from);
    proof {
        assert(spec_unsigned_body(s@) =~= v@.subrange(from as int, v@.len() as int));
    }
    r
}

/// Reads a signed 64-bit decimal, accepting an optional leading sign.
pub fn parse_i64(s: &str) -> (r: Option<i64>)
    ensures
        r == spec_parse_i64(s@),
{
    let v = chars_vec(s);
    if v.len() == 0 {
        return None;
    }
    let neg = v[0] == '-';
    let from: usize = if v[0] == '-' || v[0] == '+' {
        1
    } else {
        0
    };
    if from >= v.len() {
        proof {
            assert(spec_signed_body(s@).len() == 0);
        }
        return None;
    }
    let digits = parse_digits(&v, from);
    proof {
        assert(spec_signed_body(s@) =~= v@.subrange(from as int, v@.len() as int));
    }
    match digits {
        Option::None => None,
        Option::Some(n) => {
            if neg {
                if n <= 0x8000_0000_0000_0000 {
                    if n == 0x8000_0000_0000_0000 {
                        Some(i64::MIN)
                    } else {
                        Some(-(n as i64))
                    }
                } else {
                    None
                }
            } else {
                if n <= i64::MAX as u64 {
                    Some(n as i64)
                } else {
                    None
                }
            }
        },
    }
}

/// The decimal digit character for a value below ten.
pub open spec fn spec_digit_char(d: nat) -> char {
    ((d + ('0' as nat)) as u8) as char
}

/// Decimal expansion of an unsigned value, most significant digit first.
pub open spec fn spec_dec_digits(n: nat) -> Seq<char>
    decreases n,
{
    if n < 10 {
        seq![spec_digit_char(n)]
    } else {
        spec_dec_digits(n / 10).push(spec_digit_char(n % 10))
    }
}

/// Decimal rendering of a signed value: a `-` sign on negatives.
pub open spec fn spec_dec_i64(n: i64) -> Seq<char> {
    if n < 0 {
        seq!['-'] + spec_dec_digits((-(n as int)) as nat)
    } else {
        spec_dec_digits(n as nat)
    }
}

/// Writes an unsigned value in decimal.
pub fn format_u64(n: u64) -> (r: String)
    ensures
        r@ == spec_dec_digits(n as nat),
{
    let mut rev: Vec<char> = Vec::new();
    let mut cur: u64 = n;
    while cur >= 10
        invariant
            spec_dec_digits(n as nat) =~= spec_dec_digits(cur as nat) + rev@.reverse(),
        decreases cur,
    {
        let d: u8 = (cur % 10) as u8;
        let c: char = (d + 48) as char;
        proof {
            assert(c == spec_digit_char((cur % 10) as nat));
            assert((rev@.push(c)).reverse() =~= seq![c] + rev@.reverse());
            assert(spec_dec_digits((cur / 10) as nat).push(c) + rev@.reverse()
                =~= spec_dec_digits((cur / 10) as nat) + (seq![c] + rev@.reverse()));
        }
        rev.push(c);
        cur = cur / 10;
    }
    let d: u8 = (cur % 10) as u8;
    let c: char = (d + 48) as char;
    proof {
        assert(cur % 10 == cur as nat);
        assert(c == spec_digit_char(cur as nat));
        assert((rev@.push(c)).reverse() =~= seq![c] + rev@.reverse());
        assert(spec_dec_digits(cur as nat) =~= seq![c]);
        assert(seq![c] + rev@.reverse() =~= spec_dec_digits(cur as nat) + rev@.reverse());
    }
    rev.push(c);
    let mut out: Vec<char> = Vec::new();
    let mut i: usize = rev.len();
    while i > 0
        invariant
            i <= rev@.len(),
            out@ =~= rev@.subrange(i as int, rev@.len() as int).reverse(),
        decreases i,
    {
        i -= 1;
        out.push(rev[i]);
        proof {
            assert(out@ =~= rev@.subrange(i as int, rev@.len() as int).reverse());
        }
    }
    proof {
        assert(rev@.subrange(0, rev@.len() as int) =~= rev@);
        assert(out@ =~= spec_dec_digits(n as nat));
    }
    string_from_chars(&out)
}

/// Writes a signed value in decimal.
pub fn format_i64(n: i64) -> (r: String)
    ensures
        r@ == spec_dec_i64(n),
{
    if n < 0 {
        let mag: u64 = if n == i64::MIN {
            0x8000_0000_0000_0000
        } else {
            (-n) as u64
        };
        let digits = format_u64(mag);
        let dv = chars_vec(digits.as_str());
        let mut out: Vec<char> = Vec::new();
        out.push('-');
        let mut i: usize = 0;
        while i < dv.len()
            invariant
                i <= dv@.len(),
                dv@ == spec_dec_digits(mag as nat),
                out@ =~= seq!['-'] + dv@.subrange(0, i as int),
            decreases dv.len() - i,
        {
            out.push(dv[i]);
            proof {
                assert(out@ =~= seq!['-'] + dv@.subrange(0, i as int + 1));
            }
            i += 1;
        }
        proof {
            assert(dv@.subrange(0, dv@.len() as int) =~= dv@);
            assert(out@ =~= spec_dec_i64(n));
        }
        string_from_chars(&out)
    } else {
        format_u64(n as u64)
    }
}

} // verus!
