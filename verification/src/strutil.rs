//! String helpers: equality, character access, case folding, substring
//! search, and decimal parsing and formatting, specified over character
//! sequences. The few places where std exposes an operation only through
//! an iterator or an unspecified method are trusted wrappers; everything
//! built on them is verified.

use vstd::prelude::*;

verus! {

/// Relies on `str`'s `PartialEq`: two slices are equal exactly when their
/// character sequences are.
#[verifier::external_body]
pub fn str_eq(a: &str, b: &str) -> (r: bool)
    ensures
        r == (a@ == b@),
{
    a == b
}

/// Relies on `String::push`: appends one character.
#[verifier::external_body]
pub fn push_char(s: &mut String, c: char)
    ensures
        final(s)@ == old(s)@.push(c),
{
    s.push(c);
}

/// Relies on `str::chars`: yields the characters of the slice in order.
#[verifier::external_body]
pub fn chars_vec(s: &str) -> (r: Vec<char>)
    ensures
        r@ == s@,
{
    s.chars().collect()
}

/// Relies on `str::chars`: the first character of the slice, if any.
#[verifier::external_body]
pub fn first_char(s: &str) -> (r: Option<char>)
    ensures
        r == (if s@.len() == 0 {
            Option::<char>::None
        } else {
            Option::Some(s@[0])
        }),
{
    s.chars().next()
}

/// Builds a string out of a character sequence.
pub fn string_from_chars(v: &Vec<char>) -> (r: String)
    ensures
        r@ == v@,
{
    let mut out = String::new();
    let mut i: usize = 0;
    while i < v.len()
        invariant
            i <= v.len(),
            out@ == v@.subrange(0, i as int),
        decreases v.len() - i,
    {
        push_char(&mut out, v[i]);
        proof {
            assert(out@ =~= v@.subrange(0, i as int + 1));
        }
        i += 1;
    }
    proof {
        assert(out@ =~= v@);
    }
    out
}

/// ASCII lower-casing of one character: `A`..`Z` map down, all else stays.
pub open spec fn spec_lower_char(c: char) -> char {
    if 'A' <= c && c <= 'Z' {
        ((c as u8) + 32) as char
    } else {
        c
    }
}

pub open spec fn spec_lower(s: Seq<char>) -> Seq<char> {
    s.map_values(|c: char| spec_lower_char(c))
}

/// Lower-cases the ASCII letters of a string, leaving other characters.
pub fn ascii_lower(s: &str) -> (r: String)
    ensures
        r@ == spec_lower(s@),
{
    let v = chars_vec(s);
    let mut out: Vec<char> = Vec::new();
    let mut i: usize = 0;
    while i < v.len()
        invariant
            i <= v.len(),
            v@ == s@,
            out@ == spec_lower(s@.subrange(0, i as int)),
        decreases v.len() - i,
    {
        let c = v[i];
        let lc: char = if 'A' <= c && c <= 'Z' {
            (((c as u8) + 32) as char)
        } else {
            c
        };
        out.push(lc);
        proof {
            assert(out@ =~= spec_lower(s@.subrange(0, i as int + 1)));
        }
        i += 1;
    }
    proof {
        assert(s@.subrange(0, s@.len() as int) =~= s@);
    }
    string_from_chars(&out)
}

/// The needle occurs somewhere in the haystack.
pub open spec fn spec_contains(hay: Seq<char>, needle: Seq<char>) -> bool {
    exists|i: int|
        0 <= i <= hay.len() - needle.len() && #[trigger] hay.subrange(i, i + needle.len() as int)
            == needle
}

/// Substring search, first occurrence or nothing.
pub fn str_contains(hay: &str, needle: &str) -> (r: bool)
    ensures
        r == spec_contains(hay@, needle@),
{
    let h = chars_vec(hay);
    let n = chars_vec(needle);
    if n.len() == 0 {
        proof {
            assert(hay@.subrange(0, 0 + needle@.len() as int) =~= needle@);
        }
        return true;
    }
    if n.len() > h.len() {
        proof {
            assert(hay@.len() - needle@.len() < 0);
        }
        return false;
    }
    let mut start: usize = 0;
    let last = h.len() - n.len();
    while start <= last
        invariant
            h@ == hay@,
            n@ == needle@,
            1 <= n.len() <= h.len(),
            last == h@.len() - n@.len(),
            start <= last + 1,
            forall|i: int|
                0 <= i < start ==> #[trigger] hay@.subrange(i, i + needle@.len() as int)
                    != needle@,
        decreases last + 1 - start,
    {
        let mut k: usize = 0;
        let mut hit = true;
        while hit && k < n.len()
            invariant
                h@ == hay@,
                n@ == needle@,
                start + n.len() <= h.len(),
                k <= n.len(),
                hit ==> forall|m: int| 0 <= m < k ==> hay@[start + m] == needle@[m],
                !hit ==> hay@.subrange(start as int, start + needle@.len() as int) != needle@,
            decreases n.len() - k + (if hit { 1int } else { 0int }),
        {
            if h[start + k] != n[k] {
                proof {
                    assert(hay@.subrange(start as int, start + needle@.len() as int)[k as int]
                        != needle@[k as int]);
                }
                hit = false;
            } else {
                k += 1;
            }
        }
        if hit {
            proof {
                assert(hay@.subrange(start as int, start + needle@.len() as int) =~= needle@);
            }
            return true;
        }
        start += 1;
    }
    proof {
        assert forall|i: int|
            0 <= i <= hay@.len() - needle@.len() implies #[trigger] hay@.subrange(
            i,
            i + needle@.len() as int,
        ) != needle@ by {}
    }
    false
}

} // verus!
