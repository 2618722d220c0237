//! Small string utilities shared by validation, configuration and the
//! services: character-level comparison and search, decimal rendering
//! of integers, and thin trusted wrappers around the std string
//! operations that vstd gives no specification for.

use vstd::prelude::*;
use vstd::string::StrSliceExecFns;

verus! {

/// `p` is a prefix of `s`, character by character.
pub open spec fn str_has_prefix(s: Seq<char>, p: Seq<char>) -> bool {
    p.len() <= s.len() && s.subrange(0, p.len() as int) == p
}

/// The character for one decimal digit.
pub open spec fn dec_digit_char(d: int) -> char {
    if d == 0 {
        '0'
    } else if d == 1 {
        '1'
    } else if d == 2 {
        '2'
    } else if d == 3 {
        '3'
    } else if d == 4 {
        '4'
    } else if d == 5 {
        '5'
    } else if d == 6 {
        '6'
    } else if d == 7 {
        '7'
    } else if d == 8 {
        '8'
    } else {
        '9'
    }
}

/// The decimal rendering of `n`, most significant digit first, with no
/// leading zeros (and `"0"` for zero).
pub open spec fn dec_str_of(n: nat) -> Seq<char>
    decreases n,
{
    if n < 10 {
        seq![dec_digit_char(n as int)]
    } else {
        dec_str_of(n / 10).push(dec_digit_char((n % 10) as int))
    }
}

/// Relies on `String::push`: appends exactly the one character.
#[verifier::external_body]
pub fn push_char(s: &mut String, c: char)
    ensures
        final(s)@ == old(s)@.push(c),
{
    s.push(c)
}

/// What `str::trim` leaves of a string; it depends on the characters
/// alone.
pub uninterp spec fn trim_of(s: Seq<char>) -> Seq<char>;

/// Relies on `str::trim`: removes leading and trailing whitespace, so
/// the result is never longer than the input, and trimming an empty
/// string yields an empty string.
#[verifier::external_body]
pub fn trim(s: &str) -> (r: &str)
    ensures
        r@ == trim_of(s@),
        r@.len() <= s@.len(),
        s@.len() == 0 ==> r@.len() == 0,
{
    s.trim()
}

/// What `str::to_lowercase` makes of a string; it depends on the
/// characters alone.
pub uninterp spec fn lower_of(s: Seq<char>) -> Seq<char>;

/// Relies on `str::to_lowercase`: Unicode lowercasing, which maps an
/// empty string to an empty string.
#[verifier::external_body]
pub fn to_lowercase(s: &str) -> (r: String)
    ensures
        r@ == lower_of(s@),
        s@.len() == 0 ==> r@.len() == 0,
{
    s.to_lowercase()
}

/// Whether `char::is_alphanumeric` holds of the character; it depends
/// on the character alone.
pub uninterp spec fn unicode_alphanumeric(c: char) -> bool;

/// Relies on `char::is_alphanumeric`: true exactly for Unicode
/// alphabetic and numeric characters, which include the ASCII letters
/// and digits.
#[verifier::external_body]
pub fn char_is_alphanumeric(c: char) -> (r: bool)
    ensures
        r == unicode_alphanumeric(c),
        48 <= c as u32 <= 57 || 65 <= c as u32 <= 90 || 97 <= c as u32 <= 122 ==> r,
{
    c.is_alphanumeric()
}

/// Character-by-character string equality.
pub fn str_eq(a: &str, b: &str) -> (r: bool)
    ensures
        r == (a@ == b@),
{
    let alen = a.unicode_len();
    let blen = b.unicode_len();
    if alen != blen {
        return false;
    }
    let mut i: usize = 0;
    while i < alen
        invariant
            alen == a@.len(),
            alen == b@.len(),
            i <= alen,
            forall|j: int| 0 <= j < i ==> a@[j] == b@[j],
        decreases alen - i,
    {
        if a.get_char(i) != b.get_char(i) {
            return false;
        }
        i += 1;
    }
    proof {
        assert(a@ =~= b@);
    }
    true
}

/// Whether `p` is a prefix of `s`.
pub fn has_prefix(s: &str, p: &str) -> (r: bool)
    ensures
        r == str_has_prefix(s@, p@),
{
    let plen = p.unicode_len();
    let slen = s.unicode_len();
    if plen > slen {
        return false;
    }
    let mut i: usize = 0;
    while i < plen
        invariant
            plen == p@.len(),
            slen == s@.len(),
            plen <= slen,
            i <= plen,
            forall|j: int| 0 <= j < i ==> s@[j] == p@[j],
        decreases plen - i,
    {
        if s.get_char(i) != p.get_char(i) {
            proof {
                assert(s@.subrange(0, p@.len() as int)[i as int] == s@[i as int]);
            }
            return false;
        }
        i += 1;
    }
    proof {
        assert(s@.subrange(0, p@.len() as int) =~= p@);
    }
    true
}

/// Whether the string contains the character.
pub fn contains_char(s: &str, c: char) -> (r: bool)
    ensures
        r == s@.contains(c),
{
    let len = s.unicode_len();
    let mut i: usize = 0;
    while i < len
        invariant
            len == s@.len(),
            i <= len,
            forall|j: int| 0 <= j < i ==> s@[j] != c,
        decreases len - i,
    {
        if s.get_char(i) == c {
            return true;
        }
        i += 1;
    }
    false
}

/// The character for one decimal digit.
fn digit_char(d: u64) -> (c: char)
    requires
        d < 10,
    ensures
        c == dec_digit_char(d as int),
{
    if d == 0 {
        '0'
    } else if d == 1 {
        '1'
    } else if d == 2 {
        '2'
    } else if d == 3 {
        '3'
    } else if d == 4 {
        '4'
    } else if d == 5 {
        '5'
    } else if d == 6 {
        '6'
    } else if d == 7 {
        '7'
    } else if d == 8 {
        '8'
    } else {
        '9'
    }
}

/// Renders an integer in decimal, most significant digit first.
pub fn u64_to_string(n: u64) -> (r: String)
    ensures
        r@ == dec_str_of(n as nat),
{
    let mut s = String::new();
    if n == 0 {
        push_char(&mut s, '0');
        return s;
    }
    let mut digits: Vec<char> = Vec::new();
    let mut m: u64 = n;
    while m > 0
        invariant
            m > 0 ==> dec_str_of(n as nat) == dec_str_of(m as nat) + digits@.reverse(),
            m == 0 ==> dec_str_of(n as nat) == digits@.reverse(),
        decreases m,
    {
        let ghost old_digits = digits@;
        let ghost old_m = m as nat;
        let c = digit_char(m % 10);
        digits.push(c);
        m = m / 10;
        proof {
            assert(digits@.reverse() =~= seq![c] + old_digits.reverse());
            if old_m < 10 {
                assert(dec_str_of(old_m) == seq![dec_digit_char(old_m as int)]);
                assert(dec_str_of(n as nat) =~= digits@.reverse());
            } else {
                assert(dec_str_of(old_m) == dec_str_of(old_m / 10).push(
                    dec_digit_char((old_m % 10) as int),
                ));
                assert(dec_str_of(old_m) =~= dec_str_of(m as nat) + seq![c]);
                assert(dec_str_of(m as nat) + seq![c] + old_digits.reverse() =~= dec_str_of(
                    m as nat,
                ) + digits@.reverse());
                assert(dec_str_of(n as nat) =~= dec_str_of(m as nat) + digits@.reverse());
            }
        }
    }
    let ghost rev = digits@.reverse();
    let mut i: usize = digits.len();
    while i > 0
        invariant
            i <= digits@.len(),
            rev == digits@.reverse(),
            dec_str_of(n as nat) == rev,
            s@ == rev.subrange(0, digits@.len() - i),
        decreases i,
    {
        let ghost j = digits@.len() - i;
        let c = digits[i - 1];
        proof {
            assert(rev[j] == digits@[digits@.len() - 1 - j]);
        }
        push_char(&mut s, c);
        i -= 1;
        proof {
            assert(s@ =~= rev.subrange(0, digits@.len() - i));
        }
    }
    proof {
        assert(s@ =~= rev);
    }
    s
}

} // verus!
