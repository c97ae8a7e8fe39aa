//! Character- and byte-level text helpers shared by the amount converter,
//! the hex codec and the signer: ASCII classification, whitespace trimming,
//! and rendering ASCII byte buffers as strings.

use vstd::prelude::*;

verus! {

/// The characters that stand for the bytes, one per byte.
pub open spec fn chars_of(b: Seq<u8>) -> Seq<char> {
    Seq::new(b.len(), |i: int| b[i] as char)
}

/// ASCII whitespace recognized when trimming: space, tab, line feed,
/// carriage return.
pub open spec fn is_ascii_space(c: char) -> bool {
    c == ' ' || c == '\t' || c == '\n' || c == '\r'
}

/// Index of the first non-whitespace character at or after `from`, or the
/// length of `s` when only whitespace remains.
pub open spec fn first_non_space(s: Seq<char>, from: int) -> int
    decreases s.len() - from,
{
    if from < 0 || from >= s.len() {
        s.len() as int
    } else if is_ascii_space(s[from]) {
        first_non_space(s, from + 1)
    } else {
        from
    }
}

/// End (exclusive) of the last non-whitespace character strictly before
/// `upto`, or 0 when only whitespace precedes `upto`.
pub open spec fn last_non_space_end(s: Seq<char>, upto: int) -> int
    decreases upto,
{
    if upto <= 0 || upto > s.len() {
        0
    } else if is_ascii_space(s[upto - 1]) {
        last_non_space_end(s, upto - 1)
    } else {
        upto
    }
}

/// What remains of `s` after trimming ASCII whitespace from both ends.
pub open spec fn trimmed(s: Seq<char>) -> Seq<char> {
    let a = first_non_space(s, 0);
    let b = last_non_space_end(s, s.len() as int);
    if a <= b {
        s.subrange(a, b)
    } else {
        Seq::empty()
    }
}

/// Decimal digit test: '0' through '9'.
pub open spec fn is_dec_digit(c: char) -> bool {
    48 <= c as u32 && c as u32 <= 57
}

/// Every character of `s` is a decimal digit.
pub open spec fn all_digits(s: Seq<char>) -> bool {
    forall|i: int| 0 <= i < s.len() ==> is_dec_digit(s[i])
}

/// Numeric value of a decimal digit character.
pub open spec fn dec_digit_value(c: char) -> nat {
    (c as u32 - 48) as nat
}

/// Relies on `String::from_utf8`: bytes below 128 are ASCII, are valid
/// UTF-8, and decode to the characters with the same code points.
#[verifier::external_body]
pub(crate) fn ascii_string(bytes: Vec<u8>) -> (r: String)
    requires
        forall|i: int| 0 <= i < bytes@.len() ==> bytes@[i] < 128,
    ensures
        r@ == chars_of(bytes@),
{
    String::from_utf8(bytes).expect("ASCII bytes are valid UTF-8")
}

/// Trims ASCII whitespace from both ends of `s`.
pub fn trim_str<'a>(s: &'a str) -> (r: &'a str)
    ensures
        r@ == trimmed(s@),
{
    let n = s.unicode_len();
    let mut a: usize = 0;
    while a < n && is_space_char(s.get_char(a))
        invariant
            n == s@.len(),
            0 <= a <= n,
            first_non_space(s@, 0) == first_non_space(s@, a as int),
        decreases n - a,
    {
        a += 1;
    }
    proof {
        assert(first_non_space(s@, 0) == a as int);
    }
    let mut b: usize = n;
    while b > 0 && is_space_char(s.get_char(b - 1))
        invariant
            n == s@.len(),
            0 <= b <= n,
            last_non_space_end(s@, n as int) == last_non_space_end(s@, b as int),
        decreases b,
    {
        b -= 1;
    }
    proof {
        assert(last_non_space_end(s@, n as int) == b as int);
    }
    if a <= b {
        let r = s.substring_char(a, b);
        proof {
            assert(r@ =~= trimmed(s@));
        }
        r
    } else {
        let r = s.substring_char(0, 0);
        proof {
            assert(r@ =~= trimmed(s@));
        }
        r
    }
}

/// Whether two strings hold the same characters.
pub fn str_eq(a: &str, b: &str) -> (r: bool)
    ensures
        r == (a@ == b@),
{
    let n = a.unicode_len();
    let m = b.unicode_len();
    if n != m {
        return false;
    }
    let mut i: usize = 0;
    while i < n
        invariant
            n == a@.len(),
            n == b@.len(),
            0 <= i <= n,
            forall|j: int| 0 <= j < i ==> a@[j] == b@[j],
        decreases n - i,
    {
        if a.get_char(i) != b.get_char(i) {
            return false;
        }
        i += 1;
    }
    proof {
        assert(a@ =~= b@);
    }
    true
}

/// Exec mirror of `is_ascii_space`.
pub fn is_space_char(c: char) -> (r: bool)
    ensures
        r == is_ascii_space(c),
{
    c == ' ' || c == '\t' || c == '\n' || c == '\r'
}

/// Exec mirror of `is_dec_digit`.
pub fn is_dec_digit_char(c: char) -> (r: bool)
    ensures
        r == is_dec_digit(c),
{
    let u: u32 = c as u32;
    48 <= u && u <= 57
}

/// Numeric value of a decimal digit character.
pub fn dec_digit_value_of(c: char) -> (r: u8)
    requires
        is_dec_digit(c),
    ensures
        r as nat == dec_digit_value(c),
        r < 10,
{
    let u: u32 = c as u32;
    (u - 48) as u8
}

} // verus!
