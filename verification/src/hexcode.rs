//! Hexadecimal encoding and decoding, specified character by character.
//! Decoding accepts both letter cases; encoding emits lowercase digits.

use vstd::prelude::*;
use vstd::string::StrSliceExecFns;
use crate::text::chars_of;

verus! {

/// Hexadecimal digit test: '0'-'9', 'a'-'f', 'A'-'F'.
pub open spec fn is_hex_digit(c: char) -> bool {
    (48 <= c as u32 && c as u32 <= 57) || (97 <= c as u32 && c as u32 <= 102) || (65 <= c as u32
        && c as u32 <= 70)
}

/// Numeric value of a hexadecimal digit character.
pub open spec fn hex_digit_value(c: char) -> nat {
    if 48 <= c as u32 && c as u32 <= 57 {
        (c as u32 - 48) as nat
    } else if 97 <= c as u32 && c as u32 <= 102 {
        (c as u32 - 87) as nat
    } else {
        (c as u32 - 55) as nat
    }
}

/// Every character of `s` is a hexadecimal digit.
pub open spec fn is_hex_seq(s: Seq<char>) -> bool {
    forall|i: int| 0 <= i < s.len() ==> is_hex_digit(s[i])
}

/// The bytes written by an even-length hexadecimal string, two digits per
/// byte, high nibble first.
pub open spec fn hex_decoded(s: Seq<char>) -> Seq<u8> {
    Seq::new(
        s.len() / 2,
        |i: int| (hex_digit_value(s[2 * i]) * 16 + hex_digit_value(s[2 * i + 1])) as u8,
    )
}

/// The ASCII byte of the lowercase hexadecimal digit for `v` < 16.
pub open spec fn hex_digit_byte(v: nat) -> u8 {
    if v < 10 {
        (48 + v) as u8
    } else {
        (87 + v) as u8
    }
}

/// The lowercase hexadecimal rendering of `b`, two characters per byte.
pub open spec fn hex_encoded(b: Seq<u8>) -> Seq<char> {
    Seq::new(
        b.len() * 2,
        |i: int|
            if i % 2 == 0 {
                hex_digit_byte((b[i / 2] / 16) as nat) as char
            } else {
                hex_digit_byte((b[i / 2] % 16) as nat) as char
            },
    )
}

/// Value of one hexadecimal digit character, `None` for any other character.
pub fn hex_digit_value_of(c: char) -> (r: Option<u8>)
    ensures
        r is Some <==> is_hex_digit(c),
        r matches Some(v) ==> v as nat == hex_digit_value(c) && v < 16,
{
    let u: u32 = c as u32;
    if 48 <= u && u <= 57 {
        Some((u - 48) as u8)
    } else if 97 <= u && u <= 102 {
        Some((u - 87) as u8)
    } else if 65 <= u && u <= 70 {
        Some((u - 55) as u8)
    } else {
        None
    }
}

/// ASCII byte of the lowercase hexadecimal digit for `v`.
fn hex_digit_byte_of(v: u8) -> (r: u8)
    requires
        v < 16,
    ensures
        r == hex_digit_byte(v as nat),
        r < 128,
{
    if v < 10 {
        48 + v
    } else {
        87 + v
    }
}

/// Decodes a hexadecimal string to bytes. Returns `Some` exactly when the
/// string has even length and holds only hexadecimal digits.
pub fn hex_decode(s: &str) -> (r: Option<Vec<u8>>)
    ensures
        r is Some <==> (s@.len() % 2 == 0 && is_hex_seq(s@)),
        r matches Some(v) ==> v@ == hex_decoded(s@),
{
    let n = s.unicode_len();
    if n % 2 != 0 {
        return None;
    }
    let mut out: Vec<u8> = Vec::new();
    let mut i: usize = 0;
    while i < n / 2
        invariant
            n == s@.len(),
            n % 2 == 0,
            i <= n / 2,
            out@.len() == i as int,
            forall|j: int| 0 <= j < 2 * i ==> is_hex_digit(s@[j]),
            forall|j: int| 0 <= j < i ==> out@[j] == hex_decoded(s@)[j],
        decreases n / 2 - i,
    {
        let c1 = s.get_char(2 * i);
        let c2 = s.get_char(2 * i + 1);
        let v1 = match hex_digit_value_of(c1) {
            Some(v) => v,
            None => {
                assert(!is_hex_digit(s@[2 * i as int]));
                return None;
            },
        };
        let v2 = match hex_digit_value_of(c2) {
            Some(v) => v,
            None => {
                assert(!is_hex_digit(s@[2 * i as int + 1]));
                return None;
            },
        };
        out.push(v1 * 16 + v2);
        i += 1;
    }
    proof {
        assert(out@ =~= hex_decoded(s@));
    }
    Some(out)
}

/// Encodes bytes as a lowercase hexadecimal string.
pub fn hex_encode(bytes: &Vec<u8>) -> (r: String)
    ensures
        r@ == hex_encoded(bytes@),
{
    let mut buf: Vec<u8> = Vec::new();
    let mut i: usize = 0;
    while i < bytes.len()
        invariant
            i <= bytes@.len(),
            buf@.len() == 2 * i,
            forall|j: int| #![trigger buf@[j]] 0 <= j < buf@.len() ==> buf@[j] < 128,
            forall|j: int|
                #![trigger buf@[j]]
                0 <= j < buf@.len() ==> buf@[j] as char == hex_encoded(bytes@)[j],
        decreases bytes@.len() - i,
    {
        let ghost buf0 = buf@;
        let b = bytes[i];
        let hi = hex_digit_byte_of(b / 16);
        let lo = hex_digit_byte_of(b % 16);
        buf.push(hi);
        buf.push(lo);
        proof {
            assert(buf@ == buf0.push(hi).push(lo));
            assert forall|j: int| 0 <= j < buf@.len() implies #[trigger] buf@[j] < 128 && buf@[j]
                as char == hex_encoded(bytes@)[j] by {
                if j < buf0.len() {
                    assert(buf@[j] == buf0[j]);
                } else if j == 2 * i {
                    assert(buf@[j] == hi);
                    assert(hex_encoded(bytes@)[j] == hex_digit_byte(
                        (bytes@[i as int] / 16) as nat,
                    ) as char);
                } else {
                    assert(buf@[j] == lo);
                    assert(hex_encoded(bytes@)[j] == hex_digit_byte(
                        (bytes@[i as int] % 16) as nat,
                    ) as char);
                }
            }
        }
        i += 1;
    }
    let r = crate::text::ascii_string(buf);
    proof {
        assert(r@ =~= hex_encoded(bytes@));
    }
    r
}

} // verus!
