//! Conversion of human-readable decimal amounts to integer minor-unit
//! strings. The amount grammar, after trimming ASCII whitespace and an
//! optional leading '+', is decimal digits with at most one decimal point
//! and at least one digit; exponents and signs are rejected. The scaled
//! value is rounded half away from zero, computed exactly on digit strings
//! so that no intermediate floating-point step can truncate it.

use vstd::prelude::*;
use crate::errors::TxError;
use crate::text::all_digits;
use crate::text::dec_digit_value;
use crate::text::is_dec_digit;
use crate::text::trimmed;

verus! {

/// 10 to the power `n`.
pub open spec fn pow10(n: nat) -> nat
    decreases n,
{
    if n == 0 {
        1
    } else {
        10 * pow10((n - 1) as nat)
    }
}

/// Index of the first '.' at or after `from`, or the length of `s` when no
/// '.' follows.
pub open spec fn first_dot(s: Seq<char>, from: int) -> int
    decreases s.len() - from,
{
    if from < 0 || from >= s.len() {
        s.len() as int
    } else if s[from] == '.' {
        from
    } else {
        first_dot(s, from + 1)
    }
}

/// The amount with whitespace trimmed and any leading '+' sign removed.
pub open spec fn amount_body(s: Seq<char>) -> Seq<char> {
    let t = trimmed(s);
    if t.len() > 0 && t[0] == '+' {
        t.subrange(1, t.len() as int)
    } else {
        t
    }
}

/// Digits before the decimal point.
pub open spec fn int_digits(s: Seq<char>) -> Seq<char> {
    let b = amount_body(s);
    b.subrange(0, first_dot(b, 0))
}

/// Digits after the decimal point; empty when there is no point.
pub open spec fn frac_digits(s: Seq<char>) -> Seq<char> {
    let b = amount_body(s);
    if first_dot(b, 0) < b.len() {
        b.subrange(first_dot(b, 0) + 1, b.len() as int)
    } else {
        Seq::empty()
    }
}

/// A valid amount: every character around the single optional decimal point
/// is a decimal digit, and there is at least one digit.
pub open spec fn valid_amount(s: Seq<char>) -> bool {
    all_digits(int_digits(s)) && all_digits(frac_digits(s)) && int_digits(s).len() + frac_digits(
        s,
    ).len() >= 1
}

/// Numeric value of a decimal digit string, most significant digit first.
pub open spec fn digits_value(s: Seq<char>) -> nat
    decreases s.len(),
{
    if s.len() == 0 {
        0
    } else {
        digits_value(s.drop_last()) * 10 + dec_digit_value(s.last())
    }
}

/// The minor-unit integer: the amount times 10^decimals, rounded half away
/// from zero. Rounding up happens exactly when the first dropped fractional
/// digit is 5 or more.
pub open spec fn scaled_value(s: Seq<char>, d: nat) -> nat {
    let f = frac_digits(s).len();
    if d >= f {
        digits_value(int_digits(s) + frac_digits(s)) * pow10((d - f) as nat)
    } else {
        let kept = digits_value(int_digits(s) + frac_digits(s).take(d as int));
        if dec_digit_value(frac_digits(s)[d as int]) >= 5 {
            kept + 1
        } else {
            kept
        }
    }
}

/// A canonical non-negative integer rendering: at least one digit, and no
/// leading zero unless the value is exactly "0".
pub open spec fn canonical_digits(s: Seq<char>) -> bool {
    all_digits(s) && s.len() >= 1 && (s.len() > 1 ==> s[0] != '0')
}

/// Numeric value of a sequence of digit values (0 through 9), most
/// significant first.
pub open spec fn digit_vals_value(s: Seq<u8>) -> nat
    decreases s.len(),
{
    if s.len() == 0 {
        0
    } else {
        digit_vals_value(s.drop_last()) * 10 + s.last() as nat
    }
}

/// `v` holds exactly the digit values of the digit characters `c`.
pub open spec fn digit_vals_of(v: Seq<u8>, c: Seq<char>) -> bool {
    v.len() == c.len() && forall|i: int| 0 <= i < v.len() ==> v[i] == dec_digit_value(c[i])
}

proof fn lemma_digit_vals_value_eq(v: Seq<u8>, c: Seq<char>)
    requires
        digit_vals_of(v, c),
    ensures
        digit_vals_value(v) == digits_value(c),
    decreases v.len(),
{
    if v.len() > 0 {
        assert(digit_vals_of(v.drop_last(), c.drop_last()));
        lemma_digit_vals_value_eq(v.drop_last(), c.drop_last());
        assert(v.last() == dec_digit_value(c.last()));
    }
}

proof fn lemma_concat_value(a: Seq<u8>, b: Seq<u8>)
    ensures
        digit_vals_value(a + b) == digit_vals_value(a) * pow10(b.len()) + digit_vals_value(b),
    decreases b.len(),
{
    if b.len() == 0 {
        assert(a + b =~= a);
        assert(digit_vals_value(b) == 0);
        assert(pow10(b.len()) == 1);
        assert(digit_vals_value(a) * 1 == digit_vals_value(a)) by (nonlinear_arith);
    } else {
        lemma_concat_value(a, b.drop_last());
        assert((a + b).drop_last() =~= a + b.drop_last());
        assert((a + b).last() == b.last());
        let p = pow10((b.len() - 1) as nat);
        assert(pow10(b.len()) == 10 * p);
        assert(digit_vals_value(a + b) == digit_vals_value(a + b.drop_last()) * 10 + b.last());
        assert(digit_vals_value(a + b.drop_last()) == digit_vals_value(a) * p + digit_vals_value(
            b.drop_last(),
        ));
        assert((digit_vals_value(a) * p + digit_vals_value(b.drop_last())) * 10 == digit_vals_value(
            a,
        ) * (10 * p) + digit_vals_value(b.drop_last()) * 10) by (nonlinear_arith);
        assert(digit_vals_value(b) == digit_vals_value(b.drop_last()) * 10 + b.last());
        assert(digit_vals_value(a + b) == digit_vals_value(a) * (10 * p) + digit_vals_value(b));
        assert(digit_vals_value(a) * (10 * p) == digit_vals_value(a) * pow10(b.len()));
        assert(digit_vals_value(a + b) == digit_vals_value(a) * pow10(b.len()) + digit_vals_value(
            b,
        ));
    }
}

proof fn lemma_value_bound(v: Seq<u8>)
    requires
        forall|i: int| 0 <= i < v.len() ==> v[i] < 10,
    ensures
        digit_vals_value(v) < pow10(v.len()),
    decreases v.len(),
{
    if v.len() > 0 {
        lemma_value_bound(v.drop_last());
    }
}

proof fn lemma_zeros_value(v: Seq<u8>)
    requires
        forall|i: int| 0 <= i < v.len() ==> v[i] == 0,
    ensures
        digit_vals_value(v) == 0,
    decreases v.len(),
{
    if v.len() > 0 {
        lemma_zeros_value(v.drop_last());
    }
}

proof fn lemma_nines_value(v: Seq<u8>)
    requires
        forall|i: int| 0 <= i < v.len() ==> v[i] == 9,
    ensures
        digit_vals_value(v) + 1 == pow10(v.len()),
    decreases v.len(),
{
    if v.len() > 0 {
        lemma_nines_value(v.drop_last());
    }
}

/// The digit values of a digit string.
pub open spec fn digit_vals_seq(c: Seq<char>) -> Seq<u8> {
    Seq::new(c.len(), |i: int| dec_digit_value(c[i]) as u8)
}

proof fn lemma_digits_value_via_vals(c: Seq<char>)
    requires
        all_digits(c),
    ensures
        digits_value(c) == digit_vals_value(digit_vals_seq(c)),
{
    assert(digit_vals_of(digit_vals_seq(c), c));
    lemma_digit_vals_value_eq(digit_vals_seq(c), c);
}

proof fn lemma_digits_concat(a: Seq<char>, b: Seq<char>)
    requires
        all_digits(a),
        all_digits(b),
    ensures
        digits_value(a + b) == digits_value(a) * pow10(b.len()) + digits_value(b),
{
    assert(all_digits(a + b));
    lemma_digits_value_via_vals(a + b);
    lemma_digits_value_via_vals(a);
    lemma_digits_value_via_vals(b);
    assert(digit_vals_seq(a + b) =~= digit_vals_seq(a) + digit_vals_seq(b));
    lemma_concat_value(digit_vals_seq(a), digit_vals_seq(b));
}

proof fn lemma_digits_bound(c: Seq<char>)
    requires
        all_digits(c),
    ensures
        digits_value(c) < pow10(c.len()),
{
    lemma_digits_value_via_vals(c);
    lemma_value_bound(digit_vals_seq(c));
}

proof fn lemma_pow10_pos(n: nat)
    ensures
        pow10(n) >= 1,
    decreases n,
{
    if n > 0 {
        lemma_pow10_pos((n - 1) as nat);
    }
}

proof fn lemma_pow10_add(a: nat, b: nat)
    ensures
        pow10(a + b) == pow10(a) * pow10(b),
    decreases a,
{
    if a == 0 {
        assert(pow10(b) == 1 * pow10(b)) by (nonlinear_arith);
    } else {
        lemma_pow10_add((a - 1) as nat, b);
        assert(pow10(a + b) == 10 * pow10((a + b - 1) as nat));
        assert(10 * (pow10((a - 1) as nat) * pow10(b)) == (10 * pow10((a - 1) as nat)) * pow10(b))
            by (nonlinear_arith);
    }
}

/// Adds one to a digit-value sequence, carrying as needed.
fn increment_digits(v: Vec<u8>) -> (r: Vec<u8>)
    requires
        forall|i: int| 0 <= i < v@.len() ==> v@[i] < 10,
    ensures
        forall|i: int| 0 <= i < r@.len() ==> r@[i] < 10,
        digit_vals_value(r@) == digit_vals_value(v@) + 1,
        r@.len() >= 1,
{
    let n = v.len();
    let mut p: usize = n;
    while p > 0 && v[p - 1] == 9
        invariant
            n == v@.len(),
            0 <= p <= n,
            forall|j: int| p <= j < n ==> v@[j] == 9,
        decreases p,
    {
        p -= 1;
    }
    let mut out: Vec<u8> = Vec::new();
    if p == 0 {
        out.push(1);
        let mut z: usize = 0;
        while z < n
            invariant
                out@.len() == 1 + z,
                0 <= z <= n,
                out@[0] == 1,
                forall|j: int| 1 <= j < out@.len() ==> out@[j] == 0,
            decreases n - z,
        {
            out.push(0);
            z += 1;
        }
        proof {
            lemma_nines_value(v@);
            let tail = out@.subrange(1, out@.len() as int);
            assert(out@ =~= seq![1u8] + tail);
            lemma_concat_value(seq![1u8], tail);
            lemma_zeros_value(tail);
            assert(seq![1u8].drop_last() =~= Seq::<u8>::empty());
            assert(digit_vals_value(Seq::<u8>::empty()) == 0);
            assert(digit_vals_value(seq![1u8]) == 1);
            assert(digit_vals_value(out@) == 1 * pow10(n as nat) + 0);
            assert(1 * pow10(n as nat) == pow10(n as nat)) by (nonlinear_arith);
        }
    } else {
        let mut i: usize = 0;
        while i < p - 1
            invariant
                0 < p <= n,
                n == v@.len(),
                0 <= i <= p - 1,
                out@ =~= v@.subrange(0, i as int),
                forall|j: int| 0 <= j < v@.len() ==> v@[j] < 10,
            decreases p - i,
        {
            out.push(v[i]);
            i += 1;
        }
        out.push(v[p - 1] + 1);
        let mut z: usize = p;
        while z < n
            invariant
                0 < p <= z <= n,
                n == v@.len(),
                out@.len() == z,
                out@.subrange(0, p - 1) =~= v@.subrange(0, p - 1),
                out@[p - 1] == v@[p - 1] + 1,
                v@[p - 1] < 9,
                forall|j: int| p <= j < out@.len() ==> out@[j] == 0,
                forall|j: int| 0 <= j < v@.len() ==> v@[j] < 10,
            decreases n - z,
        {
            out.push(0);
            z += 1;
        }
        proof {
            let vpre = v@.subrange(0, p as int);
            let vtail = v@.subrange(p as int, n as int);
            assert(v@ =~= vpre + vtail);
            lemma_concat_value(vpre, vtail);
            lemma_nines_value(vtail);
            let opre = out@.subrange(0, p as int);
            let otail = out@.subrange(p as int, n as int);
            assert(out@ =~= opre + otail);
            lemma_concat_value(opre, otail);
            lemma_zeros_value(otail);
            assert(opre.drop_last() =~= vpre.drop_last());
            assert(digit_vals_value(opre) == digit_vals_value(vpre.drop_last()) * 10 + (v@[p - 1]
                + 1));
            assert(digit_vals_value(vpre) == digit_vals_value(vpre.drop_last()) * 10 + v@[p - 1]);
            let q = pow10((n - p) as nat);
            assert(digit_vals_value(v@) == digit_vals_value(vpre) * q + (q - 1));
            assert(digit_vals_value(out@) == (digit_vals_value(vpre) + 1) * q + 0);
            assert((digit_vals_value(vpre) + 1) * q == digit_vals_value(vpre) * q + q)
                by (nonlinear_arith);
        }
    }
    out
}

/// Renders a digit-value sequence as a canonical decimal string, dropping
/// leading zeros.
fn render_digits(v: &Vec<u8>) -> (r: String)
    requires
        forall|i: int| 0 <= i < v@.len() ==> v@[i] < 10,
    ensures
        canonical_digits(r@),
        digits_value(r@) == digit_vals_value(v@),
{
    let n = v.len();
    let mut z: usize = 0;
    while z < n && v[z] == 0
        invariant
            0 <= z <= n,
            n == v@.len(),
            forall|j: int| 0 <= j < z ==> v@[j] == 0,
        decreases n - z,
    {
        z += 1;
    }
    let mut buf: Vec<u8> = Vec::new();
    if z == n {
        buf.push(48);
        let r = crate::text::ascii_string(buf);
        proof {
            lemma_zeros_value(v@);
            assert(r@.len() == 1);
            assert(r@[0] == 48u8 as char);
            assert(digits_value(r@) == digits_value(r@.drop_last()) * 10 + dec_digit_value(r@[0]));
        }
        r
    } else {
        let mut i: usize = z;
        while i < n
            invariant
                z <= i <= n,
                n == v@.len(),
                buf@.len() == i - z,
                forall|j: int| #![trigger buf@[j]]
                    0 <= j < buf@.len() ==> buf@[j] == 48 + v@[z + j] && buf@[j] < 128,
                forall|j: int| 0 <= j < v@.len() ==> v@[j] < 10,
                v@[z as int] != 0,
                forall|j: int| 0 <= j < z ==> v@[j] == 0,
            decreases n - i,
        {
            buf.push(48 + v[i]);
            i += 1;
        }
        let r = crate::text::ascii_string(buf);
        proof {
            let kept = v@.subrange(z as int, n as int);
            assert(digit_vals_of(kept, r@));
            lemma_digit_vals_value_eq(kept, r@);
            let zeros = v@.subrange(0, z as int);
            assert(v@ =~= zeros + kept);
            lemma_concat_value(zeros, kept);
            lemma_zeros_value(zeros);
            assert(0 * pow10(kept.len()) == 0) by (nonlinear_arith);
            assert(r@[0] as u32 != 48);
        }
        r
    }
}

/// Converts a human-readable decimal amount to the minor-unit integer
/// string `round(amount * 10^decimals)`, rounding half away from zero. The
/// rounding is computed exactly on the digit strings, so a fractional
/// amount whose scaled value is not representable in binary floating point
/// is still rounded, never truncated. Rejects with `InvalidAmount` exactly
/// those inputs that are not a plain non-negative decimal number.
#[verifier::loop_isolation(false)]
pub fn human_amount_to_raw(human: &str, decimals: u8) -> (r: Result<String, TxError>)
    ensures
        r is Ok <==> valid_amount(human@),
        r matches Ok(out) ==> canonical_digits(out@) && digits_value(out@) == scaled_value(
            human@,
            decimals as nat,
        ),
        r matches Err(e) ==> e == TxError::InvalidAmount,
{
    let t = crate::text::trim_str(human);
    let tn = t.unicode_len();
    let body: &str = if tn > 0 && t.get_char(0) == '+' {
        t.substring_char(1, tn)
    } else {
        t
    };
    proof {
        assert(body@ =~= amount_body(human@));
    }
    let m = body.unicode_len();
    let mut k: usize = 0;
    while k < m && body.get_char(k) != '.'
        invariant
            0 <= k <= m,
            first_dot(body@, 0) == first_dot(body@, k as int),
        decreases m - k,
    {
        k += 1;
    }
    let ghost iseq = int_digits(human@);
    let ghost fseq = frac_digits(human@);
    proof {
        assert(first_dot(body@, 0) == k as int);
        assert(iseq =~= body@.subrange(0, k as int));
        if k < m {
            assert(fseq =~= body@.subrange(k as int + 1, m as int));
        } else {
            assert(fseq =~= Seq::<char>::empty());
        }
    }
    let mut ivals: Vec<u8> = Vec::new();
    let mut i: usize = 0;
    while i < k
        invariant
            0 <= i <= k,
            ivals@.len() == i,
            forall|j: int| 0 <= j < i ==> is_dec_digit(body@[j]),
            forall|j: int|
                #![trigger ivals@[j]]
                0 <= j < i ==> ivals@[j] == dec_digit_value(body@[j]) && ivals@[j] < 10,
        decreases k - i,
    {
        let c = body.get_char(i);
        if !crate::text::is_dec_digit_char(c) {
            proof {
                assert(!is_dec_digit(iseq[i as int]));
            }
            return Err(TxError::InvalidAmount);
        }
        ivals.push(crate::text::dec_digit_value_of(c));
        i += 1;
    }
    let mut fvals: Vec<u8> = Vec::new();
    if k < m {
        let mut j: usize = k + 1;
        while j < m
            invariant
                k + 1 <= j <= m,
                fvals@.len() == j - (k + 1),
                forall|q: int| k + 1 <= q < j ==> is_dec_digit(body@[q]),
                forall|q: int|
                    #![trigger fvals@[q]]
                    0 <= q < fvals@.len() ==> fvals@[q] == dec_digit_value(body@[k + 1 + q])
                        && fvals@[q] < 10,
            decreases m - j,
        {
            let c = body.get_char(j);
            if !crate::text::is_dec_digit_char(c) {
                proof {
                    assert(!is_dec_digit(fseq[j - (k + 1) as int]));
                }
                return Err(TxError::InvalidAmount);
            }
            fvals.push(crate::text::dec_digit_value_of(c));
            j += 1;
        }
    }
    let flen = fvals.len();
    if k == 0 && flen == 0 {
        return Err(TxError::InvalidAmount);
    }
    proof {
        assert(forall|q: int| 0 <= q < iseq.len() ==> is_dec_digit(iseq[q]));
        assert(forall|q: int| 0 <= q < fseq.len() ==> is_dec_digit(fseq[q]));
        assert(valid_amount(human@));
    }
    let d = decimals as usize;
    let ghost iv0 = ivals@;
    let scaled = scale_digit_vals(ivals, &fvals, d);
    let out = render_digits(&scaled);
    proof {
        if d >= flen {
            assert(digit_vals_of(iv0 + fvals@, iseq + fseq));
            lemma_digit_vals_value_eq(iv0 + fvals@, iseq + fseq);
        } else {
            assert(digit_vals_of(iv0 + fvals@.subrange(0, d as int), iseq + fseq.take(d as int)));
            lemma_digit_vals_value_eq(
                iv0 + fvals@.subrange(0, d as int),
                iseq + fseq.take(d as int),
            );
            assert(fvals@[d as int] == dec_digit_value(fseq[d as int]));
        }
        assert(digits_value(out@) == scaled_value(human@, decimals as nat));
    }
    Ok(out)
}

/// Scales a digit-value pair (integer part, fractional part) by 10^d: keeps
/// `d` fractional digits, padding with zeros or rounding half away from
/// zero on the first dropped digit.
#[verifier::loop_isolation(false)]
fn scale_digit_vals(ivals: Vec<u8>, fvals: &Vec<u8>, d: usize) -> (r: Vec<u8>)
    requires
        forall|i: int| 0 <= i < ivals@.len() ==> ivals@[i] < 10,
        forall|i: int| 0 <= i < fvals@.len() ==> fvals@[i] < 10,
    ensures
        forall|i: int| 0 <= i < r@.len() ==> r@[i] < 10,
        d >= fvals@.len() ==> digit_vals_value(r@) == digit_vals_value(ivals@ + fvals@) * pow10(
            (d - fvals@.len()) as nat,
        ),
        d < fvals@.len() ==> digit_vals_value(r@) == digit_vals_value(
            ivals@ + fvals@.subrange(0, d as int),
        ) + (if fvals@[d as int] >= 5 {
            1nat
        } else {
            0nat
        }),
{
    let flen = fvals.len();
    let ghost iv0 = ivals@;
    let mut digits = ivals;
    let kept = if d < flen {
        d
    } else {
        flen
    };
    let mut x: usize = 0;
    while x < kept
        invariant
            0 <= x <= kept,
            digits@ =~= iv0 + fvals@.subrange(0, x as int),
        decreases kept - x,
    {
        digits.push(fvals[x]);
        x += 1;
    }
    proof {
        assert(forall|q: int| 0 <= q < digits@.len() ==> digits@[q] < 10);
    }
    if d >= flen {
        proof {
            assert(digits@ =~= iv0 + fvals@);
        }
        let ghost base = digit_vals_value(digits@);
        proof {
            assert(base * pow10(0) == base) by (nonlinear_arith);
        }
        let mut zc: usize = 0;
        while zc < d - flen
            invariant
                0 <= zc <= d - flen,
                digits@.len() == iv0.len() + flen + zc,
                forall|q: int| 0 <= q < digits@.len() ==> digits@[q] < 10,
                digit_vals_value(digits@) == base * pow10(zc as nat),
            decreases d - flen - zc,
        {
            let ghost before = digits@;
            digits.push(0);
            proof {
                assert(digits@.drop_last() =~= before);
                assert(digit_vals_value(digits@) == digit_vals_value(before) * 10);
                assert(base * pow10(zc as nat) * 10 == base * (10 * pow10(zc as nat)))
                    by (nonlinear_arith);
                assert(pow10((zc + 1) as nat) == 10 * pow10(zc as nat));
            }
            zc += 1;
        }
        digits
    } else {
        proof {
            assert(digits@ =~= iv0 + fvals@.subrange(0, d as int));
        }
        if fvals[d] >= 5 {
            increment_digits(digits)
        } else {
            digits
        }
    }
}

proof fn lemma_first_dot_scan(s: Seq<char>, from: int, k: int)
    requires
        0 <= from <= k <= s.len(),
        forall|j: int| from <= j < k ==> s[j] != '.',
        k == s.len() || s[k] == '.',
    ensures
        first_dot(s, from) == k,
    decreases k - from,
{
    if from < k {
        lemma_first_dot_scan(s, from + 1, k);
    }
}

/// Renders a minor-unit integer string as a human-readable decimal amount:
/// the digits of `raw` divided by 10^decimals, written exactly, with no
/// trailing fractional zeros and no decimal point when nothing follows it.
/// Converting the result back with the same decimals recovers `raw`'s value
/// exactly. Rejects with `InvalidAmount` exactly those inputs that are not
/// one or more decimal digits.
#[verifier::loop_isolation(false)]
#[verifier::rlimit(100)]
pub fn raw_to_human(raw: &str, decimals: u8) -> (r: Result<String, TxError>)
    ensures
        r is Ok <==> (raw@.len() >= 1 && all_digits(raw@)),
        r matches Ok(out) ==> valid_amount(out@) && scaled_value(out@, decimals as nat)
            == digits_value(raw@),
        r matches Err(e) ==> e == TxError::InvalidAmount,
{
    let n = raw.unicode_len();
    if n == 0 {
        return Err(TxError::InvalidAmount);
    }
    let mut vals: Vec<u8> = Vec::new();
    let mut i: usize = 0;
    while i < n
        invariant
            0 <= i <= n,
            vals@.len() == i,
            forall|j: int| 0 <= j < i ==> is_dec_digit(raw@[j]),
            forall|j: int|
                #![trigger vals@[j]]
                0 <= j < i ==> vals@[j] == dec_digit_value(raw@[j]) && vals@[j] < 10,
        decreases n - i,
    {
        let c = raw.get_char(i);
        if !crate::text::is_dec_digit_char(c) {
            proof {
                assert(!all_digits(raw@));
            }
            return Err(TxError::InvalidAmount);
        }
        vals.push(crate::text::dec_digit_value_of(c));
        i += 1;
    }
    proof {
        assert(all_digits(raw@));
        assert(digit_vals_of(vals@, raw@));
        lemma_digit_vals_value_eq(vals@, raw@);
    }
    let d = decimals as usize;
    // digit values of the integer part and of the full d-digit fraction
    let mut ivals: Vec<u8> = Vec::new();
    let mut fvals: Vec<u8> = Vec::new();
    if n > d {
        let mut j: usize = 0;
        while j < n - d
            invariant
                n > d,
                0 <= j <= n - d,
                ivals@ =~= vals@.subrange(0, j as int),
            decreases n - d - j,
        {
            ivals.push(vals[j]);
            j += 1;
        }
        let mut q: usize = n - d;
        while q < n
            invariant
                n > d,
                n - d <= q <= n,
                fvals@ =~= vals@.subrange(n - d, q as int),
            decreases n - q,
        {
            fvals.push(vals[q]);
            q += 1;
        }
        proof {
            assert(vals@ =~= ivals@ + fvals@);
        }
    } else {
        ivals.push(0);
        let mut z: usize = 0;
        while z < d - n
            invariant
                0 <= z <= d - n,
                fvals@.len() == z,
                forall|j: int| 0 <= j < z ==> fvals@[j] == 0,
            decreases d - n - z,
        {
            fvals.push(0);
            z += 1;
        }
        let mut q: usize = 0;
        while q < n
            invariant
                0 <= q <= n,
                fvals@.len() == d - n + q,
                forall|j: int| 0 <= j < d - n ==> fvals@[j] == 0,
                forall|j: int| #![trigger fvals@[d - n + j]] 0 <= j < q ==> fvals@[d - n + j]
                    == vals@[j],
            decreases n - q,
        {
            fvals.push(vals[q]);
            q += 1;
        }
        proof {
            // the padded fraction holds the whole value
            let pad = fvals@.subrange(0, d - n);
            assert forall|j: int| 0 <= j < fvals@.len() implies fvals@[j] == (pad + vals@)[j] by {
                if j >= d - n {
                    assert(fvals@[d - n + (j - (d - n))] == vals@[j - (d - n)]);
                }
            }
            assert(fvals@ =~= pad + vals@);
            lemma_concat_value(pad, vals@);
            lemma_zeros_value(pad);
            assert(0 * pow10(vals@.len()) == 0) by (nonlinear_arith);
            assert(ivals@ =~= seq![0u8]);
            assert(seq![0u8].drop_last() =~= Seq::<u8>::empty());
            assert(digit_vals_value(Seq::<u8>::empty()) == 0);
            assert(digit_vals_value(ivals@) == 0);
            lemma_concat_value(ivals@, fvals@);
            assert(0 * pow10(fvals@.len()) == 0) by (nonlinear_arith);
            assert(digit_vals_value(ivals@ + fvals@) == digit_vals_value(vals@));
        }
    }
    proof {
        lemma_concat_value(ivals@, fvals@);
        assert(fvals@.len() == d);
    }
    // drop trailing fractional zeros
    let mut fk: usize = fvals.len();
    while fk > 0 && fvals[fk - 1] == 0
        invariant
            0 <= fk <= fvals@.len(),
            forall|j: int| fk <= j < fvals@.len() ==> fvals@[j] == 0,
        decreases fk,
    {
        fk -= 1;
    }
    proof {
        let kept = fvals@.subrange(0, fk as int);
        let dropped = fvals@.subrange(fk as int, d as int);
        assert(fvals@ =~= kept + dropped);
        lemma_concat_value(kept, dropped);
        lemma_zeros_value(dropped);
        lemma_concat_value(ivals@, kept);
    }
    // render: integer digits, then '.' and the kept fraction if any remains
    let mut buf: Vec<u8> = Vec::new();
    let mut bi: usize = 0;
    while bi < ivals.len()
        invariant
            0 <= bi <= ivals@.len(),
            buf@.len() == bi,
            forall|j: int| 0 <= j < ivals@.len() ==> ivals@[j] < 10,
            forall|j: int|
                #![trigger buf@[j]]
                0 <= j < bi ==> buf@[j] == 48 + ivals@[j] && buf@[j] < 128,
        decreases ivals@.len() - bi,
    {
        buf.push(48 + ivals[bi]);
        bi += 1;
    }
    let ilen = buf.len();
    if fk > 0 {
        buf.push(46);
        let mut bj: usize = 0;
        while bj < fk
            invariant
                0 < fk <= fvals@.len(),
                buf@.len() == ilen + 1 + bj,
                0 <= bj <= fk,
                buf@.subrange(0, ilen as int) =~= buf@.subrange(0, ilen as int),
                forall|j: int|
                    #![trigger buf@[j]]
                    0 <= j < ilen ==> buf@[j] == 48 + ivals@[j] && buf@[j] < 128,
                buf@[ilen as int] == 46,
                forall|j: int| 0 <= j < fvals@.len() ==> fvals@[j] < 10,
                forall|j: int|
                    #![trigger buf@[ilen + 1 + j]]
                    0 <= j < bj ==> buf@[ilen + 1 + j] == 48 + fvals@[j] && buf@[ilen + 1 + j]
                        < 128,
        decreases fk - bj,
        {
            buf.push(48 + fvals[bj]);
            bj += 1;
        }
    }
    proof {
        assert forall|j: int| 0 <= j < buf@.len() implies buf@[j] < 128 by {
            if j > ilen {
                assert(buf@[ilen + 1 + (j - ilen - 1)] < 128);
            }
        }
    }
    let out = crate::text::ascii_string(buf);
    proof {
        lemma_raw_rendering(out@, ivals@, fvals@.subrange(0, fk as int), d as nat);
        assert(digit_vals_value(ivals@ + fvals@.subrange(0, fk as int)) * pow10((d - fk) as nat)
            == digit_vals_value(vals@)) by {
            let kept = fvals@.subrange(0, fk as int);
            let dropped = fvals@.subrange(fk as int, d as int);
            assert(digit_vals_value(dropped) == 0);
            assert(digit_vals_value(fvals@) == digit_vals_value(kept) * pow10(dropped.len()) + 0);
            assert(digit_vals_value(ivals@ + kept) == digit_vals_value(ivals@) * pow10(kept.len())
                + digit_vals_value(kept));
            assert(digit_vals_value(ivals@ + fvals@) == digit_vals_value(ivals@) * pow10(d as nat)
                + digit_vals_value(fvals@));
            let a = digit_vals_value(ivals@);
            let b = digit_vals_value(kept);
            let zl = dropped.len();
            lemma_pow10_add(kept.len(), zl);
            assert((a * pow10(kept.len()) + b) * pow10(zl) == a * (pow10(kept.len()) * pow10(zl))
                + b * pow10(zl)) by (nonlinear_arith);
        }
    }
    Ok(out)
}

/// The rendered text `out` (integer digits, optional '.' and fraction) is a
/// valid amount whose scaled value at `d` decimals is the value of all its
/// digits followed by enough zeros to reach `d` fractional digits.
proof fn lemma_raw_rendering(out: Seq<char>, ivals: Seq<u8>, fvals: Seq<u8>, d: nat)
    requires
        ivals.len() >= 1,
        fvals.len() <= d,
        forall|j: int| 0 <= j < ivals.len() ==> ivals[j] < 10,
        forall|j: int| 0 <= j < fvals.len() ==> fvals[j] < 10,
        out.len() == if fvals.len() == 0 {
            ivals.len() as int
        } else {
            (ivals.len() + 1 + fvals.len()) as int
        },
        forall|j: int| 0 <= j < ivals.len() ==> out[j] == (48 + ivals[j]) as u8 as char,
        fvals.len() > 0 ==> out[ivals.len() as int] == 46u8 as char,
        forall|j: int|
            0 <= j < fvals.len() ==> out[ivals.len() + 1 + j] == (48 + fvals[j]) as u8 as char,
    ensures
        valid_amount(out),
        scaled_value(out, d) == digit_vals_value(ivals + fvals) * pow10((d - fvals.len()) as nat),
{
    let il = ivals.len() as int;
    // the rendering holds no whitespace and no leading '+', so it is its own
    // amount body
    assert(out[0] == (48 + ivals[0]) as u8 as char);
    assert(!crate::text::is_ascii_space(out[0]) && out[0] != '+');
    assert(crate::text::first_non_space(out, 0) == 0);
    if fvals.len() > 0 {
        assert(out[il + 1 + (fvals.len() - 1)] == (48 + fvals[fvals.len() - 1]) as u8 as char);
        assert(out.len() - 1 == il + 1 + (fvals.len() - 1));
    } else {
        assert(out[il - 1] == (48 + ivals[il - 1]) as u8 as char);
    }
    assert(!crate::text::is_ascii_space(out[out.len() - 1]));
    assert(crate::text::last_non_space_end(out, out.len() as int) == out.len() as int);
    assert(crate::text::trimmed(out) =~= out);
    assert(amount_body(out) == out);
    let iseq = out.subrange(0, il);
    assert(digit_vals_of(ivals, iseq));
    if fvals.len() == 0 {
        lemma_first_dot_scan(out, 0, out.len() as int);
        assert(int_digits(out) =~= iseq);
        assert(frac_digits(out) =~= Seq::<char>::empty());
        lemma_digit_vals_value_eq(ivals, iseq);
        assert(ivals + fvals =~= ivals);
        assert(int_digits(out) + frac_digits(out) =~= iseq);
        assert(valid_amount(out));
        assert(scaled_value(out, d) == digits_value(iseq) * pow10((d - 0) as nat));
    } else {
        assert(out[il] == '.');
        lemma_first_dot_scan(out, 0, il);
        assert(int_digits(out) =~= iseq);
        let fseq = out.subrange(il + 1, out.len() as int);
        assert(frac_digits(out) =~= fseq);
        assert forall|j: int| 0 <= j < fseq.len() implies fvals[j] == dec_digit_value(fseq[j]) by {
            assert(fseq[j] == out[il + 1 + j]);
        }
        assert forall|j: int| 0 <= j < frac_digits(out).len() implies is_dec_digit(
            frac_digits(out)[j],
        ) by {
            assert(frac_digits(out)[j] == fseq[j]);
            assert(fseq[j] == out[il + 1 + j]);
            assert(fvals[j] < 10);
        }
        assert(digit_vals_of(fvals, fseq));
        assert forall|j: int| 0 <= j < int_digits(out).len() implies is_dec_digit(
            int_digits(out)[j],
        ) by {
            assert(int_digits(out)[j] == iseq[j]);
            assert(iseq[j] == out[j]);
        }
        lemma_digit_vals_value_eq(ivals, iseq);
        lemma_digit_vals_value_eq(fvals, fseq);
        assert(all_digits(int_digits(out)));
        assert(all_digits(frac_digits(out)));
        assert(valid_amount(out));
        assert(d >= frac_digits(out).len());
        assert(digit_vals_of(ivals + fvals, iseq + fseq));
        lemma_digit_vals_value_eq(ivals + fvals, iseq + fseq);
        assert(int_digits(out) + frac_digits(out) =~= iseq + fseq);
        assert(scaled_value(out, d) == digits_value(iseq + fseq) * pow10((d - fseq.len()) as nat));
    }
}

/// Law: re-reading the converted integer and dividing by 10^decimals
/// recovers every valid amount to within half a minor unit. With `num` the
/// integer value of all digits and `f` the number of fractional digits, the
/// exact scaled amount is num*10^d / 10^f, and the converted integer R
/// satisfies |R - num*10^d / 10^f| <= 1/2, stated over integers as:
/// 2*R*10^f differs from 2*num*10^d by at most 10^f.
pub proof fn lemma_scaled_value_within_half_unit(s: Seq<char>, d: nat)
    requires
        valid_amount(s),
    ensures
        2 * scaled_value(s, d) * pow10(frac_digits(s).len()) <= 2 * digits_value(
            int_digits(s) + frac_digits(s),
        ) * pow10(d) + pow10(frac_digits(s).len()),
        2 * digits_value(int_digits(s) + frac_digits(s)) * pow10(d) <= 2 * scaled_value(s, d)
            * pow10(frac_digits(s).len()) + pow10(frac_digits(s).len()),
{
    let iseq = int_digits(s);
    let fseq = frac_digits(s);
    let f = fseq.len();
    let num = digits_value(iseq + fseq);
    let rr = scaled_value(s, d);
    lemma_pow10_pos(f);
    if d >= f {
        lemma_pow10_add((d - f) as nat, f);
        assert(rr == num * pow10((d - f) as nat));
        assert(2 * (num * pow10((d - f) as nat)) * pow10(f) == 2 * num * (pow10((d - f) as nat)
            * pow10(f))) by (nonlinear_arith);
        assert(2 * rr * pow10(f) == 2 * num * pow10(d));
    } else {
        let cut = (f - d) as nat;
        let p = pow10((cut - 1) as nat);
        let pp = pow10(cut);
        assert(pp == 10 * p);
        let keptseq = iseq + fseq.take(d as int);
        let dropped = fseq.skip(d as int);
        assert(iseq + fseq =~= keptseq + dropped);
        lemma_digits_concat(keptseq, dropped);
        lemma_digits_bound(dropped);
        let q = digits_value(keptseq);
        let rem = digits_value(dropped);
        assert(num == q * pp + rem && rem < pp);
        // the first dropped digit decides the rounding direction
        let lead = dec_digit_value(fseq[d as int]);
        assert(dropped =~= seq![fseq[d as int]] + dropped.skip(1));
        lemma_digits_concat(seq![fseq[d as int]], dropped.skip(1));
        lemma_digits_bound(dropped.skip(1));
        assert(seq![fseq[d as int]].drop_last() =~= Seq::<char>::empty());
        assert(digits_value(Seq::<char>::empty()) == 0);
        assert(digits_value(seq![fseq[d as int]]) == lead);
        let tail = digits_value(dropped.skip(1));
        assert(rem == lead * p + tail && tail < p);
        let c: nat = if lead >= 5 {
            1
        } else {
            0
        };
        assert(rr == q + c);
        // core inequalities, before scaling by 10^d: |2*rr*pp - 2*num| <= pp
        assert(2 * num == 2 * q * pp + 2 * rem) by (nonlinear_arith)
            requires
                num == q * pp + rem,
        ;
        if lead >= 5 {
            assert(5 * p <= lead * p) by (nonlinear_arith)
                requires
                    5 <= lead,
            ;
            assert(pp <= 2 * rem);
            assert(2 * rr * pp == 2 * q * pp + 2 * pp) by (nonlinear_arith)
                requires
                    rr == q + 1,
            ;
        } else {
            assert(lead * p <= 4 * p) by (nonlinear_arith)
                requires
                    lead <= 4,
            ;
            assert(2 * rem <= pp);
            assert(2 * rr * pp == 2 * q * pp) by (nonlinear_arith)
                requires
                    rr == q,
            ;
        }
        assert(2 * rr * pp <= 2 * num + pp);
        assert(2 * num <= 2 * rr * pp + pp);
        // scale both sides by 10^d and regroup the powers
        lemma_pow10_add(d, cut);
        lemma_pow10_pos(d);
        assert(pow10(f) == pow10(d) * pp);
        assert((2 * rr * pp) * pow10(d) <= (2 * num + pp) * pow10(d)) by (nonlinear_arith)
            requires
                2 * rr * pp <= 2 * num + pp,
        ;
        assert((2 * num) * pow10(d) <= (2 * rr * pp + pp) * pow10(d)) by (nonlinear_arith)
            requires
                2 * num <= 2 * rr * pp + pp,
        ;
        assert((2 * rr * pp) * pow10(d) == 2 * rr * (pow10(d) * pp)) by (nonlinear_arith);
        assert((2 * num + pp) * pow10(d) == (2 * num) * pow10(d) + pow10(d) * pp)
            by (nonlinear_arith);
        assert((2 * rr * pp + pp) * pow10(d) == 2 * rr * (pow10(d) * pp) + pow10(d) * pp)
            by (nonlinear_arith);
        assert(2 * num * pow10(d) == (2 * num) * pow10(d)) by (nonlinear_arith);
    }
}

} // verus!
