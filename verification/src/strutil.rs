//! Byte-level string utilities.
//!
//! Rebuilt strings (decimal renderings, escaped arguments, encoded records)
//! are assembled as UTF-8 byte vectors, reasoned about over `Seq<u8>`, and
//! turned back into `String` at the boundary. Decimal rendering and parsing
//! come with a round-trip proof that the record codec builds on.

use vstd::prelude::*;
use vstd::string::StringSliceAdditionalSpecFns;
use vstd::utf8::*;

verus! {

/// Whether a byte is an ASCII decimal digit.
pub open spec fn is_digit(b: u8) -> bool {
    48 <= b <= 57
}

/// Whether every byte of a sequence is an ASCII decimal digit.
pub open spec fn all_digits(s: Seq<u8>) -> bool {
    forall|k: int| 0 <= k < s.len() ==> is_digit(#[trigger] s[k])
}

/// The decimal rendering of a natural number, most significant digit first.
pub open spec fn dec_rep(n: nat) -> Seq<u8>
    decreases n,
{
    if n < 10 {
        seq![(n + 48) as u8]
    } else {
        dec_rep(n / 10) + seq![(n % 10 + 48) as u8]
    }
}

/// The value of a sequence of ASCII digits.
pub open spec fn dec_val(s: Seq<u8>) -> nat
    decreases s.len(),
{
    if s.len() == 0 {
        0
    } else {
        (dec_val(s.drop_last()) * 10 + (s.last() - 48)) as nat
    }
}

/// The index just past the run of digits that starts at `i`.
pub open spec fn digit_end(b: Seq<u8>, i: int) -> int
    decreases b.len() - i
        when 0 <= i <= b.len()
{
    if i < b.len() && is_digit(b[i]) {
        digit_end(b, i + 1)
    } else {
        i
    }
}

/// What parsing a decimal number at index `i` yields: the value of the digit
/// run starting there and the index just past it, or `None` when the run is
/// empty or its value does not fit in a `u64`.
pub open spec fn parse_dec(b: Seq<u8>, i: int) -> Option<(u64, int)> {
    let j = digit_end(b, i);
    if j == i {
        None
    } else if dec_val(b.subrange(i, j)) > u64::MAX {
        None
    } else {
        Some((dec_val(b.subrange(i, j)) as u64, j))
    }
}

pub proof fn lemma_digit_end_bounds(b: Seq<u8>, i: int)
    requires
        0 <= i <= b.len(),
    ensures
        i <= digit_end(b, i) <= b.len(),
        forall|k: int| i <= k < digit_end(b, i) ==> is_digit(#[trigger] b[k]),
        digit_end(b, i) == b.len() || !is_digit(b[digit_end(b, i)]),
    decreases b.len() - i,
{
    if i < b.len() && is_digit(b[i]) {
        lemma_digit_end_bounds(b, i + 1);
    }
}

/// A run of digits pushes the end of the digit run at least that far.
pub proof fn lemma_digit_end_at_least(b: Seq<u8>, i: int, j: int)
    requires
        0 <= i <= j <= b.len(),
        forall|k: int| i <= k < j ==> is_digit(#[trigger] b[k]),
    ensures
        digit_end(b, i) >= j,
    decreases j - i,
{
    if i < j {
        lemma_digit_end_at_least(b, i + 1, j);
        assert(digit_end(b, i) == digit_end(b, i + 1));
    } else {
        lemma_digit_end_bounds(b, i);
    }
}

/// The digit run starting at `i` is exactly characterised by its end: a `j`
/// with digits throughout `[i, j)` and a non-digit (or the end) at `j`.
pub proof fn lemma_digit_end_unique(b: Seq<u8>, i: int, j: int)
    requires
        0 <= i <= j <= b.len(),
        forall|k: int| i <= k < j ==> is_digit(#[trigger] b[k]),
        j == b.len() || !is_digit(b[j]),
    ensures
        digit_end(b, i) == j,
    decreases j - i,
{
    if i < j {
        lemma_digit_end_unique(b, i + 1, j);
    }
}

/// The decimal rendering consists of digits and round-trips through `dec_val`.
pub proof fn lemma_dec_rep_val(n: nat)
    ensures
        dec_rep(n).len() >= 1,
        all_digits(dec_rep(n)),
        dec_val(dec_rep(n)) == n,
    decreases n,
{
    if n < 10 {
        let s = dec_rep(n);
        assert(s =~= seq![(n + 48) as u8]);
        assert(s.last() == (n + 48) as u8);
        assert(s.drop_last() =~= Seq::<u8>::empty());
        assert(dec_val(s.drop_last()) == 0);
        assert(dec_val(s) == ((n + 48) as u8 - 48) as nat);
    } else {
        lemma_dec_rep_val(n / 10);
        let whole = dec_rep(n);
        assert(whole.drop_last() =~= dec_rep(n / 10));
        assert(whole.last() == (n % 10 + 48) as u8);
        assert(dec_val(whole) == (dec_val(dec_rep(n / 10)) * 10 + (n % 10)) as nat);
        vstd::arithmetic::div_mod::lemma_fundamental_div_mod(n as int, 10);
    }
}

/// Appending further digits never decreases the parsed value.
pub proof fn lemma_dec_val_extend(s: Seq<u8>, t: Seq<u8>)
    requires
        all_digits(t),
    ensures
        dec_val(s + t) >= dec_val(s),
    decreases t.len(),
{
    if t.len() == 0 {
        assert(s + t =~= s);
    } else {
        lemma_dec_val_extend(s, t.drop_last());
        let whole = s + t;
        assert(whole.drop_last() =~= s + t.drop_last());
        assert(dec_val(whole) == dec_val(s + t.drop_last()) * 10 + (whole.last() - 48));
    }
}

/// Two string slices with the same UTF-8 bytes have the same characters.
pub proof fn lemma_str_bytes_determine_view(a: &str, b: &str)
    requires
        a.spec_bytes() == b.spec_bytes(),
    ensures
        a@ == b@,
{
    encode_utf8_decode_utf8(a@);
    encode_utf8_decode_utf8(b@);
}

/// A string's characters are recovered by decoding its bytes.
pub proof fn lemma_str_view_is_decoded_bytes(a: &str)
    ensures
        a@ == decode_utf8(a.spec_bytes()),
        valid_utf8(a.spec_bytes()),
    decreases 0int,
{
    encode_utf8_decode_utf8(a@);
    encode_utf8_valid_utf8(a@);
}

/// Relies on `String::from_utf8`: the returned string holds exactly the given
/// bytes, and the conversion succeeds precisely on valid UTF-8 input.
#[verifier::external_body]
pub(crate) fn string_from_utf8(bytes: Vec<u8>) -> (r: Option<String>)
    ensures
        r is Some <==> valid_utf8(bytes@),
        r matches Some(s) ==> encode_utf8(s@) == bytes@,
{
    String::from_utf8(bytes).ok()
}

/// Append all bytes of a slice to a vector.
pub fn push_bytes(out: &mut Vec<u8>, src: &[u8])
    ensures
        final(out)@ == old(out)@ + src@,
{
    let ghost start = out@;
    let mut k: usize = 0;
    while k < src.len()
        invariant
            k <= src@.len(),
            out@ == start + src@.subrange(0, k as int),
        decreases src@.len() - k,
    {
        out.push(src[k]);
        k = k + 1;
        proof {
            assert(start + src@.subrange(0, k as int) =~= out@);
        }
    }
    proof {
        assert(start + src@.subrange(0, src@.len() as int) =~= start + src@);
    }
}

/// Append the decimal rendering of `n` to a byte vector.
pub fn push_dec(out: &mut Vec<u8>, n: u64)
    ensures
        final(out)@ == old(out)@ + dec_rep(n as nat),
    decreases n,
{
    if n < 10 {
        out.push((n as u8) + 48);
        proof {
            assert(old(out)@ + dec_rep(n as nat) =~= out@);
        }
    } else {
        assert(n / 10 < n) by (nonlinear_arith)
            requires
                n >= 10,
        ;
        push_dec(out, n / 10);
        out.push(((n % 10) as u8) + 48);
        proof {
            assert(old(out)@ + dec_rep(n as nat) =~= out@);
        }
    }
}

/// Parse a decimal number at index `i` of a byte slice.
pub fn parse_dec_at(b: &[u8], i: usize) -> (r: Option<(u64, usize)>)
    requires
        i <= b@.len(),
    ensures
        match r {
            Some((v, j)) => parse_dec(b@, i as int) == Some((v, j as int)) && i < j <= b@.len(),
            None => parse_dec(b@, i as int) is None,
        },
{
    let mut j: usize = i;
    let mut val: u64 = 0;
    while j < b.len() && 48 <= b[j] && b[j] <= 57
        invariant
            i <= j <= b@.len(),
            forall|k: int| i <= k < j ==> is_digit(#[trigger] b@[k]),
            val == dec_val(b@.subrange(i as int, j as int)),
            val <= u64::MAX,
        decreases b@.len() - j,
    {
        let d: u8 = b[j] - 48;
        proof {
            assert(b@.subrange(i as int, j + 1).drop_last() =~= b@.subrange(i as int, j as int));
        }
        if val > (u64::MAX - (d as u64)) / 10 {
            // The digit run's value exceeds u64: report it as unparseable.
            proof {
                let upto = b@.subrange(i as int, j + 1);
                assert(dec_val(upto) == val * 10 + d);
                assert(val * 10 + d > u64::MAX) by (nonlinear_arith)
                    requires
                        val > (u64::MAX - (d as u64)) / 10,
                        d <= 9,
                ;
                lemma_digit_end_at_least(b@, i as int, j + 1);
                lemma_digit_end_bounds(b@, i as int);
                let end = digit_end(b@, i as int);
                let rest = b@.subrange(j + 1, end);
                let full = b@.subrange(i as int, end);
                assert(full =~= upto + rest);
                assert(all_digits(rest)) by {
                    assert(forall|k: int| 0 <= k < rest.len() ==> is_digit(#[trigger] rest[k]));
                }
                lemma_dec_val_extend(upto, rest);
            }
            return None;
        }
        proof {
            assert(val * 10 + d <= u64::MAX) by (nonlinear_arith)
                requires
                    val <= (u64::MAX - (d as u64)) / 10,
                    d <= 9,
            ;
        }
        val = val * 10 + (d as u64);
        j = j + 1;
    }
    proof {
        lemma_digit_end_unique(b@, i as int, j as int);
    }
    if j == i {
        None
    } else {
        Some((val, j))
    }
}

/// Whether `p` is a prefix of `s`.
pub open spec fn is_prefix_of(p: Seq<u8>, s: Seq<u8>) -> bool {
    p.len() <= s.len() && s.subrange(0, p.len() as int) == p
}

/// Whether the bytes of `s` start with the bytes of `p`.
pub fn str_starts_with(s: &str, p: &str) -> (r: bool)
    ensures
        r == is_prefix_of(p.spec_bytes(), s.spec_bytes()),
{
    let sb = s.as_bytes();
    let pb = p.as_bytes();
    if pb.len() > sb.len() {
        return false;
    }
    let mut k: usize = 0;
    while k < pb.len()
        invariant
            k <= pb@.len() <= sb@.len(),
            sb@ == s.spec_bytes(),
            pb@ == p.spec_bytes(),
            forall|t: int| 0 <= t < k ==> sb@[t] == pb@[t],
        decreases pb@.len() - k,
    {
        if sb[k] != pb[k] {
            proof {
                assert(s.spec_bytes().subrange(0, p.spec_bytes().len() as int)[k as int]
                    != p.spec_bytes()[k as int]);
            }
            return false;
        }
        k = k + 1;
    }
    proof {
        assert(s.spec_bytes().subrange(0, p.spec_bytes().len() as int) =~= p.spec_bytes());
    }
    true
}

/// Whether two string slices hold the same characters.
pub fn str_eq(a: &str, b: &str) -> (r: bool)
    ensures
        r == (a@ == b@),
{
    let ab = a.as_bytes();
    let bb = b.as_bytes();
    if ab.len() != bb.len() {
        proof {
            if a@ == b@ {
                assert(a.spec_bytes() == b.spec_bytes());
            }
        }
        return false;
    }
    let mut k: usize = 0;
    while k < ab.len()
        invariant
            k <= ab@.len(),
            ab@.len() == bb@.len(),
            ab@ == a.spec_bytes(),
            bb@ == b.spec_bytes(),
            forall|t: int| 0 <= t < k ==> ab@[t] == bb@[t],
        decreases ab@.len() - k,
    {
        if ab[k] != bb[k] {
            proof {
                if a@ == b@ {
                    assert(a.spec_bytes() == b.spec_bytes());
                }
            }
            return false;
        }
        k = k + 1;
    }
    proof {
        assert(a.spec_bytes() =~= b.spec_bytes());
        lemma_str_bytes_determine_view(a, b);
    }
    true
}

/// ASCII bytes are valid UTF-8 and decode to themselves.
pub proof fn lemma_ascii_valid_utf8(b: Seq<u8>)
    requires
        forall|i: int| 0 <= i < b.len() ==> b[i] < 0x80,
    ensures
        valid_utf8(b),
        decode_utf8(b) == Seq::new(b.len(), |i: int| b[i] as char),
    decreases b.len(),
{
    if b.len() > 0 {
        let b0 = b[0];
        assert(is_leading_byte_width_1(b0));
        assert(valid_leading_and_continuation_bytes_first_codepoint(b));
        assert((b0 & 0x7F) == b0) by (bit_vector)
            requires
                b0 < 0x80,
        ;
        assert(codepoint_width_1(b0) == b0 as u32);
        assert(valid_first_scalar(b));
        assert(length_of_first_scalar(b) == 1);
        assert(pop_first_scalar(b) =~= b.drop_first());
        lemma_ascii_valid_utf8(b.drop_first());
        assert(valid_utf8(b));
        assert(decode_first_scalar(b) == b0 as u32);
        assert(decode_utf8(b) =~= Seq::new(b.len(), |i: int| b[i] as char));
    } else {
        assert(decode_utf8(b) =~= Seq::new(b.len(), |i: int| b[i] as char));
    }
}

/// Build a string from bytes already known to be valid UTF-8.
pub fn string_from_valid_utf8(bytes: Vec<u8>) -> (r: String)
    requires
        valid_utf8(bytes@),
    ensures
        encode_utf8(r@) == bytes@,
{
    let ghost b = bytes@;
    match string_from_utf8(bytes) {
        Some(s) => s,
        None => {
            proof {
                assert(false);
            }
            String::new()
        },
    }
}

/// Render a number in decimal as a string.
pub fn dec_string(n: u64) -> (r: String)
    ensures
        encode_utf8(r@) == dec_rep(n as nat),
{
    let mut v: Vec<u8> = Vec::new();
    push_dec(&mut v, n);
    proof {
        lemma_dec_rep_val(n as nat);
        assert(forall|i: int| 0 <= i < v@.len() ==> v@[i] < 0x80) by {
            assert(all_digits(v@));
        }
        lemma_ascii_valid_utf8(v@);
    }
    string_from_valid_utf8(v)
}


/// Parsing at the head of a rendered number followed by a non-digit recovers
/// the number and stops exactly at the separator.
pub proof fn lemma_parse_dec_of_rep(b: Seq<u8>, i: int, n: u64)
    requires
        0 <= i,
        i + dec_rep(n as nat).len() <= b.len(),
        b.subrange(i, i + dec_rep(n as nat).len() as int) =~= dec_rep(n as nat),
        i + dec_rep(n as nat).len() == b.len() || !is_digit(
            b[i + dec_rep(n as nat).len() as int],
        ),
    ensures
        parse_dec(b, i) == Some((n, i + dec_rep(n as nat).len() as int)),
{
    let rep = dec_rep(n as nat);
    let j = i + rep.len() as int;
    lemma_dec_rep_val(n as nat);
    assert forall|k: int| i <= k < j implies is_digit(#[trigger] b[k]) by {
        assert(b.subrange(i, j)[k - i] == b[k]);
        assert(is_digit(rep[k - i]));
    }
    lemma_digit_end_unique(b, i, j);
    assert(b.subrange(i, j) =~= rep);
}

/// The leading digit of a nonzero number's rendering is not zero.
pub proof fn lemma_dec_rep_nonzero_head(n: nat)
    requires
        n >= 1,
    ensures
        dec_rep(n)[0] != 48,
    decreases n,
{
    if n < 10 {
        assert(dec_rep(n)[0] == (n + 48) as u8);
    } else {
        lemma_dec_rep_nonzero_head(n / 10);
        assert(dec_rep(n)[0] == dec_rep(n / 10)[0]);
    }
}

} // verus!
