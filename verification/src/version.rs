//! Tool versions: a plain major/minor/patch triple, semantic-version parsing,
//! and extraction of a version token from command output.

use vstd::prelude::*;
use vstd::string::{StringExecFns, StringSliceAdditionalSpecFns};
use vstd::utf8::{decode_utf8, encode_utf8};

use crate::strutil::{
    digit_end, is_digit, lemma_digit_end_unique, lemma_str_view_is_decoded_bytes,
    string_from_valid_utf8, lemma_ascii_valid_utf8,
};

verus! {

/// A tool version: major, minor and patch components.
#[derive(Debug, Clone, Copy, PartialEq, Eq, Structural)]
pub struct Version {
    pub major: u64,
    pub minor: u64,
    pub patch: u64,
}

impl Version {
    /// Build a version from its components.
    pub fn new(major: u64, minor: u64, patch: u64) -> (r: Version)
        ensures
            r == (Version { major, minor, patch }),
    {
        Version { major, minor, patch }
    }
}

/// What `semver::Version::parse` yields on the given text: the major, minor
/// and patch components, or nothing when the text is not a semantic version.
pub uninterp spec fn semver_parse(s: Seq<char>) -> Option<Version>;

/// Relies on `semver::Version::parse`: the result depends on the input text
/// alone; the major, minor and patch components are carried over.
#[verifier::external_body]
fn parse_semver(s: &str) -> (r: Option<Version>)
    ensures
        r == semver_parse(s@),
{
    match semver::Version::parse(s) {
        Ok(v) => Some(Version { major: v.major, minor: v.minor, patch: v.patch }),
        Err(_) => None,
    }
}

/// The end of a `digits.digits.digits` token starting exactly at `i`, if one
/// starts there.
pub open spec fn triple_at(b: Seq<u8>, i: int) -> Option<int> {
    let d1 = digit_end(b, i);
    if d1 > i && d1 < b.len() && b[d1] == 46 {
        let d2 = digit_end(b, d1 + 1);
        if d2 > d1 + 1 && d2 < b.len() && b[d2] == 46 {
            let d3 = digit_end(b, d2 + 1);
            if d3 > d2 + 1 {
                Some(d3)
            } else {
                None
            }
        } else {
            None
        }
    } else {
        None
    }
}

/// The first `digits.digits.digits` token at or after `i`: its start and end.
pub open spec fn first_triple(b: Seq<u8>, i: int) -> Option<(int, int)>
    decreases b.len() - i
        when 0 <= i <= b.len()
{
    if i >= b.len() {
        None
    } else if triple_at(b, i) is Some {
        Some((i, triple_at(b, i)->Some_0))
    } else {
        first_triple(b, i + 1)
    }
}

/// The index just past the digit run starting at `i`.
#[verifier::loop_isolation(false)]
fn digit_run_end(b: &[u8], i: usize) -> (j: usize)
    requires
        i <= b@.len(),
    ensures
        j as int == digit_end(b@, i as int),
        i <= j <= b@.len(),
{
    let mut j: usize = i;
    while j < b.len() && 48 <= b[j] && b[j] <= 57
        invariant
            i <= j <= b@.len(),
            forall|k: int| i <= k < j ==> is_digit(#[trigger] b@[k]),
        decreases b@.len() - j,
    {
        j = j + 1;
    }
    proof {
        lemma_digit_end_unique(b@, i as int, j as int);
    }
    j
}

/// The end of a version triple starting exactly at `i`, if one starts there.
#[verifier::loop_isolation(false)]
fn triple_end_at(b: &[u8], i: usize) -> (r: Option<usize>)
    requires
        i <= b@.len(),
    ensures
        match r {
            Some(e) => triple_at(b@, i as int) == Some(e as int) && i < e <= b@.len(),
            None => triple_at(b@, i as int) is None,
        },
{
    let d1 = digit_run_end(b, i);
    if !(d1 > i && d1 < b.len() && b[d1] == 46) {
        return None;
    }
    let d2 = digit_run_end(b, d1 + 1);
    if !(d2 > d1 + 1 && d2 < b.len() && b[d2] == 46) {
        return None;
    }
    let d3 = digit_run_end(b, d2 + 1);
    if d3 > d2 + 1 {
        Some(d3)
    } else {
        None
    }
}

/// Extract the first `digits.digits.digits` token of a string, the way the
/// version banner a tool prints is read.
#[verifier::loop_isolation(false)]
pub fn extract_version_token(s: &str) -> (r: Option<String>)
    ensures
        match r {
            Some(t) => first_triple(s.spec_bytes(), 0) matches Some((st, en)) && encode_utf8(t@)
                == s.spec_bytes().subrange(st, en),
            None => first_triple(s.spec_bytes(), 0) is None,
        },
{
    let b = s.as_bytes();
    let n = b.len();
    let mut i: usize = 0;
    while i < n
        invariant
            i <= n == b@.len(),
            b@ == s.spec_bytes(),
            first_triple(b@, 0) == first_triple(b@, i as int),
        decreases n - i,
    {
        match triple_end_at(b, i) {
            Some(e) => {
                let ghost st = i as int;
                let ghost en = e as int;
                let mut token: Vec<u8> = Vec::new();
                let mut k: usize = i;
                while k < e
                    invariant
                        i <= k <= e <= b@.len(),
                        token@ =~= b@.subrange(i as int, k as int),
                    decreases e - k,
                {
                    token.push(b[k]);
                    proof {
                        assert(token@ =~= b@.subrange(i as int, k + 1));
                    }
                    k = k + 1;
                }
                proof {
                    // Every byte of the token is a digit or a dot, hence ASCII.
                    lemma_triple_bytes_ascii(b@, st, en);
                    assert(forall|t: int| 0 <= t < token@.len() ==> token@[t] < 0x80);
                    lemma_ascii_valid_utf8(token@);
                }
                let ts = string_from_valid_utf8(token);
                return Some(ts);
            },
            None => {},
        }
        i = i + 1;
    }
    None
}

/// Within a matched version triple every byte is a digit or a dot, all ASCII.
proof fn lemma_triple_bytes_ascii(b: Seq<u8>, i: int, e: int)
    requires
        0 <= i <= b.len(),
        triple_at(b, i) == Some(e),
    ensures
        i < e <= b.len(),
        forall|t: int| i <= t < e ==> b[t] < 0x80,
{
    let d1 = digit_end(b, i);
    crate::strutil::lemma_digit_end_bounds(b, i);
    let d2 = digit_end(b, d1 + 1);
    crate::strutil::lemma_digit_end_bounds(b, d1 + 1);
    let d3 = digit_end(b, d2 + 1);
    crate::strutil::lemma_digit_end_bounds(b, d2 + 1);
    assert(e == d3);
    assert forall|t: int| i <= t < e implies b[t] < 0x80 by {
        if t < d1 {
            assert(is_digit(b[t]));
        } else if t == d1 {
            assert(b[t] == 46);
        } else if t < d2 {
            assert(is_digit(b[t]));
        } else if t == d2 {
            assert(b[t] == 46);
        } else {
            assert(is_digit(b[t]));
        }
    }
}

/// Parse a version from a tool's output banner: the first
/// `digits.digits.digits` token, read as a semantic version.
pub fn version_from_output(s: &str) -> (r: Option<Version>)
    ensures
        match first_triple(s.spec_bytes(), 0) {
            Some((st, en)) => r == semver_parse(decode_utf8(s.spec_bytes().subrange(st, en))),
            None => r is None,
        },
{
    match extract_version_token(s) {
        Some(t) => {
            let ts = t.as_str();
            proof {
                lemma_str_view_is_decoded_bytes(ts);
                vstd::utf8::encode_utf8_decode_utf8(ts@);
            }
            parse_semver(ts)
        },
        None => None,
    }
}

/// Count how often a byte occurs in a sequence.
pub open spec fn count_byte(b: Seq<u8>, x: u8) -> nat
    decreases b.len(),
{
    if b.len() == 0 {
        0
    } else {
        count_byte(b.drop_last(), x) + (if b.last() == x {
            1nat
        } else {
            0nat
        })
    }
}

/// Normalize a Perl tool's version for semantic-version parsing: a version of
/// only two components (one dot) gains a trailing ".0".
#[verifier::loop_isolation(false)]
pub fn normalize_perl_version(version_str: &str) -> (r: String)
    ensures
        count_byte(version_str.spec_bytes(), 46) == 1 ==> r@ == version_str@ + ".0"@,
        count_byte(version_str.spec_bytes(), 46) != 1 ==> r@ == version_str@,
{
    let b = version_str.as_bytes();
    let n = b.len();
    let mut dots: u64 = 0;
    let mut k: usize = 0;
    while k < n
        invariant
            k <= n == b@.len(),
            b@ == version_str.spec_bytes(),
            dots == count_byte(b@.subrange(0, k as int), 46),
            dots <= k,
        decreases n - k,
    {
        proof {
            assert(b@.subrange(0, k + 1).drop_last() =~= b@.subrange(0, k as int));
        }
        if b[k] == 46 {
            dots = dots + 1;
        }
        k = k + 1;
    }
    proof {
        assert(b@.subrange(0, n as int) =~= b@);
    }
    if dots == 1 {
        version_str.to_owned().concat(".0")
    } else {
        version_str.to_owned()
    }
}

} // verus!
