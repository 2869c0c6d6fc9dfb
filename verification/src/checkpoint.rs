//! Resumable checkpoints, keyed by the plan hash.
//!
//! A checkpoint records which step ids completed and which failed, under the
//! hash of the plan they belong to; it is usable only while its stored hash
//! equals the current plan's hash. The checkpoint is persisted as a small
//! length-prefixed byte record; reading and writing the file is the driving
//! binary's work, the encoding and its round-trip guarantee live here.

use vstd::prelude::*;
use vstd::string::StringExecFns;
use vstd::utf8::{decode_utf8, encode_utf8, encode_utf8_decode_utf8, encode_utf8_valid_utf8};

use crate::errors::{BootstrapError, BootstrapResult};
use crate::plan::{plan_hash, ExecutionPlan};
use crate::strutil::{
    all_digits, dec_rep, dec_val, is_digit, lemma_dec_rep_val, parse_dec_at, push_bytes, push_dec,
    str_eq, string_from_utf8,
};

verus! {

/// Relies on `std::time::SystemTime::now`: the milliseconds since the Unix
/// epoch at the moment of the call; a clock that reads before the epoch maps
/// to zero. Nothing further is promised of the clock's reading.
#[verifier::external_body]
fn now_unix_millis() -> (r: u64) {
    match std::time::SystemTime::now().duration_since(std::time::UNIX_EPOCH) {
        Ok(d) => d.as_millis() as u64,
        Err(_) => 0,
    }
}

/// Relies on `dirs::cache_dir`: the platform cache directory, if the
/// platform defines one. The result depends on the environment; nothing is
/// promised of it.
#[verifier::external_body]
fn cache_dir_string() -> (r: Option<String>) {
    dirs::cache_dir().map(|p| p.to_string_lossy().into_owned())
}

/// Checkpoint state for resumable runs.
pub struct Checkpoint {
    /// When the checkpoint was created, in milliseconds since the Unix epoch
    pub timestamp_ms: u64,
    /// Hash of the execution plan the record belongs to
    pub plan_hash: String,
    /// Ids of the steps that completed successfully
    pub completed_steps: Vec<String>,
    /// Ids of the steps that failed
    pub failed_steps: Vec<String>,
}

impl Checkpoint {
    /// Create a new, empty checkpoint for a plan, stamped with the current
    /// clock reading.
    pub fn new(plan: &ExecutionPlan) -> (r: Checkpoint)
        ensures
            encode_utf8(r.plan_hash@) == dec_rep(plan_hash(plan@)),
            r.completed_steps@.len() == 0,
            r.failed_steps@.len() == 0,
    {
        let ts = now_unix_millis();
        Checkpoint {
            timestamp_ms: ts,
            plan_hash: plan.compute_hash(),
            completed_steps: Vec::new(),
            failed_steps: Vec::new(),
        }
    }

    /// Whether the checkpoint belongs to the given plan: its stored hash
    /// equals the plan's current hash.
    pub fn is_valid(&self, current_plan: &ExecutionPlan) -> (r: bool)
        ensures
            r == (self.plan_hash@ == decode_utf8(dec_rep(plan_hash(current_plan@)))),
    {
        let h = current_plan.compute_hash();
        let hs = h.as_str();
        proof {
            crate::strutil::lemma_str_view_is_decoded_bytes(hs);
        }
        str_eq(self.plan_hash.as_str(), hs)
    }

    /// Mark a step as completed; an id already recorded is not repeated.
    #[verifier::loop_isolation(false)]
    pub fn mark_completed(&mut self, step_id: String)
        ensures
            final(self).timestamp_ms == old(self).timestamp_ms,
            final(self).plan_hash == old(self).plan_hash,
            final(self).failed_steps == old(self).failed_steps,
            old(self).completed_steps.deep_view().contains(step_id@)
                ==> final(self).completed_steps == old(self).completed_steps,
            !old(self).completed_steps.deep_view().contains(step_id@)
                ==> final(self).completed_steps@ == old(self).completed_steps@.push(step_id),
    {
        if !contains_string(&self.completed_steps, step_id.as_str()) {
            self.completed_steps.push(step_id);
        }
    }

    /// Mark a step as failed; an id already recorded is not repeated.
    #[verifier::loop_isolation(false)]
    pub fn mark_failed(&mut self, step_id: String)
        ensures
            final(self).timestamp_ms == old(self).timestamp_ms,
            final(self).plan_hash == old(self).plan_hash,
            final(self).completed_steps == old(self).completed_steps,
            old(self).failed_steps.deep_view().contains(step_id@) ==> final(self).failed_steps
                == old(self).failed_steps,
            !old(self).failed_steps.deep_view().contains(step_id@) ==> final(self).failed_steps@
                == old(self).failed_steps@.push(step_id),
    {
        if !contains_string(&self.failed_steps, step_id.as_str()) {
            self.failed_steps.push(step_id);
        }
    }

    /// Whether a step is recorded as completed.
    pub fn is_completed(&self, step_id: &str) -> (r: bool)
        ensures
            r == self.completed_steps.deep_view().contains(step_id@),
    {
        contains_string(&self.completed_steps, step_id)
    }
}

/// Whether a string vector holds a string with the given characters.
#[verifier::loop_isolation(false)]
fn contains_string(v: &Vec<String>, s: &str) -> (r: bool)
    ensures
        r == v.deep_view().contains(s@),
{
    let n = v.len();
    let mut k: usize = 0;
    while k < n
        invariant
            k <= n == v@.len(),
            forall|t: int| 0 <= t < k ==> v.deep_view()[t] != s@,
        decreases n - k,
    {
        if str_eq(v[k].as_str(), s) {
            proof {
                assert(v.deep_view()[k as int] == s@);
            }
            return true;
        }
        k = k + 1;
    }
    false
}

/// The checkpoint file's path under a given cache directory: namespaced by
/// the tool, one file per working-tree name.
pub fn checkpoint_path_of(cache_dir: &str, repo_name: &str) -> (r: String)
    ensures
        r@ == cache_dir@ + "/bootstrap-repo-lint/checkpoints/"@ + repo_name@ + ".ckpt"@,
{
    cache_dir.to_owned().concat("/bootstrap-repo-lint/checkpoints/").concat(repo_name).concat(
        ".ckpt",
    )
}

/// The default location of the checkpoint file: the platform cache
/// directory, namespaced by the tool, one file per working-tree name. `None`
/// when the platform defines no cache directory.
pub fn default_checkpoint_path(repo_name: &str) -> (r: Option<String>)
    ensures
        r matches Some(p) ==> exists|cache: Seq<char>|
            p@ == cache + "/bootstrap-repo-lint/checkpoints/"@ + repo_name@ + ".ckpt"@,
{
    match cache_dir_string() {
        Some(cache) => {
            let ghost cv = cache@;
            let p = checkpoint_path_of(cache.as_str(), repo_name);
            proof {
                assert(p@ == cv + "/bootstrap-repo-lint/checkpoints/"@ + repo_name@ + ".ckpt"@);
            }
            Some(p)
        },
        None => None,
    }
}

/// The record's magic header bytes.
pub open spec fn magic_bytes() -> Seq<u8> {
    seq![66u8, 82u8, 67u8, 80u8, 49u8, 10u8]
}

/// The encoding of one string field: the byte length in decimal, a colon,
/// the string's bytes, and a line feed.
pub open spec fn enc_str(s: Seq<char>) -> Seq<u8> {
    dec_rep(encode_utf8(s).len()) + seq![58u8] + encode_utf8(s) + seq![10u8]
}

/// The encoding of a list's first `k` strings, in order.
pub open spec fn enc_strs_upto(l: Seq<Seq<char>>, k: int) -> Seq<u8>
    decreases k,
{
    if k <= 0 {
        Seq::<u8>::empty()
    } else {
        enc_strs_upto(l, k - 1) + enc_str(l[k - 1])
    }
}

/// The encoding of a list of strings: its length in decimal, a line feed,
/// then each string field.
pub open spec fn enc_list(l: Seq<Seq<char>>) -> Seq<u8> {
    dec_rep(l.len()) + seq![10u8] + enc_strs_upto(l, l.len() as int)
}

/// The encoding of a whole checkpoint record.
pub open spec fn enc_cp(
    hash: Seq<char>,
    ts: u64,
    completed: Seq<Seq<char>>,
    failed: Seq<Seq<char>>,
) -> Seq<u8> {
    magic_bytes() + enc_str(hash) + dec_rep(ts as nat) + seq![10u8] + enc_list(completed)
        + enc_list(failed)
}

/// Append the encoding of one string field to the output.
fn push_str_field(out: &mut Vec<u8>, s: &str)
    ensures
        final(out)@ == old(out)@ + enc_str(s@),
{
    let ghost start = out@;
    let sb = s.as_bytes();
    push_dec(out, sb.len() as u64);
    out.push(58);
    push_bytes(out, sb);
    out.push(10);
    proof {
        assert(sb@.len() as u64 as nat == encode_utf8(s@).len());
        assert(out@ =~= start + enc_str(s@));
    }
}

/// Append the encoding of a string list to the output.
#[verifier::loop_isolation(false)]
fn push_str_list(out: &mut Vec<u8>, l: &Vec<String>)
    ensures
        final(out)@ == old(out)@ + enc_list(l.deep_view()),
{
    let ghost start = out@;
    let n = l.len();
    push_dec(out, n as u64);
    out.push(10);
    let ghost head = out@;
    let mut k: usize = 0;
    while k < n
        invariant
            k <= n == l@.len(),
            out@ == head + enc_strs_upto(l.deep_view(), k as int),
        decreases n - k,
    {
        let ghost before = out@;
        push_str_field(out, l[k].as_str());
        proof {
            assert(l.deep_view()[k as int] == l@[k as int]@);
            assert(out@ =~= head + enc_strs_upto(l.deep_view(), k + 1));
        }
        k = k + 1;
    }
    proof {
        assert(n as u64 as nat == l.deep_view().len());
        assert(out@ =~= start + enc_list(l.deep_view()));
    }
}

impl Checkpoint {
    /// Encode the checkpoint as its persistent byte record.
    pub fn encode(&self) -> (r: Vec<u8>)
        ensures
            r@ == enc_cp(
                self.plan_hash@,
                self.timestamp_ms,
                self.completed_steps.deep_view(),
                self.failed_steps.deep_view(),
            ),
    {
        let mut out: Vec<u8> = Vec::new();
        out.push(66);
        out.push(82);
        out.push(67);
        out.push(80);
        out.push(49);
        out.push(10);
        proof {
            assert(out@ =~= magic_bytes());
        }
        push_str_field(&mut out, self.plan_hash.as_str());
        push_dec(&mut out, self.timestamp_ms);
        out.push(10);
        push_str_list(&mut out, &self.completed_steps);
        push_str_list(&mut out, &self.failed_steps);
        proof {
            assert(out@ =~= enc_cp(
                self.plan_hash@,
                self.timestamp_ms,
                self.completed_steps.deep_view(),
                self.failed_steps.deep_view(),
            ));
        }
        out
    }
}


/// A canonical digit sequence (no leading zero) renders back from its value.
proof fn lemma_canonical_digits(d: Seq<u8>)
    requires
        all_digits(d),
        d.len() >= 1,
        d.len() == 1 || d[0] != 48,
    ensures
        dec_rep(dec_val(d)) == d,
    decreases d.len(),
{
    if d.len() == 1 {
        assert(dec_val(d) == (d[0] - 48) as nat) by {
            assert(d.drop_last() =~= Seq::<u8>::empty());
            assert(dec_val(d.drop_last()) == 0);
            assert(d.last() == d[0]);
            assert(is_digit(d[0]));
        }
        assert(dec_rep(dec_val(d)) =~= d);
    } else {
        let dp = d.drop_last();
        assert(all_digits(dp) && dp[0] == d[0]);
        lemma_nonzero_first_digit(dp);
        let v = dec_val(d);
        assert(v == dec_val(dp) * 10 + (d.last() - 48));
        assert(v >= 10) by (nonlinear_arith)
            requires
                v == dec_val(dp) * 10 + (d.last() - 48),
                dec_val(dp) >= 1,
                d.last() >= 48,
        ;
        vstd::arithmetic::div_mod::lemma_fundamental_div_mod_converse(
            v as int,
            10,
            dec_val(dp) as int,
            (d.last() - 48) as int,
        );
        lemma_canonical_digits(dp);
        assert(dec_rep(v) == dec_rep(v / 10) + seq![(v % 10 + 48) as u8]);
        assert(dec_rep(v) =~= d);
    }
}

/// Digits with a nonzero leading digit have a nonzero value.
proof fn lemma_nonzero_first_digit(d: Seq<u8>)
    requires
        all_digits(d),
        d.len() >= 1,
        d[0] != 48,
    ensures
        dec_val(d) >= 1,
    decreases d.len(),
{
    if d.len() == 1 {
        assert(d.drop_last() =~= Seq::<u8>::empty());
    } else {
        let dp = d.drop_last();
        assert(dp[0] == d[0]);
        lemma_nonzero_first_digit(dp);
        assert(dec_val(d) == dec_val(dp) * 10 + (d.last() - 48));
        assert(dec_val(dp) * 10 >= 10) by (nonlinear_arith)
            requires
                dec_val(dp) >= 1,
        ;
    }
}

/// A decimal rendering followed by a non-digit is read back unambiguously.
proof fn lemma_dec_prefix_unique(u: Seq<u8>, n1: nat, n2: nat, ra: Seq<u8>, rb: Seq<u8>)
    requires
        u == dec_rep(n1) + ra,
        u == dec_rep(n2) + rb,
        ra.len() >= 1 && !is_digit(ra[0]),
        rb.len() >= 1 && !is_digit(rb[0]),
    ensures
        n1 == n2,
        ra == rb,
{
    lemma_dec_rep_val(n1);
    lemma_dec_rep_val(n2);
    let e1 = dec_rep(n1).len() as int;
    let e2 = dec_rep(n2).len() as int;
    assert forall|k: int| 0 <= k < e1 implies is_digit(#[trigger] u[k]) by {
        assert(u[k] == dec_rep(n1)[k]);
    }
    assert(!is_digit(u[e1]));
    crate::strutil::lemma_digit_end_unique(u, 0, e1);
    assert forall|k: int| 0 <= k < e2 implies is_digit(#[trigger] u[k]) by {
        assert(u[k] == dec_rep(n2)[k]);
    }
    assert(!is_digit(u[e2]));
    crate::strutil::lemma_digit_end_unique(u, 0, e2);
    assert(e1 == e2);
    assert forall|k: int| 0 <= k < e1 implies dec_rep(n1)[k] == dec_rep(n2)[k] by {
        assert(u[k] == (dec_rep(n1) + ra)[k]);
        assert(u[k] == (dec_rep(n2) + rb)[k]);
    }
    assert(dec_rep(n1) =~= dec_rep(n2));
    assert(n1 == dec_val(dec_rep(n1)) && n2 == dec_val(dec_rep(n2)));
    assert(ra =~= rb) by {
        assert(ra.len() == u.len() - e1 && rb.len() == u.len() - e2);
        assert(forall|k: int| 0 <= k < ra.len() ==> ra[k] == u[e1 + k] && rb[k] == u[e1 + k]);
    }
}

/// A string field is read back unambiguously from the front of a record.
proof fn lemma_enc_str_unique(s: Seq<char>, t: Seq<char>, ra: Seq<u8>, rb: Seq<u8>)
    requires
        enc_str(s) + ra == enc_str(t) + rb,
    ensures
        s == t,
        ra == rb,
{
    let u = enc_str(s) + ra;
    let es = encode_utf8(s);
    let et = encode_utf8(t);
    assert(u == dec_rep(es.len()) + (seq![58u8] + es + seq![10u8] + ra)) by {
        assert(u =~= dec_rep(es.len()) + (seq![58u8] + es + seq![10u8] + ra));
    }
    assert(u == dec_rep(et.len()) + (seq![58u8] + et + seq![10u8] + rb)) by {
        assert(enc_str(t) + rb =~= dec_rep(et.len()) + (seq![58u8] + et + seq![10u8] + rb));
    }
    lemma_dec_prefix_unique(
        u,
        es.len(),
        et.len(),
        seq![58u8] + es + seq![10u8] + ra,
        seq![58u8] + et + seq![10u8] + rb,
    );
    let ta = seq![58u8] + es + seq![10u8] + ra;
    let tb = seq![58u8] + et + seq![10u8] + rb;
    assert(es.len() == et.len());
    assert(es =~= et) by {
        assert(forall|k: int| 0 <= k < es.len() ==> es[k] == ta[1 + k] && et[k] == tb[1 + k]);
    }
    encode_utf8_decode_utf8(s);
    encode_utf8_decode_utf8(t);
    assert(ra =~= rb) by {
        assert(ra.len() == ta.len() - es.len() - 2 && rb.len() == tb.len() - et.len() - 2);
        assert(forall|k: int|
            0 <= k < ra.len() ==> ra[k] == ta[2 + es.len() + k] && rb[k] == tb[2 + es.len() + k]);
    }
}

/// The encoding of a list's first `k` strings decomposes at the front.
proof fn lemma_enc_strs_front(l: Seq<Seq<char>>, k: int)
    requires
        0 < k <= l.len(),
    ensures
        enc_strs_upto(l, k) == enc_str(l[0]) + enc_strs_upto(l.drop_first(), k - 1),
    decreases k,
{
    if k == 1 {
        assert(enc_strs_upto(l, 0) =~= Seq::<u8>::empty());
        assert(enc_strs_upto(l.drop_first(), 0) =~= Seq::<u8>::empty());
        assert(enc_strs_upto(l, 1) =~= enc_str(l[0]) + enc_strs_upto(l.drop_first(), 0));
    } else {
        lemma_enc_strs_front(l, k - 1);
        assert(l[k - 1] == l.drop_first()[k - 2]);
        assert(enc_strs_upto(l, k) == enc_strs_upto(l, k - 1) + enc_str(l[k - 1]));
        assert(enc_strs_upto(l.drop_first(), k - 1) == enc_strs_upto(l.drop_first(), k - 2)
            + enc_str(l.drop_first()[k - 2]));
        assert(enc_strs_upto(l, k) =~= enc_str(l[0]) + enc_strs_upto(l.drop_first(), k - 1));
    }
}

/// Two equal-length string lists that encode the same front of a record are
/// the same list, with the same remainder.
proof fn lemma_enc_strs_unique(c: Seq<Seq<char>>, d: Seq<Seq<char>>, ra: Seq<u8>, rb: Seq<u8>)
    requires
        c.len() == d.len(),
        enc_strs_upto(c, c.len() as int) + ra == enc_strs_upto(d, d.len() as int) + rb,
    ensures
        c == d,
        ra == rb,
    decreases c.len(),
{
    if c.len() == 0 {
        assert(enc_strs_upto(c, 0) =~= Seq::<u8>::empty());
        assert(ra =~= enc_strs_upto(c, 0) + ra);
        assert(rb =~= enc_strs_upto(d, 0) + rb);
        assert(c =~= d);
    } else {
        lemma_enc_strs_front(c, c.len() as int);
        lemma_enc_strs_front(d, d.len() as int);
        let cr = c.drop_first();
        let dr = d.drop_first();
        assert(enc_str(c[0]) + (enc_strs_upto(cr, cr.len() as int) + ra) == enc_str(d[0]) + (
        enc_strs_upto(dr, dr.len() as int) + rb)) by {
            assert(enc_str(c[0]) + (enc_strs_upto(cr, cr.len() as int) + ra) =~= enc_strs_upto(
                c,
                c.len() as int,
            ) + ra);
            assert(enc_str(d[0]) + (enc_strs_upto(dr, dr.len() as int) + rb) =~= enc_strs_upto(
                d,
                d.len() as int,
            ) + rb);
        }
        lemma_enc_str_unique(
            c[0],
            d[0],
            enc_strs_upto(cr, cr.len() as int) + ra,
            enc_strs_upto(dr, dr.len() as int) + rb,
        );
        lemma_enc_strs_unique(cr, dr, ra, rb);
        assert forall|k: int| 0 <= k < c.len() implies c[k] == d[k] by {
            if k > 0 {
                assert(c[k] == cr[k - 1]);
                assert(d[k] == dr[k - 1]);
            }
        }
        assert(c =~= d);
    }
}

/// One encoded list followed by a remainder is read back unambiguously.
proof fn lemma_enc_list_unique(c1: Seq<Seq<char>>, c2: Seq<Seq<char>>, ra: Seq<u8>, rb: Seq<u8>)
    requires
        enc_list(c1) + ra == enc_list(c2) + rb,
    ensures
        c1 == c2,
        ra == rb,
{
    let w1 = seq![10u8] + enc_strs_upto(c1, c1.len() as int) + ra;
    let w2 = seq![10u8] + enc_strs_upto(c2, c2.len() as int) + rb;
    assert(dec_rep(c1.len()) + w1 == dec_rep(c2.len()) + w2) by {
        assert(dec_rep(c1.len()) + w1 =~= enc_list(c1) + ra);
        assert(dec_rep(c2.len()) + w2 =~= enc_list(c2) + rb);
    }
    lemma_dec_prefix_unique(dec_rep(c1.len()) + w1, c1.len(), c2.len(), w1, w2);
    assert(enc_strs_upto(c1, c1.len() as int) + ra == enc_strs_upto(c2, c2.len() as int) + rb)
        by {
        assert(w1.drop_first() =~= enc_strs_upto(c1, c1.len() as int) + ra);
        assert(w2.drop_first() =~= enc_strs_upto(c2, c2.len() as int) + rb);
        assert(w1.drop_first() == w2.drop_first());
    }
    lemma_enc_strs_unique(c1, c2, ra, rb);
}

/// Law: the checkpoint record is unambiguous — two records with the same
/// bytes carry the same plan hash, the same timestamp and identical
/// completed and failed id lists. A checkpoint saved and reloaded therefore
/// reproduces its id sets and gives the same plan-hash validity verdict
/// against any plan.
#[verifier::rlimit(100)]
pub proof fn lemma_record_unambiguous(
    h1: Seq<char>,
    t1: u64,
    c1: Seq<Seq<char>>,
    f1: Seq<Seq<char>>,
    h2: Seq<char>,
    t2: u64,
    c2: Seq<Seq<char>>,
    f2: Seq<Seq<char>>,
)
    requires
        enc_cp(h1, t1, c1, f1) == enc_cp(h2, t2, c2, f2),
    ensures
        h1 == h2,
        t1 == t2,
        c1 == c2,
        f1 == f2,
{
    let u1 = enc_str(h1) + (dec_rep(t1 as nat) + (seq![10u8] + (enc_list(c1) + enc_list(f1))));
    let u2 = enc_str(h2) + (dec_rep(t2 as nat) + (seq![10u8] + (enc_list(c2) + enc_list(f2))));
    assert(u1 == u2) by {
        assert(magic_bytes() + u1 =~= enc_cp(h1, t1, c1, f1));
        assert(magic_bytes() + u2 =~= enc_cp(h2, t2, c2, f2));
        assert(forall|k: int|
            0 <= k < u1.len() ==> u1[k] == (magic_bytes() + u1)[6 + k] && u2[k] == (magic_bytes()
                + u2)[6 + k]);
        assert(u1 =~= u2);
    }
    lemma_enc_str_unique(
        h1,
        h2,
        dec_rep(t1 as nat) + (seq![10u8] + (enc_list(c1) + enc_list(f1))),
        dec_rep(t2 as nat) + (seq![10u8] + (enc_list(c2) + enc_list(f2))),
    );
    let v1 = seq![10u8] + (enc_list(c1) + enc_list(f1));
    let v2 = seq![10u8] + (enc_list(c2) + enc_list(f2));
    lemma_dec_prefix_unique(dec_rep(t1 as nat) + v1, t1 as nat, t2 as nat, v1, v2);
    assert(enc_list(c1) + enc_list(f1) == enc_list(c2) + enc_list(f2)) by {
        assert(v1.drop_first() =~= enc_list(c1) + enc_list(f1));
        assert(v2.drop_first() =~= enc_list(c2) + enc_list(f2));
        assert(v1.drop_first() == v2.drop_first());
    }
    lemma_enc_list_unique(c1, c2, enc_list(f1), enc_list(f2));
    assert(enc_list(f1) + Seq::<u8>::empty() == enc_list(f2) + Seq::<u8>::empty()) by {
        assert(enc_list(f1) + Seq::<u8>::empty() =~= enc_list(f1));
        assert(enc_list(f2) + Seq::<u8>::empty() =~= enc_list(f2));
    }
    lemma_enc_list_unique(f1, f2, Seq::<u8>::empty(), Seq::<u8>::empty());
}




/// Whether `n` encoded string fields for the list `c` stand at index `i`.
pub open spec fn can_parse_strs_at(b: Seq<u8>, i: int, c: Seq<Seq<char>>, n: u64) -> bool {
    &&& c.len() == n
    &&& (forall|t: int| 0 <= t < c.len() ==> encode_utf8(#[trigger] c[t]).len() <= u64::MAX)
    &&& 0 <= i
    &&& i + enc_strs_upto(c, n as int).len() <= b.len()
    &&& b.subrange(i, i + enc_strs_upto(c, n as int).len() as int) == enc_strs_upto(c, n as int)
}

/// Whether a record's parts are small enough to parse: every rendered count
/// and byte length fits in a u64.
pub open spec fn record_bounded(hash: Seq<char>, c: Seq<Seq<char>>, f: Seq<Seq<char>>) -> bool {
    &&& encode_utf8(hash).len() <= u64::MAX
    &&& c.len() <= u64::MAX
    &&& f.len() <= u64::MAX
    &&& (forall|t: int| 0 <= t < c.len() ==> encode_utf8(#[trigger] c[t]).len() <= u64::MAX)
    &&& (forall|t: int| 0 <= t < f.len() ==> encode_utf8(#[trigger] f[t]).len() <= u64::MAX)
}

/// A suffix splits at any interior position.
proof fn lemma_suffix_decompose(b: Seq<u8>, pos: int, j: int)
    requires
        0 <= pos <= j <= b.len(),
    ensures
        b.subrange(pos, b.len() as int) == b.subrange(pos, j) + b.subrange(j, b.len() as int),
{
    assert(b.subrange(pos, b.len() as int) =~= b.subrange(pos, j) + b.subrange(
        j,
        b.len() as int,
    ));
}

/// A middle piece of a concatenation is recovered by `subrange`.
proof fn lemma_chain_piece(b: Seq<u8>, pre: Seq<u8>, piece: Seq<u8>, post: Seq<u8>)
    requires
        b == pre + piece + post,
    ensures
        b.subrange(pre.len() as int, pre.len() + piece.len() as int) == piece,
{
    assert forall|t: int|
        0 <= t < piece.len() implies b.subrange(
        pre.len() as int,
        pre.len() + piece.len() as int,
    )[t] == piece[t] by {
        assert(b[pre.len() + t] == (pre + piece + post)[pre.len() + t]);
        assert((pre + piece)[pre.len() + t] == piece[t]);
    }
    assert(b.subrange(pre.len() as int, pre.len() + piece.len() as int) =~= piece);
}

/// A list's encoding splits around each of its elements.
proof fn lemma_upto_split(c: Seq<Seq<char>>, k: int, m: int)
    requires
        0 <= k < m <= c.len(),
    ensures
        exists|x: Seq<u8>|
            enc_strs_upto(c, m) == enc_strs_upto(c, k) + enc_str(c[k]) + x,
    decreases m,
{
    if m == k + 1 {
        let x = Seq::<u8>::empty();
        assert(enc_strs_upto(c, m) =~= enc_strs_upto(c, k) + enc_str(c[k]) + x);
    } else {
        lemma_upto_split(c, k, m - 1);
        let x0 = choose|x: Seq<u8>|
            enc_strs_upto(c, m - 1) == enc_strs_upto(c, k) + enc_str(c[k]) + x;
        let x1 = x0 + enc_str(c[m - 1]);
        assert(enc_strs_upto(c, m) =~= enc_strs_upto(c, k) + enc_str(c[k]) + x1);
    }
}

/// Within a list standing at `i`, the `k`th field stands right after the
/// first `k` fields.
proof fn lemma_strs_element_at(b: Seq<u8>, i: int, c: Seq<Seq<char>>, n: u64, k: int, pos: int)
    requires
        can_parse_strs_at(b, i, c, n),
        0 <= k < c.len(),
        pos == i + enc_strs_upto(c, k).len(),
    ensures
        can_parse_str_at(b, pos, c[k]),
        pos + enc_str(c[k]).len() == i + enc_strs_upto(c, k + 1).len(),
{
    lemma_upto_split(c, k, n as int);
    let x = choose|x: Seq<u8>|
        enc_strs_upto(c, n as int) == enc_strs_upto(c, k) + enc_str(c[k]) + x;
    let whole = enc_strs_upto(c, n as int);
    let off = enc_strs_upto(c, k).len() as int;
    let fl = enc_str(c[k]).len() as int;
    assert forall|t: int| 0 <= t < whole.len() implies b[i + t] == #[trigger] whole[t] by {
        assert(b.subrange(i, i + whole.len() as int)[t] == b[i + t]);
    }
    assert forall|u: int| 0 <= u < fl implies whole[off + u] == #[trigger] enc_str(c[k])[u] by {
        assert(whole[off + u] == ((enc_strs_upto(c, k) + enc_str(c[k])) + x)[off + u]);
        assert((enc_strs_upto(c, k) + enc_str(c[k]))[off + u] == enc_str(c[k])[u]);
    }
    assert(b.subrange(pos, pos + fl) =~= enc_str(c[k]));
    assert(enc_strs_upto(c, k + 1) == enc_strs_upto(c, k) + enc_str(c[k]));
}

/// Whether the rendering of `v`, followed by a non-digit or the record's
/// end, stands at index `i`.
pub open spec fn can_parse_rep_at(b: Seq<u8>, i: int, v: u64) -> bool {
    let rep = dec_rep(v as nat);
    &&& 0 <= i
    &&& i + rep.len() <= b.len()
    &&& b.subrange(i, i + rep.len() as int) == rep
    &&& (i + rep.len() == b.len() || !is_digit(b[i + rep.len() as int]))
}

/// Whether an encoded string field for `s` stands at index `i`.
pub open spec fn can_parse_str_at(b: Seq<u8>, i: int, s: Seq<char>) -> bool {
    &&& encode_utf8(s).len() <= u64::MAX
    &&& 0 <= i
    &&& i + enc_str(s).len() <= b.len()
    &&& b.subrange(i, i + enc_str(s).len() as int) == enc_str(s)
}

/// A string field at `i` lays out its pieces at fixed offsets: the rendered
/// byte length, a colon, the string's bytes, and a line feed.
proof fn lemma_str_field_layout(b: Seq<u8>, i: int, s: Seq<char>)
    requires
        can_parse_str_at(b, i, s),
    ensures
        can_parse_rep_at(b, i, encode_utf8(s).len() as u64),
        b[i + dec_rep(encode_utf8(s).len()).len() as int] == 58,
        b.subrange(
            i + dec_rep(encode_utf8(s).len()).len() + 1,
            i + dec_rep(encode_utf8(s).len()).len() + 1 + encode_utf8(s).len(),
        ) == encode_utf8(s),
        b[i + dec_rep(encode_utf8(s).len()).len() + 1 + encode_utf8(s).len() as int] == 10,
        i + enc_str(s).len() == i + dec_rep(encode_utf8(s).len()).len() + encode_utf8(s).len() + 2,
{
    let es = encode_utf8(s);
    let rep = dec_rep(es.len());
    let field = enc_str(s);
    assert(field.len() == rep.len() + es.len() + 2);
    assert forall|t: int| 0 <= t < field.len() implies b[i + t] == #[trigger] field[t] by {
        assert(b.subrange(i, i + field.len() as int)[t] == b[i + t]);
    }
    assert(forall|t: int| 0 <= t < rep.len() ==> field[t] == #[trigger] rep[t]);
    assert(field[rep.len() as int] == 58);
    assert(forall|t: int|
        0 <= t < es.len() ==> field[rep.len() + 1 + t] == #[trigger] es[t]);
    assert(field[rep.len() + 1 + es.len() as int] == 10);
    assert(b.subrange(i, i + rep.len() as int) =~= rep);
    assert((es.len() as u64) as nat == es.len());
    assert(!is_digit(58u8));
    assert(b.subrange(i + rep.len() + 1, i + rep.len() + 1 + es.len() as int) =~= es);
}

/// Parse a canonically rendered decimal at index `i`: the digits read must
/// be exactly the rendering of the value (no leading zeros).
#[verifier::loop_isolation(false)]
fn parse_dec_canonical(b: &[u8], i: usize) -> (r: Option<(u64, usize)>)
    requires
        i <= b@.len(),
    ensures
        r matches Some((v, j)) ==> i < j <= b@.len() && b@.subrange(i as int, j as int) == dec_rep(
            v as nat,
        ) && crate::strutil::parse_dec(b@, i as int) == Some((v, j as int)),
        r is None ==> forall|v: u64| !can_parse_rep_at(b@, i as int, v),
{
    match parse_dec_at(b, i) {
        Some((v, j)) => {
            if j - i == 1 || b[i] != 48 {
                proof {
                    let d = b@.subrange(i as int, j as int);
                    crate::strutil::lemma_digit_end_bounds(b@, i as int);
                    assert(all_digits(d)) by {
                        assert(forall|k: int| 0 <= k < d.len() ==> is_digit(#[trigger] d[k]));
                    }
                    assert(d.len() == 1 || d[0] != 48);
                    lemma_canonical_digits(d);
                    assert(dec_val(d) == v as nat);
                }
                Some((v, j))
            } else {
                proof {
                    assert forall|v2: u64| !can_parse_rep_at(b@, i as int, v2) by {
                        if can_parse_rep_at(b@, i as int, v2) {
                            crate::strutil::lemma_parse_dec_of_rep(b@, i as int, v2);
                            let rep = dec_rep(v2 as nat);
                            assert(v2 == v && i + rep.len() == j);
                            assert(rep.len() > 1);
                            assert(v2 >= 10) by {
                                if v2 < 10 {
                                    assert(dec_rep(v2 as nat).len() == 1);
                                }
                            }
                            crate::strutil::lemma_dec_rep_nonzero_head(v2 as nat);
                            assert(b@.subrange(i as int, i + rep.len() as int)[0] == b@[i as int]);
                        }
                    }
                }
                None
            }
        },
        None => {
            proof {
                assert forall|v2: u64| !can_parse_rep_at(b@, i as int, v2) by {
                    if can_parse_rep_at(b@, i as int, v2) {
                        crate::strutil::lemma_parse_dec_of_rep(b@, i as int, v2);
                    }
                }
            }
            None
        },
    }
}

/// When a string field for `s` stands at `i`, the decimal length parse at
/// `i` lands exactly at the field's colon.
proof fn lemma_str_field_parse(b: Seq<u8>, i: int, s: Seq<char>, v: u64, j1: int)
    requires
        can_parse_str_at(b, i, s),
        crate::strutil::parse_dec(b, i) == Some((v, j1)),
    ensures
        v as nat == encode_utf8(s).len(),
        j1 == i + dec_rep(encode_utf8(s).len()).len(),
        b[j1] == 58,
{
    lemma_str_field_layout(b, i, s);
    crate::strutil::lemma_parse_dec_of_rep(b, i, encode_utf8(s).len() as u64);
}

/// Parse one string field at index `i`.
#[verifier::loop_isolation(false)]
fn parse_str_at(b: &[u8], i: usize) -> (r: Option<(String, usize)>)
    requires
        i <= b@.len(),
    ensures
        r matches Some((s, j)) ==> i < j <= b@.len() && b@.subrange(i as int, j as int) == enc_str(
            s@,
        ),
        r is None ==> forall|s: Seq<char>| !can_parse_str_at(b@, i as int, s),
{
    let (len64, j1) = match parse_dec_canonical(b, i) {
        Some(p) => p,
        None => {
            proof {
                assert forall|sv: Seq<char>| !can_parse_str_at(b@, i as int, sv) by {
                    if can_parse_str_at(b@, i as int, sv) {
                        lemma_str_field_layout(b@, i as int, sv);
                    }
                }
            }
            return None;
        },
    };
    if j1 >= b.len() || b[j1] != 58 {
        proof {
            assert forall|sv: Seq<char>| !can_parse_str_at(b@, i as int, sv) by {
                if can_parse_str_at(b@, i as int, sv) {
                    lemma_str_field_parse(b@, i as int, sv, len64, j1 as int);
                }
            }
        }
        return None;
    }
    let remaining: usize = b.len() - j1 - 1;
    if len64 > remaining as u64 {
        proof {
            assert forall|sv: Seq<char>| !can_parse_str_at(b@, i as int, sv) by {
                if can_parse_str_at(b@, i as int, sv) {
                    lemma_str_field_parse(b@, i as int, sv, len64, j1 as int);
                    lemma_str_field_layout(b@, i as int, sv);
                    assert(i + enc_str(sv).len() <= b@.len());
                }
            }
        }
        return None;
    }
    let len: usize = len64 as usize;
    let start: usize = j1 + 1;
    let payload = vstd::slice::slice_subrange(b, start, start + len);
    let bytes = vstd::slice::slice_to_vec(payload);
    proof {
        assert(bytes@ =~= b@.subrange(start as int, (start + len) as int));
    }
    let s = match string_from_utf8(bytes) {
        Some(s) => s,
        None => {
            proof {
                assert forall|sv: Seq<char>| !can_parse_str_at(b@, i as int, sv) by {
                    if can_parse_str_at(b@, i as int, sv) {
                        lemma_str_field_parse(b@, i as int, sv, len64, j1 as int);
                        lemma_str_field_layout(b@, i as int, sv);
                        assert(b@.subrange(start as int, (start + len) as int) == encode_utf8(
                            sv,
                        ));
                        encode_utf8_valid_utf8(sv);
                    }
                }
            }
            return None;
        },
    };
    if start + len >= b.len() || b[start + len] != 10 {
        proof {
            assert forall|sv: Seq<char>| !can_parse_str_at(b@, i as int, sv) by {
                if can_parse_str_at(b@, i as int, sv) {
                    lemma_str_field_parse(b@, i as int, sv, len64, j1 as int);
                    lemma_str_field_layout(b@, i as int, sv);
                }
            }
        }
        return None;
    }
    let j = start + len + 1;
    proof {
        assert(encode_utf8(s@) == b@.subrange(start as int, (start + len) as int));
        assert(encode_utf8(s@).len() == len);
        assert(len64 as nat == len as nat);
        assert(b@.subrange(i as int, j as int) =~= dec_rep(encode_utf8(s@).len()) + seq![58u8]
            + encode_utf8(s@) + seq![10u8]) by {
            assert(b@.subrange(i as int, j1 as int) == dec_rep(len64 as nat));
            assert(forall|k: int|
                i <= k < j1 ==> b@.subrange(i as int, j as int)[k - i] == b@[k]);
            assert(forall|k: int|
                0 <= k < j1 - i ==> dec_rep(encode_utf8(s@).len())[k] == b@.subrange(
                    i as int,
                    j1 as int,
                )[k]);
        }
    }
    Some((s, j))
}

/// Parse a list of `n` string fields starting at index `i`.
#[verifier::loop_isolation(false)]
fn parse_strs_at(b: &[u8], i: usize, n: u64) -> (r: Option<(Vec<String>, usize)>)
    requires
        i <= b@.len(),
    ensures
        r matches Some((l, j)) ==> i <= j <= b@.len() && l@.len() == n && b@.subrange(
            i as int,
            j as int,
        ) == enc_strs_upto(l.deep_view(), n as int),
        r is None ==> forall|c: Seq<Seq<char>>| !can_parse_strs_at(b@, i as int, c, n),
{
    let mut acc: Vec<String> = Vec::new();
    let mut pos: usize = i;
    let mut k: u64 = 0;
    while k < n
        invariant
            i <= pos <= b@.len(),
            k <= n,
            acc@.len() == k,
            b@.subrange(i as int, pos as int) == enc_strs_upto(acc.deep_view(), k as int),
            forall|c: Seq<Seq<char>>|
                can_parse_strs_at(b@, i as int, c, n) ==> pos as int == i + enc_strs_upto(
                    c,
                    k as int,
                ).len(),
        decreases n - k,
    {
        let res = parse_str_at(b, pos);
        let (s, j) = match res {
            Some(p) => p,
            None => {
                proof {
                    assert forall|c: Seq<Seq<char>>| !can_parse_strs_at(b@, i as int, c, n) by {
                        if can_parse_strs_at(b@, i as int, c, n) {
                            lemma_strs_element_at(
                                b@,
                                i as int,
                                c,
                                n,
                                k as int,
                                pos as int,
                            );
                        }
                    }
                }
                return None;
            },
        };
        proof {
            assert forall|c: Seq<Seq<char>>|
                can_parse_strs_at(b@, i as int, c, n) implies j as int == i + enc_strs_upto(
                c,
                k as int + 1,
            ).len() by {
                lemma_strs_element_at(b@, i as int, c, n, k as int, pos as int);
                let fl = enc_str(c[k as int]).len() as int;
                lemma_suffix_decompose(b@, pos as int, j as int);
                lemma_suffix_decompose(b@, pos as int, pos + fl);
                assert(b@.subrange(pos as int, j as int) == enc_str(s@));
                assert(b@.subrange(pos as int, pos + fl) == enc_str(c[k as int]));
                lemma_enc_str_unique(
                    s@,
                    c[k as int],
                    b@.subrange(j as int, b@.len() as int),
                    b@.subrange(pos + fl, b@.len() as int),
                );
            }
        }
        let ghost dv0 = acc.deep_view();
        let ghost pos0 = pos as int;
        acc.push(s);
        proof {
            lemma_enc_strs_upto_stable(dv0, acc.deep_view(), k as int);
            assert(acc.deep_view()[k as int] == s@);
            assert(enc_strs_upto(acc.deep_view(), k as int + 1) == enc_strs_upto(
                acc.deep_view(),
                k as int,
            ) + enc_str(s@));
            assert(b@.subrange(i as int, j as int) =~= b@.subrange(i as int, pos0) + b@.subrange(
                pos0,
                j as int,
            ));
        }
        pos = j;
        k = k + 1;
    }
    Some((acc, pos))
}


/// The offsets of a record's parts, as the encoding lays them out.
pub open spec fn off_ts(h: Seq<char>) -> int {
    6 + enc_str(h).len() as int
}

pub open spec fn off_nc(h: Seq<char>, ts: u64) -> int {
    off_ts(h) + dec_rep(ts as nat).len() as int + 1
}

pub open spec fn off_cl(h: Seq<char>, ts: u64, c: Seq<Seq<char>>) -> int {
    off_nc(h, ts) + dec_rep(c.len()).len() as int + 1
}

pub open spec fn off_nf(h: Seq<char>, ts: u64, c: Seq<Seq<char>>) -> int {
    off_cl(h, ts, c) + enc_strs_upto(c, c.len() as int).len() as int
}

pub open spec fn off_fl(h: Seq<char>, ts: u64, c: Seq<Seq<char>>, f: Seq<Seq<char>>) -> int {
    off_nf(h, ts, c) + dec_rep(f.len()).len() as int + 1
}

/// A whole record lays out its parts at fixed offsets.
#[verifier::rlimit(100)]
proof fn lemma_record_layout(b: Seq<u8>, h: Seq<char>, ts: u64, c: Seq<Seq<char>>, f: Seq<Seq<char>>)
    requires
        b == enc_cp(h, ts, c, f),
        record_bounded(h, c, f),
    ensures
        b.len() == off_fl(h, ts, c, f) + enc_strs_upto(f, f.len() as int).len(),
        b.len() >= 6,
        b[0] == 66 && b[1] == 82 && b[2] == 67 && b[3] == 80 && b[4] == 49 && b[5] == 10,
        can_parse_str_at(b, 6, h),
        can_parse_rep_at(b, off_ts(h), ts),
        b[off_ts(h) + dec_rep(ts as nat).len()] == 10,
        can_parse_rep_at(b, off_nc(h, ts), c.len() as u64),
        b[off_nc(h, ts) + dec_rep(c.len()).len()] == 10,
        can_parse_strs_at(b, off_cl(h, ts, c), c, c.len() as u64),
        can_parse_rep_at(b, off_nf(h, ts, c), f.len() as u64),
        b[off_nf(h, ts, c) + dec_rep(f.len()).len()] == 10,
        can_parse_strs_at(b, off_fl(h, ts, c, f), f, f.len() as u64),
{
    let p0 = magic_bytes();
    let p1 = enc_str(h);
    let p2 = dec_rep(ts as nat);
    let p3 = seq![10u8];
    let p4 = dec_rep(c.len());
    let p5 = seq![10u8];
    let p6 = enc_strs_upto(c, c.len() as int);
    let p7 = dec_rep(f.len());
    let p8 = seq![10u8];
    let p9 = enc_strs_upto(f, f.len() as int);
    assert(b =~= p0 + p1 + p2 + p3 + p4 + p5 + p6 + p7 + p8 + p9);
    let o1 = p0.len() as int;
    let o2 = o1 + p1.len();
    let o3 = o2 + p2.len();
    let o4 = o3 + 1;
    let o5 = o4 + p4.len();
    let o6 = o5 + 1;
    let o7 = o6 + p6.len();
    let o8 = o7 + p7.len();
    let o9 = o8 + 1;
    assert(b == p0 + p1 + (p2 + p3 + p4 + p5 + p6 + p7 + p8 + p9)) by {
        assert(b =~= p0 + p1 + (p2 + p3 + p4 + p5 + p6 + p7 + p8 + p9));
    }
    lemma_chain_piece(b, p0, p1, p2 + p3 + p4 + p5 + p6 + p7 + p8 + p9);
    assert(b == (p0 + p1) + p2 + (p3 + p4 + p5 + p6 + p7 + p8 + p9)) by {
        assert(b =~= (p0 + p1) + p2 + (p3 + p4 + p5 + p6 + p7 + p8 + p9));
    }
    lemma_chain_piece(b, p0 + p1, p2, p3 + p4 + p5 + p6 + p7 + p8 + p9);
    assert(b == (p0 + p1 + p2) + p3 + (p4 + p5 + p6 + p7 + p8 + p9)) by {
        assert(b =~= (p0 + p1 + p2) + p3 + (p4 + p5 + p6 + p7 + p8 + p9));
    }
    lemma_chain_piece(b, p0 + p1 + p2, p3, p4 + p5 + p6 + p7 + p8 + p9);
    assert(b == (p0 + p1 + p2 + p3) + p4 + (p5 + p6 + p7 + p8 + p9)) by {
        assert(b =~= (p0 + p1 + p2 + p3) + p4 + (p5 + p6 + p7 + p8 + p9));
    }
    lemma_chain_piece(b, p0 + p1 + p2 + p3, p4, p5 + p6 + p7 + p8 + p9);
    assert(b == (p0 + p1 + p2 + p3 + p4) + p5 + (p6 + p7 + p8 + p9)) by {
        assert(b =~= (p0 + p1 + p2 + p3 + p4) + p5 + (p6 + p7 + p8 + p9));
    }
    lemma_chain_piece(b, p0 + p1 + p2 + p3 + p4, p5, p6 + p7 + p8 + p9);
    assert(b == (p0 + p1 + p2 + p3 + p4 + p5) + p6 + (p7 + p8 + p9)) by {
        assert(b =~= (p0 + p1 + p2 + p3 + p4 + p5) + p6 + (p7 + p8 + p9));
    }
    lemma_chain_piece(b, p0 + p1 + p2 + p3 + p4 + p5, p6, p7 + p8 + p9);
    assert(b == (p0 + p1 + p2 + p3 + p4 + p5 + p6) + p7 + (p8 + p9)) by {
        assert(b =~= (p0 + p1 + p2 + p3 + p4 + p5 + p6) + p7 + (p8 + p9));
    }
    lemma_chain_piece(b, p0 + p1 + p2 + p3 + p4 + p5 + p6, p7, p8 + p9);
    assert(b == (p0 + p1 + p2 + p3 + p4 + p5 + p6 + p7) + p8 + p9) by {
        assert(b =~= (p0 + p1 + p2 + p3 + p4 + p5 + p6 + p7) + p8 + p9);
    }
    lemma_chain_piece(b, p0 + p1 + p2 + p3 + p4 + p5 + p6 + p7, p8, p9);
    assert(b == (p0 + p1 + p2 + p3 + p4 + p5 + p6 + p7 + p8) + p9 + Seq::<u8>::empty()) by {
        assert(b =~= (p0 + p1 + p2 + p3 + p4 + p5 + p6 + p7 + p8) + p9 + Seq::<u8>::empty());
    }
    lemma_chain_piece(b, p0 + p1 + p2 + p3 + p4 + p5 + p6 + p7 + p8, p9, Seq::<u8>::empty());

    // The magic header bytes.
    assert(b[0] == 66 && b[1] == 82 && b[2] == 67 && b[3] == 80 && b[4] == 49 && b[5] == 10) by {
        assert(forall|t: int| 0 <= t < 6 ==> b[t] == (p0 + p1 + p2 + p3 + p4 + p5 + p6 + p7 + p8 + p9)[t]);
        assert(forall|t: int| 0 <= t < 6 ==> (p0 + p1)[t] == p0[t]);
    }

    // The hash field.
    assert(can_parse_str_at(b, 6, h)) by {
        assert(b.subrange(o1, o1 + p1.len() as int) == p1);
    }
    // The timestamp and its line feed.
    assert(can_parse_rep_at(b, off_ts(h), ts)) by {
        assert(b.subrange(o2, o2 + p2.len() as int) == p2);
        assert(b.subrange(o3, o3 + 1) == p3);
        assert(b[o3] == p3[0]);
    }
    assert(b[off_ts(h) + dec_rep(ts as nat).len()] == 10) by {
        assert(b.subrange(o3, o3 + 1) == p3);
        assert(b.subrange(o3, o3 + 1)[0] == b[o3]);
    }
    // The completed count and its line feed.
    assert((c.len() as u64) as nat == c.len());
    assert(can_parse_rep_at(b, off_nc(h, ts), c.len() as u64)) by {
        assert(b.subrange(o4, o4 + p4.len() as int) == p4);
        assert(b.subrange(o5, o5 + 1) == p5);
        assert(b[o5] == p5[0]) by {
            assert(b.subrange(o5, o5 + 1)[0] == b[o5]);
        }
    }
    assert(b[off_nc(h, ts) + dec_rep(c.len()).len()] == 10) by {
        assert(b.subrange(o5, o5 + 1)[0] == b[o5]);
    }
    // The completed list.
    assert(can_parse_strs_at(b, off_cl(h, ts, c), c, c.len() as u64)) by {
        assert(b.subrange(o6, o6 + p6.len() as int) == p6);
    }
    // The failed count and its line feed.
    assert((f.len() as u64) as nat == f.len());
    assert(can_parse_rep_at(b, off_nf(h, ts, c), f.len() as u64)) by {
        assert(b.subrange(o7, o7 + p7.len() as int) == p7);
        assert(b.subrange(o8, o8 + 1) == p8);
        assert(b[o8] == p8[0]) by {
            assert(b.subrange(o8, o8 + 1)[0] == b[o8]);
        }
    }
    assert(b[off_nf(h, ts, c) + dec_rep(f.len()).len()] == 10) by {
        assert(b.subrange(o8, o8 + 1)[0] == b[o8]);
    }
    // The failed list, ending the record.
    assert(can_parse_strs_at(b, off_fl(h, ts, c, f), f, f.len() as u64)) by {
        assert(b.subrange(o9, o9 + p9.len() as int) == p9);
    }
}

/// The encoding of a list's first `k` strings is unchanged by what follows.
proof fn lemma_enc_strs_upto_stable(l1: Seq<Seq<char>>, l2: Seq<Seq<char>>, k: int)
    requires
        forall|t: int| 0 <= t < k ==> l1[t] == l2[t],
        k <= l1.len(),
    ensures
        enc_strs_upto(l1, k) == enc_strs_upto(l2, k),
    decreases k,
{
    if k > 0 {
        lemma_enc_strs_upto_stable(l1, l2, k - 1);
    }
}


/// Whether the bytes hold some bounded record.
pub open spec fn holds_record(bs: Seq<u8>) -> bool {
    exists|h: Seq<char>, ts: u64, c: Seq<Seq<char>>, f: Seq<Seq<char>>|
        bs == #[trigger] enc_cp(h, ts, c, f) && record_bounded(h, c, f)
}

/// The parsed hash field ends exactly where the record's hash field ends.
proof fn lemma_align_hash(
    bs: Seq<u8>,
    h2: Seq<char>,
    t2: u64,
    c2: Seq<Seq<char>>,
    f2: Seq<Seq<char>>,
    hs: Seq<char>,
    p1: int,
)
    requires
        bs == enc_cp(h2, t2, c2, f2),
        record_bounded(h2, c2, f2),
        6 <= p1 <= bs.len(),
        bs.subrange(6, p1) == enc_str(hs),
    ensures
        p1 == off_ts(h2),
{
    lemma_record_layout(bs, h2, t2, c2, f2);
    lemma_suffix_decompose(bs, 6, p1);
    lemma_suffix_decompose(bs, 6, off_ts(h2));
    lemma_enc_str_unique(
        hs,
        h2,
        bs.subrange(p1, bs.len() as int),
        bs.subrange(off_ts(h2), bs.len() as int),
    );
}

/// A parsed list of `n` fields ends exactly where the record's list of the
/// same length ends.
proof fn lemma_align_list(
    bs: Seq<u8>,
    start: int,
    ld: Seq<Seq<char>>,
    pend: int,
    c2: Seq<Seq<char>>,
    n: u64,
)
    requires
        can_parse_strs_at(bs, start, c2, n),
        ld.len() == n,
        start <= pend <= bs.len(),
        bs.subrange(start, pend) == enc_strs_upto(ld, n as int),
    ensures
        pend == start + enc_strs_upto(c2, n as int).len(),
{
    lemma_suffix_decompose(bs, start, pend);
    lemma_suffix_decompose(bs, start, start + enc_strs_upto(c2, n as int).len() as int);
    lemma_enc_strs_unique(
        ld,
        c2,
        bs.subrange(pend, bs.len() as int),
        bs.subrange(start + enc_strs_upto(c2, n as int).len() as int, bs.len() as int),
    );
}


/// The parsed timestamp and its end match the record's.
proof fn lemma_align_ts(
    bs: Seq<u8>,
    h2: Seq<char>,
    t2: u64,
    c2: Seq<Seq<char>>,
    f2: Seq<Seq<char>>,
    p1: int,
    ts: u64,
    p2: int,
)
    requires
        bs == enc_cp(h2, t2, c2, f2),
        record_bounded(h2, c2, f2),
        p1 == off_ts(h2),
        crate::strutil::parse_dec(bs, p1) == Some((ts, p2)),
    ensures
        ts == t2,
        p2 == off_nc(h2, t2) - 1,
        p2 < bs.len(),
        bs[p2] == 10,
{
    lemma_record_layout(bs, h2, t2, c2, f2);
    crate::strutil::lemma_parse_dec_of_rep(bs, p1, t2);
    lemma_dec_rep_val(c2.len());
    lemma_dec_rep_val(f2.len());
}

/// The parsed completed-count and its end match the record's.
proof fn lemma_align_nc(
    bs: Seq<u8>,
    h2: Seq<char>,
    t2: u64,
    c2: Seq<Seq<char>>,
    f2: Seq<Seq<char>>,
    p3: int,
    nc: u64,
    p4: int,
)
    requires
        bs == enc_cp(h2, t2, c2, f2),
        record_bounded(h2, c2, f2),
        p3 == off_nc(h2, t2),
        crate::strutil::parse_dec(bs, p3) == Some((nc, p4)),
    ensures
        nc == c2.len(),
        p4 == off_cl(h2, t2, c2) - 1,
        p4 < bs.len(),
        bs[p4] == 10,
{
    lemma_record_layout(bs, h2, t2, c2, f2);
    crate::strutil::lemma_parse_dec_of_rep(bs, p3, c2.len() as u64);
    lemma_dec_rep_val(f2.len());
}

/// The parsed failed-count and its end match the record's.
proof fn lemma_align_nf(
    bs: Seq<u8>,
    h2: Seq<char>,
    t2: u64,
    c2: Seq<Seq<char>>,
    f2: Seq<Seq<char>>,
    p5: int,
    nf: u64,
    p6: int,
)
    requires
        bs == enc_cp(h2, t2, c2, f2),
        record_bounded(h2, c2, f2),
        p5 == off_nf(h2, t2, c2),
        crate::strutil::parse_dec(bs, p5) == Some((nf, p6)),
    ensures
        nf == f2.len(),
        p6 == off_fl(h2, t2, c2, f2) - 1,
        p6 < bs.len(),
        bs[p6] == 10,
{
    lemma_record_layout(bs, h2, t2, c2, f2);
    crate::strutil::lemma_parse_dec_of_rep(bs, p5, f2.len() as u64);
}


/// Whether a count line (a rendered `v` and a line feed) stands at `i`.
pub open spec fn can_parse_count_at(b: Seq<u8>, i: int, v: u64) -> bool {
    &&& can_parse_rep_at(b, i, v)
    &&& i + dec_rep(v as nat).len() < b.len()
    &&& b[i + dec_rep(v as nat).len() as int] == 10
}

/// Parse a count line: a canonical decimal followed by a line feed.
fn parse_count_line(b: &[u8], i: usize) -> (r: Option<(u64, usize)>)
    requires
        i <= b@.len(),
    ensures
        r matches Some((v, j)) ==> i < j <= b@.len() && b@.subrange(i as int, j as int) == dec_rep(
            v as nat,
        ) + seq![10u8] && crate::strutil::parse_dec(b@, i as int) == Some((v, j - 1)),
        r is None ==> forall|v: u64| !can_parse_count_at(b@, i as int, v),
{
    let (v, j1) = match parse_dec_canonical(b, i) {
        Some(p) => p,
        None => {
            proof {
                assert forall|v2: u64| !can_parse_count_at(b@, i as int, v2) by {
                    if can_parse_count_at(b@, i as int, v2) {
                        assert(can_parse_rep_at(b@, i as int, v2));
                    }
                }
            }
            return None;
        },
    };
    if j1 >= b.len() || b[j1] != 10 {
        proof {
            assert forall|v2: u64| !can_parse_count_at(b@, i as int, v2) by {
                if can_parse_count_at(b@, i as int, v2) {
                    crate::strutil::lemma_parse_dec_of_rep(b@, i as int, v2);
                }
            }
        }
        return None;
    }
    proof {
        assert(b@.subrange(i as int, j1 + 1) =~= dec_rep(v as nat) + seq![10u8]);
    }
    Some((v, j1 + 1))
}

/// Parse the record's header: the magic bytes, the plan-hash field, and the
/// timestamp line. On a bounded record the header always parses and lands
/// exactly at the record's completed-count line.
#[verifier::rlimit(100)]
fn parse_header(b: &[u8]) -> (r: Option<(String, u64, usize)>)
    ensures
        r matches Some((hash, ts, p3)) ==> 0 <= p3 <= b@.len() && b@.subrange(0, p3 as int)
            == magic_bytes() + enc_str(hash@) + dec_rep(ts as nat) + seq![10u8],
        r is None ==> !holds_record(b@),
        r matches Some((hash, ts, p3)) ==> header_aligned(b@, hash@, ts, p3 as int),
{
    if b.len() < 6 || b[0] != 66 || b[1] != 82 || b[2] != 67 || b[3] != 80 || b[4] != 49
        || b[5] != 10 {
        proof {
            if holds_record(b@) {
                let (h2, t2, c2, f2) = choose|
                    h2: Seq<char>,
                    t2: u64,
                    c2: Seq<Seq<char>>,
                    f2: Seq<Seq<char>>,
                | b@ == #[trigger] enc_cp(h2, t2, c2, f2) && record_bounded(h2, c2, f2);
                lemma_record_layout(b@, h2, t2, c2, f2);
            }
        }
        return None;
    }
    let (hash, p1) = match parse_str_at(b, 6) {
        Some(p) => p,
        None => {
            proof {
                if holds_record(b@) {
                    let (h2, t2, c2, f2) = choose|
                        h2: Seq<char>,
                        t2: u64,
                        c2: Seq<Seq<char>>,
                        f2: Seq<Seq<char>>,
                    | b@ == #[trigger] enc_cp(h2, t2, c2, f2) && record_bounded(h2, c2, f2);
                    lemma_record_layout(b@, h2, t2, c2, f2);
                }
            }
            return None;
        },
    };
    let (ts, p3) = match parse_count_line(b, p1) {
        Some(p) => p,
        None => {
            proof {
                if holds_record(b@) {
                    let (h2, t2, c2, f2) = choose|
                        h2: Seq<char>,
                        t2: u64,
                        c2: Seq<Seq<char>>,
                        f2: Seq<Seq<char>>,
                    | b@ == #[trigger] enc_cp(h2, t2, c2, f2) && record_bounded(h2, c2, f2);
                    lemma_record_layout(b@, h2, t2, c2, f2);
                    lemma_align_hash(b@, h2, t2, c2, f2, hash@, p1 as int);
                    lemma_dec_rep_val(t2 as nat);
                    lemma_dec_rep_val(c2.len());
                    lemma_dec_rep_val(f2.len());
                    assert(can_parse_count_at(b@, p1 as int, t2));
                }
            }
            return None;
        },
    };
    proof {
        assert(b@.subrange(0, 6) =~= magic_bytes());
        assert(b@.subrange(6, p1 as int) == enc_str(hash@));
        assert(b@.subrange(p1 as int, p3 as int) == dec_rep(ts as nat) + seq![10u8]);
        let rhs = magic_bytes() + enc_str(hash@) + (dec_rep(ts as nat) + seq![10u8]);
        assert(p1 - 6 == enc_str(hash@).len());
        assert(p3 - p1 == (dec_rep(ts as nat) + seq![10u8]).len());
        assert forall|t: int| 0 <= t < p3 implies b@.subrange(0, p3 as int)[t] == rhs[t] by {
            if t < 6 {
                assert(b@[t] == b@.subrange(0, 6)[t]);
                assert(rhs[t] == magic_bytes()[t]);
            } else if t < p1 {
                assert(b@[t] == b@.subrange(6, p1 as int)[t - 6]);
                assert(rhs[t] == (magic_bytes() + enc_str(hash@))[t]);
                assert((magic_bytes() + enc_str(hash@))[t] == enc_str(hash@)[t - 6]);
            } else {
                assert(b@[t] == b@.subrange(p1 as int, p3 as int)[t - p1]);
                assert(rhs[t] == (dec_rep(ts as nat) + seq![10u8])[t - p1]);
            }
        }
        assert(b@.subrange(0, p3 as int) =~= rhs);
        assert(b@.subrange(0, p3 as int) =~= magic_bytes() + enc_str(hash@) + dec_rep(ts as nat)
            + seq![10u8]);
        if holds_record(b@) {
            assert forall|h2: Seq<char>, t2: u64, c2: Seq<Seq<char>>, f2: Seq<Seq<char>>|
                (b@ == #[trigger] enc_cp(h2, t2, c2, f2) && record_bounded(h2, c2, f2)) implies (
            hash@ == h2 && ts == t2 && p3 as int == off_nc(h2, t2)) by {
                lemma_record_layout(b@, h2, t2, c2, f2);
                lemma_align_hash(b@, h2, t2, c2, f2, hash@, p1 as int);
                lemma_align_ts(b@, h2, t2, c2, f2, p1 as int, ts, p3 - 1);
                lemma_suffix_decompose(b@, 6, p1 as int);
                lemma_enc_str_unique(
                    hash@,
                    h2,
                    b@.subrange(p1 as int, b@.len() as int),
                    b@.subrange(off_ts(h2), b@.len() as int),
                );
            }
        }
    }
    Some((hash, ts, p3))
}


/// The header alignment fact a parsed header provides.
pub open spec fn header_aligned(bs: Seq<u8>, hash: Seq<char>, ts: u64, p3: int) -> bool {
    forall|h2: Seq<char>, t2: u64, c2: Seq<Seq<char>>, f2: Seq<Seq<char>>|
        (bs == #[trigger] enc_cp(h2, t2, c2, f2) && record_bounded(h2, c2, f2)) ==> (hash == h2
            && ts == t2 && p3 == off_nc(h2, t2))
}

/// A record has a completed-count line where the header ends.
proof fn lemma_record_has_count_c(bs: Seq<u8>, hash: Seq<char>, ts: u64, p3: int)
    requires
        holds_record(bs),
        header_aligned(bs, hash, ts, p3),
    ensures
        exists|v: u64| can_parse_count_at(bs, p3, v),
{
    let (h2, t2, c2, f2) = choose|h2: Seq<char>, t2: u64, c2: Seq<Seq<char>>, f2: Seq<Seq<char>>|
        bs == #[trigger] enc_cp(h2, t2, c2, f2) && record_bounded(h2, c2, f2);
    lemma_record_layout(bs, h2, t2, c2, f2);
    lemma_dec_rep_val(c2.len());
    lemma_dec_rep_val(f2.len());
    assert(can_parse_count_at(bs, p3, c2.len() as u64));
}

/// A record has its completed list after the completed-count line.
proof fn lemma_record_has_strs_c(
    bs: Seq<u8>,
    hash: Seq<char>,
    ts: u64,
    p3: int,
    nc: u64,
    p4: int,
)
    requires
        holds_record(bs),
        header_aligned(bs, hash, ts, p3),
        crate::strutil::parse_dec(bs, p3) == Some((nc, p4 - 1)),
    ensures
        exists|c: Seq<Seq<char>>| can_parse_strs_at(bs, p4, c, nc),
{
    let (h2, t2, c2, f2) = choose|h2: Seq<char>, t2: u64, c2: Seq<Seq<char>>, f2: Seq<Seq<char>>|
        bs == #[trigger] enc_cp(h2, t2, c2, f2) && record_bounded(h2, c2, f2);
    lemma_record_layout(bs, h2, t2, c2, f2);
    lemma_align_nc(bs, h2, t2, c2, f2, p3, nc, p4 - 1);
    assert(can_parse_strs_at(bs, p4, c2, nc));
}

/// A record has a failed-count line after its completed list.
proof fn lemma_record_has_count_f(
    bs: Seq<u8>,
    hash: Seq<char>,
    ts: u64,
    p3: int,
    nc: u64,
    p4: int,
    cdeep: Seq<Seq<char>>,
    p5: int,
)
    requires
        holds_record(bs),
        header_aligned(bs, hash, ts, p3),
        crate::strutil::parse_dec(bs, p3) == Some((nc, p4 - 1)),
        cdeep.len() == nc,
        p4 <= p5 <= bs.len(),
        bs.subrange(p4, p5) == enc_strs_upto(cdeep, nc as int),
    ensures
        exists|v: u64| can_parse_count_at(bs, p5, v),
{
    let (h2, t2, c2, f2) = choose|h2: Seq<char>, t2: u64, c2: Seq<Seq<char>>, f2: Seq<Seq<char>>|
        bs == #[trigger] enc_cp(h2, t2, c2, f2) && record_bounded(h2, c2, f2);
    lemma_record_layout(bs, h2, t2, c2, f2);
    lemma_align_nc(bs, h2, t2, c2, f2, p3, nc, p4 - 1);
    lemma_align_list(bs, p4, cdeep, p5, c2, nc);
    lemma_dec_rep_val(f2.len());
    assert(can_parse_count_at(bs, p5, f2.len() as u64));
}

/// A record has its failed list after the failed-count line.
proof fn lemma_record_has_strs_f(
    bs: Seq<u8>,
    hash: Seq<char>,
    ts: u64,
    p3: int,
    nc: u64,
    p4: int,
    cdeep: Seq<Seq<char>>,
    p5: int,
    nf: u64,
    p6: int,
)
    requires
        holds_record(bs),
        header_aligned(bs, hash, ts, p3),
        crate::strutil::parse_dec(bs, p3) == Some((nc, p4 - 1)),
        cdeep.len() == nc,
        p4 <= p5 <= bs.len(),
        bs.subrange(p4, p5) == enc_strs_upto(cdeep, nc as int),
        crate::strutil::parse_dec(bs, p5) == Some((nf, p6 - 1)),
    ensures
        exists|f: Seq<Seq<char>>| can_parse_strs_at(bs, p6, f, nf),
{
    let (h2, t2, c2, f2) = choose|h2: Seq<char>, t2: u64, c2: Seq<Seq<char>>, f2: Seq<Seq<char>>|
        bs == #[trigger] enc_cp(h2, t2, c2, f2) && record_bounded(h2, c2, f2);
    lemma_record_layout(bs, h2, t2, c2, f2);
    lemma_align_nc(bs, h2, t2, c2, f2, p3, nc, p4 - 1);
    lemma_align_list(bs, p4, cdeep, p5, c2, nc);
    lemma_align_nf(bs, h2, t2, c2, f2, p5, nf, p6 - 1);
    assert(can_parse_strs_at(bs, p6, f2, nf));
}

/// A record's failed list runs exactly to the record's end.
proof fn lemma_record_end(
    bs: Seq<u8>,
    hash: Seq<char>,
    ts: u64,
    p3: int,
    nc: u64,
    p4: int,
    cdeep: Seq<Seq<char>>,
    p5: int,
    nf: u64,
    p6: int,
    fdeep: Seq<Seq<char>>,
    p7: int,
)
    requires
        holds_record(bs),
        header_aligned(bs, hash, ts, p3),
        crate::strutil::parse_dec(bs, p3) == Some((nc, p4 - 1)),
        cdeep.len() == nc,
        p4 <= p5 <= bs.len(),
        bs.subrange(p4, p5) == enc_strs_upto(cdeep, nc as int),
        crate::strutil::parse_dec(bs, p5) == Some((nf, p6 - 1)),
        fdeep.len() == nf,
        p6 <= p7 <= bs.len(),
        bs.subrange(p6, p7) == enc_strs_upto(fdeep, nf as int),
    ensures
        p7 == bs.len(),
{
    let (h2, t2, c2, f2) = choose|h2: Seq<char>, t2: u64, c2: Seq<Seq<char>>, f2: Seq<Seq<char>>|
        bs == #[trigger] enc_cp(h2, t2, c2, f2) && record_bounded(h2, c2, f2);
    lemma_record_layout(bs, h2, t2, c2, f2);
    lemma_align_nc(bs, h2, t2, c2, f2, p3, nc, p4 - 1);
    lemma_align_list(bs, p4, cdeep, p5, c2, nc);
    lemma_align_nf(bs, h2, t2, c2, f2, p5, nf, p6 - 1);
    lemma_align_list(bs, p6, fdeep, p7, f2, nf);
}

/// Parsed pieces that tile the whole record assemble into its encoding.
proof fn lemma_assemble_record(
    bs: Seq<u8>,
    hash: Seq<char>,
    ts: u64,
    p3: int,
    nc: u64,
    p4: int,
    cdeep: Seq<Seq<char>>,
    p5: int,
    nf: u64,
    p6: int,
    fdeep: Seq<Seq<char>>,
)
    requires
        0 <= p3 <= p4 <= p5 <= p6 <= bs.len(),
        bs.subrange(0, p3) == magic_bytes() + enc_str(hash) + dec_rep(ts as nat) + seq![10u8],
        bs.subrange(p3, p4) == dec_rep(nc as nat) + seq![10u8],
        bs.subrange(p4, p5) == enc_strs_upto(cdeep, nc as int),
        bs.subrange(p5, p6) == dec_rep(nf as nat) + seq![10u8],
        bs.subrange(p6, bs.len() as int) == enc_strs_upto(fdeep, nf as int),
        cdeep.len() == nc,
        fdeep.len() == nf,
    ensures
        bs == enc_cp(hash, ts, cdeep, fdeep),
{
    let a = magic_bytes() + enc_str(hash) + dec_rep(ts as nat) + seq![10u8];
    let b1 = dec_rep(nc as nat) + seq![10u8];
    let b2 = enc_strs_upto(cdeep, nc as int);
    let b3 = dec_rep(nf as nat) + seq![10u8];
    let b4 = enc_strs_upto(fdeep, nf as int);
    let rhs = a + b1 + b2 + b3 + b4;
    assert forall|t: int| 0 <= t < bs.len() implies bs[t] == rhs[t] by {
        if t < p3 {
            assert(bs[t] == bs.subrange(0, p3)[t]);
            assert(rhs[t] == ((((a + b1) + b2) + b3) + b4)[t]);
            assert((a + b1)[t] == a[t]);
        } else if t < p4 {
            assert(bs[t] == bs.subrange(p3, p4)[t - p3]);
            assert(((a + b1) + b2)[t] == (a + b1)[t]);
            assert((a + b1)[t] == b1[t - p3]);
        } else if t < p5 {
            assert(bs[t] == bs.subrange(p4, p5)[t - p4]);
            assert((((a + b1) + b2) + b3)[t] == ((a + b1) + b2)[t]);
            assert(((a + b1) + b2)[t] == b2[t - p4]);
        } else if t < p6 {
            assert(bs[t] == bs.subrange(p5, p6)[t - p5]);
            assert((((a + b1) + b2) + b3)[t] == b3[t - p5]);
        } else {
            assert(bs[t] == bs.subrange(p6, bs.len() as int)[t - p6]);
            assert(rhs[t] == b4[t - p6]);
        }
    }
    assert(bs =~= rhs);
    assert(enc_cp(hash, ts, cdeep, fdeep) =~= rhs);
}

impl Checkpoint {
    /// Decode a checkpoint from its persistent byte record. A record that
    /// decodes successfully is exactly the encoding of the returned
    /// checkpoint; malformed bytes are a configuration error, never silently
    /// discarded.
    #[verifier::loop_isolation(false)]
    pub fn decode(bytes: &[u8]) -> (r: BootstrapResult<Checkpoint>)
        ensures
            match r {
                Ok(cp) => bytes@ == enc_cp(
                    cp.plan_hash@,
                    cp.timestamp_ms,
                    cp.completed_steps.deep_view(),
                    cp.failed_steps.deep_view(),
                ),
                Err(e) => e matches BootstrapError::ConfigError(_),
            },
            // Completeness: every bounded record decodes.
            holds_record(bytes@) ==> r is Ok,
    {
        let b = bytes;
        let (hash, ts, p3) = match parse_header(b) {
            Some(p) => p,
            None => {
                return Err(BootstrapError::ConfigError("Failed to parse checkpoint".to_owned()));
            },
        };
        let (nc, p4) = match parse_count_line(b, p3) {
            Some(p) => p,
            None => {
                proof {
                    if holds_record(bytes@) {
                        lemma_record_has_count_c(b@, hash@, ts, p3 as int);
                    }
                }
                return Err(BootstrapError::ConfigError("Failed to parse checkpoint".to_owned()));
            },
        };
        let (completed, p5) = match parse_strs_at(b, p4, nc) {
            Some(p) => p,
            None => {
                proof {
                    if holds_record(bytes@) {
                        lemma_record_has_strs_c(b@, hash@, ts, p3 as int, nc, p4 as int);
                    }
                }
                return Err(BootstrapError::ConfigError("Failed to parse checkpoint".to_owned()));
            },
        };
        let (nf, p6) = match parse_count_line(b, p5) {
            Some(p) => p,
            None => {
                proof {
                    if holds_record(bytes@) {
                        lemma_record_has_count_f(
                            b@,
                            hash@,
                            ts,
                            p3 as int,
                            nc,
                            p4 as int,
                            completed.deep_view(),
                            p5 as int,
                        );
                    }
                }
                return Err(BootstrapError::ConfigError("Failed to parse checkpoint".to_owned()));
            },
        };
        let (failed, p7) = match parse_strs_at(b, p6, nf) {
            Some(p) => p,
            None => {
                proof {
                    if holds_record(bytes@) {
                        lemma_record_has_strs_f(
                            b@,
                            hash@,
                            ts,
                            p3 as int,
                            nc,
                            p4 as int,
                            completed.deep_view(),
                            p5 as int,
                            nf,
                            p6 as int,
                        );
                    }
                }
                return Err(BootstrapError::ConfigError("Failed to parse checkpoint".to_owned()));
            },
        };
        if p7 != b.len() {
            proof {
                if holds_record(bytes@) {
                    lemma_record_end(
                        b@,
                        hash@,
                        ts,
                        p3 as int,
                        nc,
                        p4 as int,
                        completed.deep_view(),
                        p5 as int,
                        nf,
                        p6 as int,
                        failed.deep_view(),
                        p7 as int,
                    );
                }
            }
            return Err(BootstrapError::ConfigError("Failed to parse checkpoint".to_owned()));
        }
        let cp = Checkpoint {
            timestamp_ms: ts,
            plan_hash: hash,
            completed_steps: completed,
            failed_steps: failed,
        };
        proof {
            assert(cp.completed_steps.deep_view().len() == nc as nat);
            assert(cp.failed_steps.deep_view().len() == nf as nat);
            assert(b@.subrange(p6 as int, b@.len() as int) == enc_strs_upto(
                cp.failed_steps.deep_view(),
                nf as int,
            ));
            lemma_assemble_record(
                b@,
                cp.plan_hash@,
                ts,
                p3 as int,
                nc,
                p4 as int,
                cp.completed_steps.deep_view(),
                p5 as int,
                nf,
                p6 as int,
                cp.failed_steps.deep_view(),
            );
        }
        Ok(cp)
    }
}

} // verus!
