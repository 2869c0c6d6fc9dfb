//! Text decisions shared by the surrounding tooling: archive format
//! detection, the install-target rule, and shell-style quoting of command
//! lines for logs.

use vstd::prelude::*;
use vstd::string::{StringExecFns, StringSliceAdditionalSpecFns};
use vstd::utf8::*;

use crate::strutil::string_from_valid_utf8;

verus! {

/// Archive format, chosen by file extension.
#[derive(Debug, Clone, Copy, PartialEq, Eq, Structural)]
pub enum ArchiveFormat {
    /// Gzip-compressed tar
    TarGz,
    /// Bzip2-compressed tar
    TarBz2,
    /// Zip
    Zip,
}

/// A byte with ASCII upper-case letters folded to lower case.
pub open spec fn ascii_lower(b: u8) -> u8 {
    if 65 <= b <= 90 {
        (b + 32) as u8
    } else {
        b
    }
}

/// Whether the bytes of `s` end, case-insensitively for ASCII letters, with
/// the bytes of `p`.
pub open spec fn has_suffix_ci(s: Seq<u8>, p: Seq<u8>) -> bool {
    p.len() <= s.len() && forall|k: int|
        0 <= k < p.len() ==> ascii_lower(#[trigger] s[s.len() - p.len() + k]) == p[k]
}

/// Whether the bytes of `s` end, after ASCII lower-casing, with the bytes of
/// the (already lower-case) suffix `p`.
#[verifier::loop_isolation(false)]
fn ends_with_ci(s: &str, p: &str) -> (r: bool)
    ensures
        r == has_suffix_ci(s.spec_bytes(), p.spec_bytes()),
{
    let sb = s.as_bytes();
    let pb = p.as_bytes();
    let n = sb.len();
    let m = pb.len();
    if m > n {
        return false;
    }
    let off: usize = n - m;
    let mut k: usize = 0;
    while k < m
        invariant
            k <= m <= n,
            n == sb@.len(),
            m == pb@.len(),
            off == n - m,
            sb@ == s.spec_bytes(),
            pb@ == p.spec_bytes(),
            forall|t: int| 0 <= t < k ==> ascii_lower(#[trigger] sb@[off + t]) == pb@[t],
        decreases m - k,
    {
        let b = sb[off + k];
        let lowered: u8 = if 65 <= b && b <= 90 {
            b + 32
        } else {
            b
        };
        if lowered != pb[k] {
            return false;
        }
        k = k + 1;
    }
    true
}

/// The archive format a path's extension selects, if any: `.tar.gz` or
/// `.tgz`, `.tar.bz2` or `.tbz2`, or `.zip`, compared without regard to
/// ASCII letter case.
pub open spec fn archive_format_of(b: Seq<u8>) -> Option<ArchiveFormat> {
    if has_suffix_ci(b, encode_utf8(".tar.gz"@)) || has_suffix_ci(b, encode_utf8(".tgz"@)) {
        Some(ArchiveFormat::TarGz)
    } else if has_suffix_ci(b, encode_utf8(".tar.bz2"@)) || has_suffix_ci(
        b,
        encode_utf8(".tbz2"@),
    ) {
        Some(ArchiveFormat::TarBz2)
    } else if has_suffix_ci(b, encode_utf8(".zip"@)) {
        Some(ArchiveFormat::Zip)
    } else {
        None
    }
}

/// Determine the archive format from a path's extension; an unsupported
/// extension is an error naming the path.
pub fn determine_archive_format(path: &str) -> (r: Result<ArchiveFormat, String>)
    ensures
        match r {
            Ok(f) => archive_format_of(path.spec_bytes()) == Some(f),
            Err(m) => archive_format_of(path.spec_bytes()) is None && m@
                == "Unsupported archive format. Use .tar.gz, .tar.bz2, or .zip: "@ + path@,
        },
{
    if ends_with_ci(path, ".tar.gz") || ends_with_ci(path, ".tgz") {
        Ok(ArchiveFormat::TarGz)
    } else if ends_with_ci(path, ".tar.bz2") || ends_with_ci(path, ".tbz2") {
        Ok(ArchiveFormat::TarBz2)
    } else if ends_with_ci(path, ".zip") {
        Ok(ArchiveFormat::Zip)
    } else {
        Err("Unsupported archive format. Use .tar.gz, .tar.bz2, or .zip: ".to_owned().concat(path))
    }
}

/// Where repo-lint is installed from: packaging metadata under
/// `tools/repo_cli` is preferred over metadata at the working-tree root;
/// metadata in neither place is an error.
pub fn determine_install_target(
    repo_root: &str,
    root_has_pkg: bool,
    tools_has_pkg: bool,
) -> (r: Result<String, String>)
    ensures
        tools_has_pkg ==> (r matches Ok(p) && p@ == repo_root@ + "/"@ + "tools/repo_cli"@),
        !tools_has_pkg && root_has_pkg ==> (r matches Ok(p) && p@ == repo_root@),
        !tools_has_pkg && !root_has_pkg ==> (r matches Err(m) && m@
            == "Could not determine where to install repo-lint (no packaging metadata found)."@),
{
    if tools_has_pkg {
        Ok(crate::context::join_path(repo_root, "tools/repo_cli"))
    } else if root_has_pkg {
        Ok(repo_root.to_owned())
    } else {
        Err("Could not determine where to install repo-lint (no packaging metadata found).".to_owned())
    }
}

/// Whether a byte makes an argument need shell quoting: space, double
/// quote, single quote, dollar, or backslash.
pub open spec fn is_special(b: u8) -> bool {
    b == 32 || b == 34 || b == 39 || b == 36 || b == 92
}

/// Whether any byte of the argument needs quoting.
pub open spec fn needs_quoting(b: Seq<u8>) -> bool {
    exists|k: int| 0 <= k < b.len() && is_special(#[trigger] b[k])
}

/// The quoted body of an argument: each single quote becomes `'\''`.
pub open spec fn esc_quotes(b: Seq<u8>) -> Seq<u8>
    decreases b.len(),
{
    if b.len() == 0 {
        Seq::<u8>::empty()
    } else {
        (if b[0] == 39 {
            seq![39u8, 92u8, 39u8, 39u8]
        } else {
            seq![b[0]]
        }) + esc_quotes(b.drop_first())
    }
}

/// The rendering of one argument: quoted when it holds a special byte.
pub open spec fn esc_arg(b: Seq<u8>) -> Seq<u8> {
    if needs_quoting(b) {
        seq![39u8] + esc_quotes(b) + seq![39u8]
    } else {
        b
    }
}

/// The rendering of a command line's first `k` arguments, space-separated.
pub open spec fn esc_cmd_upto(args: Seq<Seq<char>>, k: int) -> Seq<u8>
    decreases k,
{
    if k <= 0 {
        Seq::<u8>::empty()
    } else if k == 1 {
        esc_arg(encode_utf8(args[0]))
    } else {
        esc_cmd_upto(args, k - 1) + seq![32u8] + esc_arg(encode_utf8(args[k - 1]))
    }
}

/// Quoting distributes over concatenation.
proof fn lemma_esc_quotes_concat(x: Seq<u8>, y: Seq<u8>)
    ensures
        esc_quotes(x + y) == esc_quotes(x) + esc_quotes(y),
    decreases x.len(),
{
    if x.len() == 0 {
        assert(x + y =~= y);
        assert(esc_quotes(x) =~= Seq::<u8>::empty());
        assert(esc_quotes(x) + esc_quotes(y) =~= esc_quotes(y));
    } else {
        lemma_esc_quotes_concat(x.drop_first(), y);
        assert((x + y).drop_first() =~= x.drop_first() + y);
        assert((x + y)[0] == x[0]);
        assert(esc_quotes(x + y) =~= esc_quotes(x) + esc_quotes(y));
    }
}

/// A sequence without single quotes is unchanged by quoting.
proof fn lemma_esc_quotes_id(b: Seq<u8>)
    requires
        forall|k: int| 0 <= k < b.len() ==> b[k] != 39,
    ensures
        esc_quotes(b) == b,
    decreases b.len(),
{
    if b.len() > 0 {
        lemma_esc_quotes_id(b.drop_first());
        assert(esc_quotes(b) =~= b);
    }
}

/// Quoting the body of a valid UTF-8 argument yields valid UTF-8: only ASCII
/// bytes are touched, and multi-byte scalars pass through unchanged.
proof fn lemma_esc_quotes_valid(b: Seq<u8>)
    requires
        valid_utf8(b),
    ensures
        valid_utf8(esc_quotes(b)),
    decreases b.len(),
{
    if b.len() == 0 {
    } else {
        let w = length_of_first_scalar(b);
        let head = take_first_scalar(b);
        let rest = pop_first_scalar(b);
        assert(1 <= w <= 4);
        assert(head.len() == w && rest.len() == b.len() - w);
        lemma_esc_quotes_valid(rest);
        assert(b =~= head + rest);
        lemma_esc_quotes_concat(head, rest);
        if w == 1 {
            assert(is_leading_byte_width_1(b[0]));
            let piece = if b[0] == 39 {
                seq![39u8, 92u8, 39u8, 39u8]
            } else {
                seq![b[0]]
            };
            assert(esc_quotes(head) =~= piece) by {
                assert(head[0] == b[0]);
                assert(head.drop_first() =~= Seq::<u8>::empty());
                assert(esc_quotes(head.drop_first()) =~= Seq::<u8>::empty());
                assert(piece + Seq::<u8>::empty() =~= piece);
            }
            assert(forall|k: int| 0 <= k < piece.len() ==> piece[k] < 0x80);
            crate::strutil::lemma_ascii_valid_utf8(piece);
            valid_utf8_concat(piece, esc_quotes(rest));
        } else {
            assert(forall|k: int| 0 <= k < head.len() ==> #[trigger] head[k] != 39) by {
                assert(head[0] == b[0]);
                assert(!is_leading_byte_width_1(b[0]));
                assert(forall|k: int| 1 <= k < w ==> is_continuation_byte(b[k]));
                assert(forall|k: int| 1 <= k < head.len() ==> head[k] == b[k]);
            }
            lemma_esc_quotes_id(head);
            assert(valid_utf8(head)) by {
                assert(head.len() == w);
                assert(head[0] == b[0]);
                assert(forall|k: int| 0 <= k < w ==> head[k] == b[k]);
                assert(valid_leading_and_continuation_bytes_first_codepoint(head));
                assert(decode_first_codepoint(head) == decode_first_codepoint(b));
                assert(length_of_first_codepoint(head) == length_of_first_codepoint(b));
                assert(valid_first_scalar(head));
                assert(length_of_first_scalar(head) == w);
                assert(pop_first_scalar(head) =~= Seq::<u8>::empty());
                assert(valid_utf8(pop_first_scalar(head)));
            }
            valid_utf8_concat(head, esc_quotes(rest));
        }
    }
}

/// The rendering of one argument is valid UTF-8.
proof fn lemma_esc_arg_valid(s: Seq<char>)
    ensures
        valid_utf8(esc_arg(encode_utf8(s))),
{
    encode_utf8_valid_utf8(s);
    if needs_quoting(encode_utf8(s)) {
        lemma_esc_quotes_valid(encode_utf8(s));
        crate::strutil::lemma_ascii_valid_utf8(seq![39u8]);
        valid_utf8_concat(seq![39u8], esc_quotes(encode_utf8(s)));
        valid_utf8_concat(seq![39u8] + esc_quotes(encode_utf8(s)), seq![39u8]);
        assert(esc_arg(encode_utf8(s)) =~= (seq![39u8] + esc_quotes(encode_utf8(s)))
            + seq![39u8]);
    }
}

/// Whether a byte slice holds a special byte anywhere.
#[verifier::loop_isolation(false)]
fn slice_needs_quoting(b: &[u8]) -> (r: bool)
    ensures
        r == needs_quoting(b@),
{
    let n = b.len();
    let mut k: usize = 0;
    while k < n
        invariant
            k <= n == b@.len(),
            forall|t: int| 0 <= t < k ==> !is_special(#[trigger] b@[t]),
        decreases n - k,
    {
        let c = b[k];
        if c == 32 || c == 34 || c == 39 || c == 36 || c == 92 {
            return true;
        }
        k = k + 1;
    }
    false
}

/// Append the rendering of one argument's quoted body.
#[verifier::loop_isolation(false)]
fn push_quoted(out: &mut Vec<u8>, b: &[u8])
    ensures
        final(out)@ == old(out)@ + esc_quotes(b@),
{
    let ghost start = out@;
    let n = b.len();
    let mut k: usize = 0;
    while k < n
        invariant
            k <= n == b@.len(),
            out@ == start + esc_quotes(b@.take(k as int)),
        decreases n - k,
    {
        proof {
            assert(b@.take(k + 1) =~= b@.take(k as int) + seq![b@[k as int]]);
            lemma_esc_quotes_concat(b@.take(k as int), seq![b@[k as int]]);
            assert(esc_quotes(seq![b@[k as int]]) =~= (if b@[k as int] == 39 {
                seq![39u8, 92u8, 39u8, 39u8]
            } else {
                seq![b@[k as int]]
            })) by {
                let single = seq![b@[k as int]];
                assert(single.drop_first() =~= Seq::<u8>::empty());
                assert(esc_quotes(single.drop_first()) =~= Seq::<u8>::empty());
            }
        }
        let c = b[k];
        if c == 39 {
            out.push(39);
            out.push(92);
            out.push(39);
            out.push(39);
        } else {
            out.push(c);
        }
        proof {
            assert(out@ =~= start + esc_quotes(b@.take(k + 1)));
        }
        k = k + 1;
    }
    proof {
        assert(b@.take(n as int) =~= b@);
    }
}

/// Render a command line for display in logs: arguments holding spaces,
/// quotes, dollars or backslashes are single-quoted, with embedded single
/// quotes written as `'\''`; arguments are joined by single spaces. This is
/// a readable rendering, not an escape fit to hand to a shell.
#[verifier::loop_isolation(false)]
pub fn shell_escape_command(command: &Vec<String>) -> (r: String)
    ensures
        encode_utf8(r@) == esc_cmd_upto(command.deep_view(), command.deep_view().len() as int),
{
    let mut out: Vec<u8> = Vec::new();
    let n = command.len();
    let mut k: usize = 0;
    while k < n
        invariant
            k <= n == command@.len(),
            out@ == esc_cmd_upto(command.deep_view(), k as int),
            valid_utf8(out@),
        decreases n - k,
    {
        let ghost dv = command.deep_view();
        if k > 0 {
            out.push(32);
        }
        let arg = command[k].as_str();
        proof {
            assert(arg@ == dv[k as int]);
            crate::strutil::lemma_str_view_is_decoded_bytes(arg);
        }
        let ab = arg.as_bytes();
        if slice_needs_quoting(ab) {
            out.push(39);
            push_quoted(&mut out, ab);
            out.push(39);
        } else {
            crate::strutil::push_bytes(&mut out, ab);
        }
        proof {
            assert(esc_arg(encode_utf8(dv[k as int])) == esc_arg(ab@));
            if k == 0 {
                assert(out@ =~= esc_cmd_upto(dv, 1)) by {
                    assert(out@ =~= esc_arg(encode_utf8(dv[0])));
                }
            } else {
                assert(out@ =~= esc_cmd_upto(dv, k as int) + seq![32u8] + esc_arg(
                    encode_utf8(dv[k as int]),
                ));
            }
            lemma_esc_arg_valid(dv[k as int]);
            crate::strutil::lemma_ascii_valid_utf8(seq![32u8]);
            assert(valid_utf8(out@)) by {
                if k == 0 {
                    assert(out@ == esc_arg(encode_utf8(dv[0])));
                } else {
                    valid_utf8_concat(esc_cmd_upto(dv, k as int), seq![32u8]);
                    valid_utf8_concat(
                        esc_cmd_upto(dv, k as int) + seq![32u8],
                        esc_arg(encode_utf8(dv[k as int])),
                    );
                    assert(out@ =~= (esc_cmd_upto(dv, k as int) + seq![32u8]) + esc_arg(
                        encode_utf8(dv[k as int]),
                    ));
                }
            }
        }
        k = k + 1;
    }
    string_from_valid_utf8(out)
}

} // verus!
