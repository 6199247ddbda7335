//! What a finished `git` command means: its output on success, and the
//! error that names the command and quotes its stderr on failure. The
//! process itself is run by the caller.

use vstd::prelude::*;
use vstd::utf8::{decode_utf8, valid_utf8};

use crate::text::{chars_to_string, join_with, push_chars, push_str, str_chars, trim, trim_end};

verus! {

/// A finished `git` process: whether it exited successfully, and what it
/// wrote.
pub struct GitOutput {
    pub success: bool,
    pub stdout: Vec<u8>,
    pub stderr: Vec<u8>,
}

/// `String::from_utf8`: the bytes decoded, exactly when they are valid
/// UTF-8; otherwise the error's message, whose text is not stated.
#[verifier::external_body]
fn utf8_string(bytes: Vec<u8>) -> (r: Result<String, String>)
    ensures
        r is Ok <==> valid_utf8(bytes@),
        r is Ok ==> r->Ok_0@ == decode_utf8(bytes@),
{
    String::from_utf8(bytes).map_err(|e| e.to_string())
}

/// What `String::from_utf8_lossy` makes of some bytes: each invalid
/// sequence replaced by U+FFFD, the rest decoded.
pub uninterp spec fn lossy_utf8(b: Seq<u8>) -> Seq<char>;

/// `String::from_utf8_lossy`: the bytes decoded with invalid sequences
/// replaced (named `lossy_utf8`); for valid UTF-8 that is the plain decoding.
#[verifier::external_body]
fn utf8_lossy(bytes: &Vec<u8>) -> (r: String)
    ensures
        r@ == lossy_utf8(bytes@),
        valid_utf8(bytes@) ==> r@ == decode_utf8(bytes@),
{
    String::from_utf8_lossy(bytes.as_slice()).into_owned()
}

pub open spec fn str_views(v: Seq<&str>) -> Seq<Seq<char>> {
    v.map_values(|s: &str| s@)
}

/// `git <args> failed: <stderr, trimmed>`.
pub open spec fn failure_message_spec(args: Seq<Seq<char>>, stderr: Seq<char>) -> Seq<char> {
    "git "@ + join_with(args, " "@) + " failed: "@ + trim(stderr)
}

fn args_chars(args: &[&str]) -> (r: Vec<Vec<char>>)
    ensures
        crate::text::char_seqs(r@) == str_views(args@),
{
    let mut out: Vec<Vec<char>> = Vec::new();
    let mut i: usize = 0;
    while i < args.len()
        invariant
            i <= args.len(),
            crate::text::char_seqs(out@) == str_views(args@.take(i as int)),
        decreases args.len() - i,
    {
        let ghost before = out@;
        out.push(str_chars(args[i]));
        assert(args@.take(i as int + 1) =~= args@.take(i as int).push(args@[i as int]));
        assert(crate::text::char_seqs(out@) =~= crate::text::char_seqs(before).push(args@[i as int]@));
        assert(str_views(args@.take(i as int + 1)) =~= str_views(args@.take(i as int)).push(args@[i as int]@));
        i = i + 1;
    }
    assert(args@.take(args.len() as int) =~= args@);
    out
}

/// The error for a failed command; `stderr` is read as UTF-8, lossily.
pub fn failure_message(args: &[&str], stderr: &Vec<u8>) -> (r: String)
    ensures
        r@ == failure_message_spec(str_views(args@), lossy_utf8(stderr@)),
        valid_utf8(stderr@) ==> r@ == failure_message_spec(str_views(args@), decode_utf8(stderr@)),
{
    let words = args_chars(args);
    let joined = crate::text::join_chars(words.as_slice(), " ");
    let err = utf8_lossy(stderr);
    let trimmed = crate::text::trim_chars(str_chars(err.as_str()).as_slice());
    let mut out: Vec<char> = Vec::new();
    push_str(&mut out, "git ");
    push_chars(&mut out, joined.as_slice());
    push_str(&mut out, " failed: ");
    push_chars(&mut out, trimmed.as_slice());
    chars_to_string(out.as_slice())
}

/// The stdout of a successful command; the failure message otherwise.
pub fn output(args: &[&str], out: GitOutput) -> (r: Result<Vec<u8>, String>)
    ensures
        out.success ==> (r matches Ok(b) && b@ == out.stdout@),
        !out.success ==> (r matches Err(e) && e@ == failure_message_spec(
            str_views(args@),
            lossy_utf8(out.stderr@),
        )),
{
    if !out.success {
        return Err(failure_message(args, &out.stderr));
    }
    Ok(out.stdout)
}

/// The raw stdout of a successful command.
pub fn bytes(args: &[&str], out: GitOutput) -> (r: Result<Vec<u8>, String>)
    ensures
        out.success ==> (r matches Ok(b) && b@ == out.stdout@),
        !out.success ==> (r matches Err(e) && e@ == failure_message_spec(
            str_views(args@),
            lossy_utf8(out.stderr@),
        )),
{
    output(args, out)
}

/// Whether the command succeeded, as a result.
pub fn status(args: &[&str], out: GitOutput) -> (r: Result<(), String>)
    ensures
        out.success <==> r is Ok,
        !out.success ==> (r matches Err(e) && e@ == failure_message_spec(
            str_views(args@),
            lossy_utf8(out.stderr@),
        )),
{
    match output(args, out) {
        Ok(_) => Ok(()),
        Err(e) => Err(e),
    }
}

fn trim_end_chars(v: &Vec<char>) -> (r: Vec<char>)
    ensures
        r@ == trim_end(v@),
{
    let mut j = v.len();
    assert(v@.take(j as int) =~= v@);
    while j > 0 && crate::text::is_whitespace(v[j - 1])
        invariant
            j <= v.len(),
            trim_end(v@) == trim_end(v@.take(j as int)),
        decreases j,
    {
        assert(v@.take(j as int).drop_last() =~= v@.take(j - 1));
        j = j - 1;
    }
    let mut out: Vec<char> = Vec::new();
    let mut i: usize = 0;
    while i < j
        invariant
            i <= j <= v.len(),
            out@ == v@.take(i as int),
        decreases j - i,
    {
        out.push(v[i]);
        assert(v@.take(i as int + 1) =~= v@.take(i as int).push(v@[i as int]));
        i = i + 1;
    }
    out
}

/// The stdout of a successful command as text, without trailing
/// whitespace; an error when the command failed or its stdout is not UTF-8.
pub fn stdout(args: &[&str], out: GitOutput) -> (r: Result<String, String>)
    ensures
        r is Ok <==> out.success && valid_utf8(out.stdout@),
        r is Ok ==> r->Ok_0@ == trim_end(decode_utf8(out.stdout@)),
        !out.success ==> (r matches Err(e) && e@ == failure_message_spec(
            str_views(args@),
            lossy_utf8(out.stderr@),
        )),
{
    let raw = match output(args, out) {
        Ok(b) => b,
        Err(e) => return Err(e),
    };
    let text = match utf8_string(raw) {
        Ok(t) => t,
        Err(e) => return Err(e),
    };
    let trimmed = trim_end_chars(&str_chars(text.as_str()));
    Ok(chars_to_string(trimmed.as_slice()))
}

} // verus!
