//! Path decisions of the Windows sandbox: comparison keys, UNC and drive
//! prefixes, when a workspace needs a junction on the system drive, which
//! paths get a deny-read ACE, and where a glob's scan starts. Prefixes are
//! read as Windows documents them (`C:`, `\\?\C:`, `\\server\share`,
//! `\\?\UNC\server\share`), on any host.

use std::collections::hash_map::DefaultHasher;
use std::hash::Hasher;
use vstd::prelude::*;
use vstd::std_specs::hash::DefaultHasherAdditionalSpecFns;

use crate::text::{ascii_lower, chars_to_string, str_chars, str_to_string};
use crate::worktree_paths::{hex_char, hex_digit, join_path, nonempty_pieces, path_join};

verus! {

pub open spec fn is_win_sep(c: char) -> bool {
    c == '/' || c == '\\'
}

/// `\\?\`: the verbatim marker.
pub open spec fn verbatim_marker(p: Seq<char>) -> bool {
    p.len() >= 4 && p[0] == '\\' && p[1] == '\\' && p[2] == '?' && p[3] == '\\'
}

/// `\\?\UNC\server\share`.
pub open spec fn verbatim_unc(p: Seq<char>) -> bool {
    verbatim_marker(p) && p.len() >= 8 && p[4] == 'U' && p[5] == 'N' && p[6] == 'C' && p[7] == '\\'
}

/// The first separator of `s` at or after `from`, or `s.len()`.
pub open spec fn next_sep(s: Seq<char>, from: int) -> int
    decreases s.len() - from,
{
    if from >= s.len() {
        s.len() as int
    } else if is_win_sep(s[from]) {
        from
    } else {
        next_sep(s, from + 1)
    }
}

/// `\\server\share`: two separators, then a server and a share name, both
/// non-empty; `\\?\` and `\\.\` start other kinds of prefix.
pub open spec fn plain_unc(p: Seq<char>) -> bool {
    &&& p.len() >= 2 && is_win_sep(p[0]) && is_win_sep(p[1])
    &&& !verbatim_marker(p)
    &&& !(p.len() >= 4 && p[2] == '.' && is_win_sep(p[3]))
    &&& {
        let server_end = next_sep(p, 2);
        &&& server_end > 2
        &&& server_end < p.len()
        &&& next_sep(p, server_end + 1) > server_end + 1
    }
}

pub open spec fn unc_spec(p: Seq<char>) -> bool {
    verbatim_unc(p) || plain_unc(p)
}

fn find_sep(v: &Vec<char>, from: usize) -> (r: usize)
    requires
        from <= v.len(),
    ensures
        r == next_sep(v@, from as int),
{
    let mut i = from;
    while i < v.len() && !(v[i] == '/' || v[i] == '\\')
        invariant
            from <= i <= v.len(),
            next_sep(v@, from as int) == next_sep(v@, i as int),
        decreases v.len() - i,
    {
        i = i + 1;
    }
    i
}

/// Whether the path starts with a UNC prefix, plain or verbatim. Only
/// Windows paths have prefixes: on any other host (`windows_host` false) no
/// path has one.
pub fn path_uses_unc_prefix(path: &str, windows_host: bool) -> (r: bool)
    ensures
        r == (windows_host && unc_spec(path@)),
{
    windows_host && windows_unc_prefix(path)
}

fn windows_unc_prefix(path: &str) -> (r: bool)
    ensures
        r == unc_spec(path@),
{
    let v = str_chars(path);
    let n = v.len();
    let marker = n >= 4 && v[0] == '\\' && v[1] == '\\' && v[2] == '?' && v[3] == '\\';
    if marker && n >= 8 && v[4] == 'U' && v[5] == 'N' && v[6] == 'C' && v[7] == '\\' {
        return true;
    }
    if n < 2 || !(v[0] == '/' || v[0] == '\\') || !(v[1] == '/' || v[1] == '\\') || marker {
        return false;
    }
    if n >= 4 && v[2] == '.' && (v[3] == '/' || v[3] == '\\') {
        return false;
    }
    let server_end = find_sep(&v, 2);
    if server_end <= 2 || server_end >= n {
        return false;
    }
    let share_end = find_sep(&v, server_end + 1);
    share_end > server_end + 1
}

pub open spec fn is_ascii_alpha(c: char) -> bool {
    ('a' <= c <= 'z') || ('A' <= c <= 'Z')
}

pub open spec fn ascii_upper(c: char) -> char {
    if 'a' <= c <= 'z' {
        ((c as u32) - 32) as char
    } else {
        c
    }
}

fn to_ascii_upper(c: char) -> (r: char)
    ensures
        r == ascii_upper(c),
{
    if 'a' <= c && c <= 'z' {
        let b = (c as u32 - 32) as u8;
        b as char
    } else {
        c
    }
}

/// The drive letter of a `C:` or `\\?\C:` prefix, upper-cased.
pub open spec fn drive_letter_spec(p: Seq<char>) -> Option<char> {
    if p.len() >= 2 && is_ascii_alpha(p[0]) && p[1] == ':' {
        Some(ascii_upper(p[0]))
    } else if verbatim_marker(p) && p.len() >= 6 && is_ascii_alpha(p[4]) && p[5] == ':' && (p.len()
        == 6 || p[6] == '\\') {
        Some(ascii_upper(p[4]))
    } else {
        None
    }
}

pub fn drive_letter(path: &str) -> (r: Option<char>)
    ensures
        r == drive_letter_spec(path@),
{
    let v = str_chars(path);
    let n = v.len();
    if n >= 2 && (('a' <= v[0] && v[0] <= 'z') || ('A' <= v[0] && v[0] <= 'Z')) && v[1] == ':' {
        return Some(to_ascii_upper(v[0]));
    }
    let marker = n >= 4 && v[0] == '\\' && v[1] == '\\' && v[2] == '?' && v[3] == '\\';
    if marker && n >= 6 && (('a' <= v[4] && v[4] <= 'z') || ('A' <= v[4] && v[4] <= 'Z')) && v[5]
        == ':' && (n == 6 || v[6] == '\\') {
        return Some(to_ascii_upper(v[4]));
    }
    None
}

pub open spec fn system_drive_spec(system_drive: Option<Seq<char>>) -> Option<char> {
    match system_drive {
        Some(d) => drive_letter_spec(d),
        None => None,
    }
}

/// The drive letter of the `SystemDrive` value, if it names one.
pub fn system_drive_letter(system_drive: Option<&str>) -> (r: Option<char>)
    ensures
        r == system_drive_spec(
            match system_drive {
                Some(d) => Some(d@),
                None => None,
            },
        ),
{
    match system_drive {
        Some(d) => drive_letter(d),
        None => None,
    }
}

/// A workspace gets a junction on the system drive when it sits on a drive
/// letter other than the system drive's; paths without a drive letter (UNC
/// shares) and an unknown system drive get none.
pub open spec fn materialize_spec(requested: Seq<char>, system_drive: Option<Seq<char>>) -> bool {
    match (drive_letter_spec(requested), system_drive_spec(system_drive)) {
        (Some(a), Some(b)) => a != b,
        _ => false,
    }
}

pub fn should_materialize_junction(requested_cwd: &str, system_drive: Option<&str>) -> (r: bool)
    ensures
        r == materialize_spec(
            requested_cwd@,
            match system_drive {
                Some(d) => Some(d@),
                None => None,
            },
        ),
{
    let requested = match drive_letter(requested_cwd) {
        Some(d) => d,
        None => return false,
    };
    let system = match system_drive_letter(system_drive) {
        Some(d) => d,
        None => return false,
    };
    requested != system
}

/// `<userprofile>/.codex/.sandbox/cwd`, where workspace junctions live.
pub fn junction_root_for_userprofile(userprofile: &str) -> (r: String)
    ensures
        r@ == join_path(join_path(join_path(userprofile@, ".codex"@), ".sandbox"@), "cwd"@),
{
    let a = path_join(userprofile, ".codex");
    let b = path_join(a.as_str(), ".sandbox");
    path_join(b.as_str(), "cwd")
}

/// The writes that `<str as Hash>::hash` makes into a hasher for a string.
pub uninterp spec fn str_hash_writes(s: Seq<char>) -> Seq<Seq<u8>>;

/// `<str as Hash>::hash` into a `DefaultHasher`: the hasher's writes grow by
/// those named `str_hash_writes`, which depend on the string alone.
#[verifier::external_body]
fn hash_str(hasher: &mut DefaultHasher, s: &str)
    ensures
        final(hasher)@ == old(hasher)@ + str_hash_writes(s@),
{
    std::hash::Hash::hash(s, hasher)
}

/// `n` in lowercase hexadecimal without leading zeros, as `{:x}` writes it.
pub open spec fn lower_hex(n: nat) -> Seq<char>
    decreases n,
{
    if n < 16 {
        seq![hex_digit(n as int)]
    } else {
        lower_hex(n / 16).push(hex_digit((n % 16) as int))
    }
}

fn push_lower_hex(out: &mut Vec<char>, n: u64)
    ensures
        final(out)@ == old(out)@ + lower_hex(n as nat),
    decreases n,
{
    if n >= 16 {
        push_lower_hex(out, n / 16);
    }
    out.push(hex_char((n % 16) as u8));
    proof {
        if n >= 16 {
            assert(lower_hex(n as nat) == lower_hex((n / 16) as nat).push(hex_digit((n % 16) as int)));
        } else {
            assert(lower_hex(n as nat) == seq![hex_digit(n as int)]);
        }
    }
}

/// The name of a workspace's junction: the `DefaultHasher` hash of its
/// path, in lowercase hexadecimal.
pub fn junction_name_for_path(path: &str) -> (r: String)
    ensures
        r@ == lower_hex(DefaultHasher::spec_finish(str_hash_writes(path@)) as nat),
{
    let mut hasher = DefaultHasher::new();
    hash_str(&mut hasher, path);
    assert(hasher@ =~= str_hash_writes(path@));
    let h = hasher.finish();
    let mut out: Vec<char> = Vec::new();
    push_lower_hex(&mut out, h);
    assert(out@ =~= lower_hex(h as nat));
    chars_to_string(out.as_slice())
}

/// What is found where the junction should be.
#[derive(Clone, Copy, Debug, PartialEq, Eq, Structural)]
pub enum JunctionProbe {
    Missing,
    ReparsePoint,
    NotReparsePoint,
    StatFailed,
}

/// What to do about it.
#[derive(Clone, Copy, Debug, PartialEq, Eq, Structural)]
pub enum JunctionAction {
    /// An earlier junction is there: use it.
    Reuse,
    /// Something else is there: remove it, then create the junction.
    Replace,
    /// Nothing is there: create the junction.
    Create,
    /// It cannot be inspected: run without a junction.
    GiveUp,
}

pub fn junction_action(probe: JunctionProbe) -> (r: JunctionAction)
    ensures
        probe == JunctionProbe::Missing ==> r == JunctionAction::Create,
        probe == JunctionProbe::ReparsePoint ==> r == JunctionAction::Reuse,
        probe == JunctionProbe::NotReparsePoint ==> r == JunctionAction::Replace,
        probe == JunctionProbe::StatFailed ==> r == JunctionAction::GiveUp,
{
    match probe {
        JunctionProbe::Missing => JunctionAction::Create,
        JunctionProbe::ReparsePoint => JunctionAction::Reuse,
        JunctionProbe::NotReparsePoint => JunctionAction::Replace,
        JunctionProbe::StatFailed => JunctionAction::GiveUp,
    }
}

pub open spec fn quoted(s: Seq<char>) -> Seq<char> {
    seq!['"'] + s + seq!['"']
}

fn quote(s: &str) -> (r: String)
    ensures
        r@ == quoted(s@),
{
    let mut out: Vec<char> = Vec::new();
    out.push('"');
    crate::text::push_chars(&mut out, str_chars(s).as_slice());
    out.push('"');
    chars_to_string(out.as_slice())
}

/// The raw arguments of `cmd` that create the junction `link` to `target`:
/// `/c mklink /J "<link>" "<target>"`.
pub fn mklink_args(link: &str, target: &str) -> (r: Vec<String>)
    ensures
        crate::text::string_seqs(r@) == seq!["/c"@, "mklink"@, "/J"@, quoted(link@), quoted(target@)],
{
    let mut args: Vec<String> = Vec::new();
    args.push(str_to_string("/c"));
    args.push(str_to_string("mklink"));
    args.push(str_to_string("/J"));
    args.push(quote(link));
    args.push(quote(target));
    assert(crate::text::string_seqs(args@) =~= seq![
        "/c"@,
        "mklink"@,
        "/J"@,
        quoted(link@),
        quoted(target@),
    ]);
    args
}

/// The working directory a legacy sandboxed command starts in: the junction
/// when one was wanted and could be made, the normalized directory otherwise.
pub fn effective_spawn_cwd(normalized_cwd: String, junction: Option<String>, wanted: bool) -> (r:
    String)
    ensures
        wanted && junction is Some ==> r == junction->0,
        !(wanted && junction is Some) ==> r == normalized_cwd,
{
    if wanted {
        match junction {
            Some(j) => j,
            None => normalized_cwd,
        }
    } else {
        normalized_cwd
    }
}


/// `\` read as `/`.
pub open spec fn fold_sep(c: char) -> char {
    if c == '\\' {
        '/'
    } else {
        c
    }
}

pub open spec fn fold_seps(s: Seq<char>) -> Seq<char> {
    s.map_values(|c: char| fold_sep(c))
}

pub open spec fn lower_all(s: Seq<char>) -> Seq<char> {
    s.map_values(|c: char| ascii_lower(c))
}

/// The comparison key of a resolved path: `\` read as `/`, ASCII letters
/// lower-cased.
pub open spec fn canonical_key_spec(p: Seq<char>) -> Seq<char> {
    lower_all(fold_seps(p))
}

fn fold_and_lower(v: &Vec<char>) -> (r: Vec<char>)
    ensures
        r@ == lower_all(fold_seps(v@)),
{
    let mut out: Vec<char> = Vec::new();
    let mut i: usize = 0;
    while i < v.len()
        invariant
            i <= v.len(),
            out@ == lower_all(fold_seps(v@.take(i as int))),
        decreases v.len() - i,
    {
        let c = if v[i] == '\\' {
            '/'
        } else {
            v[i]
        };
        out.push(crate::text::to_ascii_lower(c));
        assert(lower_all(fold_seps(v@.take(i as int + 1))) =~= lower_all(fold_seps(v@.take(i as int))).push(
            ascii_lower(fold_sep(v@[i as int])),
        ));
        i = i + 1;
    }
    assert(v@.take(v.len() as int) =~= v@);
    out
}

/// The key under which a path is compared: that of its canonical form when
/// it could be resolved (`canonical`), of the path as written otherwise.
pub fn canonical_path_key(path: &str, canonical: Option<&str>) -> (r: String)
    ensures
        r@ == canonical_key_spec(
            match canonical {
                Some(c) => c@,
                None => path@,
            },
        ),
{
    let resolved = match canonical {
        Some(c) => str_chars(c),
        None => str_chars(path),
    };
    let key = fold_and_lower(&resolved);
    chars_to_string(key.as_slice())
}

/// The key under which planned ACL paths are told apart: `\` read as `/`,
/// trailing `/` dropped, ASCII letters lower-cased.
pub open spec fn lexical_key_spec(p: Seq<char>) -> Seq<char> {
    lower_all(crate::text::strip_end_char(fold_seps(p), '/'))
}

fn strip_trailing(v: &Vec<char>, c: char) -> (r: Vec<char>)
    ensures
        r@ == crate::text::strip_end_char(v@, c),
{
    let mut j = v.len();
    assert(v@.take(j as int) =~= v@);
    while j > 0 && v[j - 1] == c
        invariant
            j <= v.len(),
            crate::text::strip_end_char(v@, c) == crate::text::strip_end_char(v@.take(j as int), c),
        decreases j,
    {
        assert(v@.take(j as int).drop_last() =~= v@.take(j - 1));
        j = j - 1;
    }
    let mut out: Vec<char> = Vec::new();
    let mut i: usize = 0;
    while i < j
        invariant
            i <= j <= v.len(),
            out@ == v@.take(i as int),
        decreases j - i,
    {
        out.push(v[i]);
        assert(v@.take(i as int + 1) =~= v@.take(i as int).push(v@[i as int]));
        i = i + 1;
    }
    out
}

pub fn lexical_path_key(path: &str) -> (r: Vec<char>)
    ensures
        r@ == lexical_key_spec(path@),
{
    let v = str_chars(path);
    let mut folded: Vec<char> = Vec::new();
    let mut i: usize = 0;
    while i < v.len()
        invariant
            i <= v.len(),
            folded@ == fold_seps(v@.take(i as int)),
        decreases v.len() - i,
    {
        folded.push(
            if v[i] == '\\' {
                '/'
            } else {
                v[i]
            },
        );
        assert(fold_seps(v@.take(i as int + 1)) =~= fold_seps(v@.take(i as int)).push(
            fold_sep(v@[i as int]),
        ));
        i = i + 1;
    }
    assert(v@.take(v.len() as int) =~= v@);
    let stripped = strip_trailing(&folded, '/');
    let mut out: Vec<char> = Vec::new();
    let mut k: usize = 0;
    while k < stripped.len()
        invariant
            k <= stripped.len(),
            out@ == lower_all(stripped@.take(k as int)),
        decreases stripped.len() - k,
    {
        out.push(crate::text::to_ascii_lower(stripped[k]));
        assert(lower_all(stripped@.take(k as int + 1)) =~= lower_all(stripped@.take(k as int)).push(
            ascii_lower(stripped@[k as int]),
        ));
        k = k + 1;
    }
    assert(stripped@.take(stripped.len() as int) =~= stripped@);
    out
}

/// Whether some path of `planned` has the key of `p`.
pub open spec fn key_taken(planned: Seq<Seq<char>>, p: Seq<char>) -> bool {
    exists|j: int| 0 <= j < planned.len() && lexical_key_spec(#[trigger] planned[j]) == lexical_key_spec(p)
}

/// `planned` with `p` added unless a path with its key is already there.
pub open spec fn plan_step(planned: Seq<Seq<char>>, p: Seq<char>) -> Seq<Seq<char>> {
    if key_taken(planned, p) {
        planned
    } else {
        planned.push(p)
    }
}

/// The candidate ACL paths: each policy path, followed by its canonical
/// target where the path exists.
pub open spec fn acl_candidates(paths: Seq<Seq<char>>, canonical: Seq<Option<Seq<char>>>) -> Seq<
    Seq<char>,
>
    decreases paths.len(),
{
    if paths.len() == 0 || canonical.len() == 0 {
        seq![]
    } else {
        let rest = acl_candidates(paths.drop_last(), canonical.drop_last());
        match canonical.last() {
            Some(c) => rest.push(paths.last()).push(c),
            None => rest.push(paths.last()),
        }
    }
}

/// The candidates in order, each dropped when an earlier one has its key.
pub open spec fn dedup_by_key(s: Seq<Seq<char>>) -> Seq<Seq<char>>
    decreases s.len(),
{
    if s.len() == 0 {
        seq![]
    } else {
        plan_step(dedup_by_key(s.drop_last()), s.last())
    }
}

/// The deny-read plan names each path key once and covers every candidate:
/// no two planned paths share a lexical key, every planned path is a
/// candidate, and every candidate's key is among the planned ones.
#[verifier::spinoff_prover]
#[verifier::rlimit(40)]
pub proof fn lemma_dedup_by_key_distinct_and_complete(s: Seq<Seq<char>>)
    ensures
        forall|i: int, j: int|
            0 <= i < j < dedup_by_key(s).len() ==> lexical_key_spec(#[trigger] dedup_by_key(s)[i])
                != lexical_key_spec(#[trigger] dedup_by_key(s)[j]),
        forall|i: int| 0 <= i < dedup_by_key(s).len() ==> s.contains(#[trigger] dedup_by_key(s)[i]),
        forall|k: int| 0 <= k < s.len() ==> key_taken(dedup_by_key(s), #[trigger] s[k]),
    decreases s.len(),
{
    if s.len() > 0 {
        let prev = s.drop_last();
        lemma_dedup_by_key_distinct_and_complete(prev);
        let d = dedup_by_key(prev);
        let x = s.last();
        assert(dedup_by_key(s) == plan_step(d, x));
        assert forall|i: int| 0 <= i < dedup_by_key(s).len() implies s.contains(
            #[trigger] dedup_by_key(s)[i],
        ) by {
            if i < d.len() {
                let m = choose|m: int| 0 <= m < prev.len() && prev[m] == d[i];
                assert(s[m] == prev[m]);
            } else {
                assert(s[s.len() - 1] == x);
            }
        }
        assert forall|k: int| 0 <= k < s.len() implies key_taken(dedup_by_key(s), #[trigger] s[k]) by {
            if k < s.len() - 1 {
                assert(prev[k] == s[k]);
                assert(key_taken(d, prev[k]));
                let j = choose|j: int| 0 <= j < d.len() && lexical_key_spec(#[trigger] d[j]) == lexical_key_spec(prev[k]);
                assert(dedup_by_key(s)[j] == d[j]);
            } else if !key_taken(d, x) {
                assert(dedup_by_key(s)[d.len() as int] == x);
            }
        }
    }
}

pub open spec fn opt_views(v: Seq<Option<String>>) -> Seq<Option<Seq<char>>> {
    v.map_values(|o: Option<String>| crate::worktree::opt_view(o))
}

fn push_planned_path(planned: &mut Vec<String>, keys: &mut Vec<Vec<char>>, path: String)
    requires
        old(keys)@.len() == old(planned)@.len(),
        forall|j: int|
            0 <= j < old(keys)@.len() ==> #[trigger] old(keys)@[j]@ == lexical_key_spec(
                old(planned)@[j]@,
            ),
    ensures
        crate::text::string_seqs(final(planned)@) == plan_step(
            crate::text::string_seqs(old(planned)@),
            path@,
        ),
        final(keys)@.len() == final(planned)@.len(),
        forall|j: int|
            0 <= j < final(keys)@.len() ==> #[trigger] final(keys)@[j]@ == lexical_key_spec(
                final(planned)@[j]@,
            ),
{
    let ghost pv = crate::text::string_seqs(planned@);
    let key = lexical_path_key(path.as_str());
    let mut j: usize = 0;
    while j < keys.len()
        invariant
            j <= keys.len() == planned.len(),
            pv == crate::text::string_seqs(planned@),
            keys@ == old(keys)@,
            planned@ == old(planned)@,
            key@ == lexical_key_spec(path@),
            forall|k: int| 0 <= k < keys@.len() ==> #[trigger] keys@[k]@ == lexical_key_spec(planned@[k]@),
            forall|k: int| 0 <= k < j ==> lexical_key_spec(#[trigger] pv[k]) != lexical_key_spec(path@),
        decreases keys.len() - j,
    {
        if crate::text::chars_eq(keys[j].as_slice(), key.as_slice()) {
            assert(lexical_key_spec(pv[j as int]) == lexical_key_spec(path@));
            assert(key_taken(pv, path@));
            return;
        }
        j = j + 1;
    }
    assert(!key_taken(pv, path@));
    planned.push(path);
    keys.push(key);
    assert(crate::text::string_seqs(planned@) =~= pv.push(planned@.last()@));
}

/// The exact paths that get a deny-read ACE: each policy path as written
/// (which also covers a path that does not exist yet), then, where the path
/// exists, its canonical target (`existing_canonical`), so that a reparse
/// point cannot expose the same object; a path is left out when one already
/// planned has the same [`lexical_key_spec`].
pub fn plan_deny_read_acl_paths(paths: &[String], existing_canonical: &[Option<String>]) -> (r: Vec<
    String,
>)
    requires
        paths.len() == existing_canonical.len(),
    ensures
        crate::text::string_seqs(r@) == dedup_by_key(
            acl_candidates(crate::text::string_seqs(paths@), opt_views(existing_canonical@)),
        ),
{
    let ghost ps = crate::text::string_seqs(paths@);
    let ghost cs = opt_views(existing_canonical@);
    let mut planned: Vec<String> = Vec::new();
    let mut keys: Vec<Vec<char>> = Vec::new();
    let mut i: usize = 0;
    assert(ps.take(0) =~= Seq::<Seq<char>>::empty());
    while i < paths.len()
        invariant
            i <= paths.len() == existing_canonical.len(),
            ps == crate::text::string_seqs(paths@),
            cs == opt_views(existing_canonical@),
            keys@.len() == planned@.len(),
            forall|j: int| 0 <= j < keys@.len() ==> #[trigger] keys@[j]@ == lexical_key_spec(planned@[j]@),
            crate::text::string_seqs(planned@) == dedup_by_key(
                acl_candidates(ps.take(i as int), cs.take(i as int)),
            ),
        decreases paths.len() - i,
    {
        let ghost before = acl_candidates(ps.take(i as int), cs.take(i as int));
        assert(ps.take(i as int + 1).drop_last() =~= ps.take(i as int));
        assert(cs.take(i as int + 1).drop_last() =~= cs.take(i as int));
        push_planned_path(&mut planned, &mut keys, paths[i].clone());
        assert(dedup_by_key(before.push(ps[i as int])) == plan_step(dedup_by_key(before), ps[i as int])) by {
            assert(before.push(ps[i as int]).drop_last() =~= before);
        }
        match &existing_canonical[i] {
            Some(c) => {
                push_planned_path(&mut planned, &mut keys, c.clone());
                let ghost once = before.push(ps[i as int]);
                assert(dedup_by_key(once.push(c@)) == plan_step(dedup_by_key(once), c@)) by {
                    assert(once.push(c@).drop_last() =~= once);
                }
            },
            None => {},
        }
        i = i + 1;
    }
    assert(ps.take(paths.len() as int) =~= ps);
    assert(cs.take(paths.len() as int) =~= cs);
    planned
}


/// Which sandbox principal owns a persistent deny-read ACL record: the
/// elevated backend denies the shared sandbox users group, the
/// restricted-token backend denies capability SIDs. Separate records keep the
/// cleanup of one backend from revoking entries the other still owns.
#[derive(Clone, Copy, Debug, PartialEq, Eq, Structural)]
pub enum DenyReadAclRecordKind {
    SandboxGroup,
    RestrictedToken,
}

pub open spec fn record_file_name(kind: DenyReadAclRecordKind) -> Seq<char> {
    match kind {
        DenyReadAclRecordKind::SandboxGroup => "deny_read_acls_sandbox_group.json"@,
        DenyReadAclRecordKind::RestrictedToken => "deny_read_acls_restricted_token.json"@,
    }
}

impl DenyReadAclRecordKind {
    pub fn file_name(self) -> (r: &'static str)
        ensures
            r@ == record_file_name(self),
    {
        match self {
            DenyReadAclRecordKind::SandboxGroup => "deny_read_acls_sandbox_group.json",
            DenyReadAclRecordKind::RestrictedToken => "deny_read_acls_restricted_token.json",
        }
    }
}

/// `<codex_home>/.sandbox`, the sandbox's own state directory.
pub fn sandbox_dir(codex_home: &str) -> (r: String)
    ensures
        r@ == join_path(codex_home@, ".sandbox"@),
{
    path_join(codex_home, ".sandbox")
}

/// Where the record of persistent deny-read ACLs of `kind` is kept.
pub fn deny_read_acl_record_path(codex_home: &str, kind: DenyReadAclRecordKind) -> (r: String)
    ensures
        r@ == join_path(join_path(codex_home@, ".sandbox"@), record_file_name(kind)),
{
    let dir = sandbox_dir(codex_home);
    path_join(dir.as_str(), kind.file_name())
}

/// The recorded paths whose ACE is stale: still present on disk
/// (`recorded_exists`) but not among the `desired` planned paths, compared
/// by [`lexical_key_spec`].
pub open spec fn stale_spec(recorded: Seq<Seq<char>>, exists: Seq<bool>, desired: Seq<Seq<char>>) -> Seq<
    Seq<char>,
>
    decreases recorded.len(),
{
    if recorded.len() == 0 || exists.len() == 0 {
        seq![]
    } else {
        let rest = stale_spec(recorded.drop_last(), exists.drop_last(), desired);
        if exists.last() && !key_taken(desired, recorded.last()) {
            rest.push(recorded.last())
        } else {
            rest
        }
    }
}

pub fn stale_deny_read_paths(recorded: &[String], recorded_exists: &[bool], desired_planned: &[String]) -> (r:
    Vec<String>)
    requires
        recorded.len() == recorded_exists.len(),
    ensures
        crate::text::string_seqs(r@) == stale_spec(
            crate::text::string_seqs(recorded@),
            recorded_exists@,
            crate::text::string_seqs(desired_planned@),
        ),
{
    let ghost rs = crate::text::string_seqs(recorded@);
    let ghost ds = crate::text::string_seqs(desired_planned@);
    let mut desired_keys: Vec<Vec<char>> = Vec::new();
    let mut k: usize = 0;
    while k < desired_planned.len()
        invariant
            k <= desired_planned.len(),
            ds == crate::text::string_seqs(desired_planned@),
            desired_keys@.len() == k,
            forall|j: int| 0 <= j < k ==> #[trigger] desired_keys@[j]@ == lexical_key_spec(ds[j]),
        decreases desired_planned.len() - k,
    {
        desired_keys.push(lexical_path_key(desired_planned[k].as_str()));
        k = k + 1;
    }
    let mut out: Vec<String> = Vec::new();
    let mut i: usize = 0;
    while i < recorded.len()
        invariant
            i <= recorded.len() == recorded_exists.len(),
            rs == crate::text::string_seqs(recorded@),
            ds == crate::text::string_seqs(desired_planned@),
            desired_keys@.len() == ds.len(),
            forall|j: int| 0 <= j < ds.len() ==> #[trigger] desired_keys@[j]@ == lexical_key_spec(ds[j]),
            crate::text::string_seqs(out@) == stale_spec(
                rs.take(i as int),
                recorded_exists@.take(i as int),
                ds,
            ),
        decreases recorded.len() - i,
    {
        assert(rs.take(i as int + 1).drop_last() =~= rs.take(i as int));
        assert(recorded_exists@.take(i as int + 1).drop_last() =~= recorded_exists@.take(i as int));
        let key = lexical_path_key(recorded[i].as_str());
        let mut found = false;
        let mut j: usize = 0;
        while j < desired_keys.len()
            invariant
                j <= desired_keys.len() == ds.len(),
                key@ == lexical_key_spec(rs[i as int]),
                forall|m: int| 0 <= m < ds.len() ==> #[trigger] desired_keys@[m]@ == lexical_key_spec(ds[m]),
                found == exists|m: int| 0 <= m < j && lexical_key_spec(#[trigger] ds[m]) == lexical_key_spec(rs[i as int]),
            decreases desired_keys.len() - j,
        {
            if crate::text::chars_eq(desired_keys[j].as_slice(), key.as_slice()) {
                found = true;
            }
            j = j + 1;
        }
        assert(found == key_taken(ds, rs[i as int]));
        if recorded_exists[i] && !found {
            let ghost before = out@;
            out.push(recorded[i].clone());
            assert(crate::text::string_seqs(out@) =~= crate::text::string_seqs(before).push(rs[i as int]));
        }
        i = i + 1;
    }
    assert(rs.take(recorded.len() as int) =~= rs);
    assert(recorded_exists@.take(recorded.len() as int) =~= recorded_exists@);
    out
}


pub open spec fn is_glob_char(c: char) -> bool {
    c == '*' || c == '?' || c == '['
}

/// The index of the first glob metacharacter at or after `i`, or the length.
pub open spec fn first_glob_from(p: Seq<char>, i: int) -> int
    decreases p.len() - i,
{
    if i >= p.len() {
        p.len() as int
    } else if is_glob_char(p[i]) {
        i
    } else {
        first_glob_from(p, i + 1)
    }
}

/// The index of the last separator before `end`, or -1.
pub open spec fn last_sep_before(p: Seq<char>, end: int) -> int
    decreases end,
{
    if end <= 0 {
        -1
    } else if is_win_sep(p[end - 1]) {
        end - 1
    } else {
        last_sep_before(p, end - 1)
    }
}

/// How deep a scan must go for the part of a pattern after its scan root:
/// unbounded when a component is `**`, else the number of components.
pub open spec fn scan_depth_spec(suffix: Seq<char>) -> Option<int> {
    let parts = nonempty_pieces(crate::text::split_on(fold_seps(suffix), '/'));
    if parts.contains("**"@) {
        None
    } else {
        Some(parts.len() as int)
    }
}

/// Where to start scanning for existing matches of a glob, and how deep: the
/// deepest literal directory before the first glob metacharacter (kept with
/// its separator when that is a root, `/` or `C:\`), or `.` when the literal
/// part has no separator.
pub open spec fn scan_plan_spec(pattern: Seq<char>) -> (Seq<char>, Option<int>) {
    let first = first_glob_from(pattern, 0);
    let sep = last_sep_before(pattern, first);
    if sep < 0 {
        ("."@, scan_depth_spec(pattern))
    } else if sep == 0 || pattern[sep - 1] == ':' {
        (pattern.take(sep + 1), scan_depth_spec(pattern.skip(sep + 1)))
    } else {
        (pattern.take(sep), scan_depth_spec(pattern.skip(sep + 1)))
    }
}

/// A scan for existing matches of a glob.
#[derive(Clone, Debug, PartialEq, Eq)]
pub struct GlobScanPlan {
    pub root: String,
    pub max_depth: Option<usize>,
}

pub open spec fn depth_view(d: Option<usize>) -> Option<int> {
    match d {
        Some(n) => Some(n as int),
        None => None,
    }
}

fn slice_chars(v: &Vec<char>, from: usize, to: usize) -> (r: Vec<char>)
    requires
        from <= to <= v.len(),
    ensures
        r@ == v@.subrange(from as int, to as int),
{
    let mut out: Vec<char> = Vec::new();
    let mut i = from;
    while i < to
        invariant
            from <= i <= to <= v.len(),
            out@ == v@.subrange(from as int, i as int),
        decreases to - i,
    {
        out.push(v[i]);
        assert(v@.subrange(from as int, i as int + 1) =~= v@.subrange(from as int, i as int).push(v@[i as int]));
        i = i + 1;
    }
    out
}

fn is_double_star(v: &Vec<char>) -> (r: bool)
    ensures
        r == (v@ == "**"@),
{
    proof {
        reveal_strlit("**");
    }
    let r = v.len() == 2 && v[0] == '*' && v[1] == '*';
    if r {
        assert(v@ =~= "**"@);
    }
    r
}

/// How deep a scan must go for `pattern_suffix`; see [`scan_depth_spec`].
pub fn glob_scan_max_depth(pattern_suffix: &[char]) -> (r: Option<usize>)
    ensures
        depth_view(r) == scan_depth_spec(pattern_suffix@),
{
    let mut folded: Vec<char> = Vec::new();
    let mut i: usize = 0;
    while i < pattern_suffix.len()
        invariant
            i <= pattern_suffix.len(),
            folded@ == fold_seps(pattern_suffix@.take(i as int)),
        decreases pattern_suffix.len() - i,
    {
        folded.push(
            if pattern_suffix[i] == '\\' {
                '/'
            } else {
                pattern_suffix[i]
            },
        );
        assert(fold_seps(pattern_suffix@.take(i as int + 1)) =~= fold_seps(
            pattern_suffix@.take(i as int),
        ).push(fold_sep(pattern_suffix@[i as int])));
        i = i + 1;
    }
    assert(pattern_suffix@.take(pattern_suffix.len() as int) =~= pattern_suffix@);
    let pieces = crate::text::split_on_char(folded.as_slice(), '/');
    let ghost pv = crate::text::char_seqs(pieces@);
    let mut count: usize = 0;
    let mut recursive = false;
    let mut k: usize = 0;
    assert(pv.take(0) =~= Seq::<Seq<char>>::empty());
    while k < pieces.len()
        invariant
            k <= pieces.len(),
            pv == crate::text::char_seqs(pieces@),
            count as int == nonempty_pieces(pv.take(k as int)).len(),
            count <= k,
            recursive == nonempty_pieces(pv.take(k as int)).contains("**"@),
        decreases pieces.len() - k,
    {
        assert(pv.take(k as int + 1).drop_last() =~= pv.take(k as int));
        let ghost before = nonempty_pieces(pv.take(k as int));
        if pieces[k].len() > 0 {
            count = count + 1;
            let star = is_double_star(&pieces[k]);
            proof {
                let after = before.push(pv[k as int]);
                assert(after.contains("**"@) == (before.contains("**"@) || pv[k as int] == "**"@)) by {
                    if pv[k as int] == "**"@ {
                        assert(after[after.len() - 1] == "**"@);
                    }
                    if after.contains("**"@) && !before.contains("**"@) {
                        let w = choose|w: int| 0 <= w < after.len() && after[w] == "**"@;
                        if w < before.len() {
                            assert(before[w] == "**"@);
                        }
                    }
                    if before.contains("**"@) {
                        let w = choose|w: int| 0 <= w < before.len() && before[w] == "**"@;
                        assert(after[w] == "**"@);
                    }
                }
            }
            recursive = recursive || star;
        }
        k = k + 1;
    }
    assert(pv.take(pieces.len() as int) =~= pv);
    if recursive {
        None
    } else {
        Some(count)
    }
}

/// The scan plan for an unreadable glob; see [`scan_plan_spec`].
pub fn glob_scan_plan(pattern: &str) -> (r: GlobScanPlan)
    ensures
        (r.root@, depth_view(r.max_depth)) == scan_plan_spec(pattern@),
{
    let v = str_chars(pattern);
    let n = v.len();
    let mut first: usize = 0;
    while first < n && !(v[first] == '*' || v[first] == '?' || v[first] == '[')
        invariant
            first <= n == v@.len(),
            first_glob_from(v@, 0) == first_glob_from(v@, first as int),
        decreases n - first,
    {
        first = first + 1;
    }
    let mut end = first;
    while end > 0 && !(v[end - 1] == '/' || v[end - 1] == '\\')
        invariant
            end <= first <= n == v@.len(),
            last_sep_before(v@, first as int) == last_sep_before(v@, end as int),
        decreases end,
    {
        end = end - 1;
    }
    if end == 0 {
        proof {
            reveal_strlit(".");
        }
        let depth = glob_scan_max_depth(v.as_slice());
        return GlobScanPlan { root: str_to_string("."), max_depth: depth };
    }
    let sep = end - 1;
    let suffix = slice_chars(&v, sep + 1, n);
    assert(suffix@ =~= v@.skip(sep + 1));
    let depth = glob_scan_max_depth(suffix.as_slice());
    if sep == 0 || v[sep - 1] == ':' {
        let root = slice_chars(&v, 0, sep + 1);
        assert(root@ =~= v@.take(sep + 1));
        GlobScanPlan { root: chars_to_string(root.as_slice()), max_depth: depth }
    } else {
        let root = slice_chars(&v, 0, sep);
        assert(root@ =~= v@.take(sep as int));
        GlobScanPlan { root: chars_to_string(root.as_slice()), max_depth: depth }
    }
}

/// Whether a glob scan at `depth` may look into a directory's entries.
pub fn scan_descends(max_depth: Option<usize>, depth: usize) -> (r: bool)
    ensures
        r == match max_depth {
            Some(m) => depth < m,
            None => true,
        },
{
    match max_depth {
        Some(m) => depth < m,
        None => true,
    }
}

} // verus!
