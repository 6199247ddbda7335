//! The Git side of worktree management: reading `git worktree list
//! --porcelain`, the commands that create and remove worktrees, and the
//! decisions made about an existing worktree (its identity, whether it
//! matches a request, which entry a name refers to).

use vstd::prelude::*;
use vstd::string::*;

use crate::text::{
    char_seqs, chars_eq_str, chars_to_string, inclusive_lines, push_chars, push_str,
    split_inclusive_lines, starts_with_str, str_chars, str_eq, str_to_string, trim, trim_chars,
};
use crate::worktree::{opt_view, WorktreeInfo, WorktreeLocation, WorktreeMetadata, WorktreeSource};
use crate::worktree_paths::{join_path, path_components, path_join, slug_of, slugify_name};

verus! {

/// One worktree reported by `git worktree list --porcelain`.
#[derive(Clone, Debug, PartialEq, Eq)]
pub struct GitWorktreeEntry {
    pub path: String,
    pub branch: Option<String>,
}

/// A line without its line ending, as `str::lines` yields it: a final `\n`
/// is dropped, and a `\r` just before it.
pub open spec fn strip_line_ending(l: Seq<char>) -> Seq<char> {
    if l.len() > 0 && l.last() == '\n' {
        let m = l.drop_last();
        if m.len() > 0 && m.last() == '\r' {
            m.drop_last()
        } else {
            m
        }
    } else {
        l
    }
}

/// The lines of `s`, as `str::lines` yields them.
pub open spec fn text_lines(s: Seq<char>) -> Seq<Seq<char>> {
    inclusive_lines(s).map_values(|l: Seq<char>| strip_line_ending(l))
}

/// `s` without every leading copy of `prefix` (`str::trim_start_matches`).
pub open spec fn strip_prefix_repeatedly(s: Seq<char>, prefix: Seq<char>) -> Seq<char>
    decreases s.len(),
{
    if prefix.len() > 0 && prefix.len() <= s.len() && s.take(prefix.len() as int) == prefix {
        strip_prefix_repeatedly(s.skip(prefix.len() as int), prefix)
    } else {
        s
    }
}

/// `k` copies of `p`, one after another.
pub open spec fn repeated(p: Seq<char>, k: nat) -> Seq<char>
    decreases k,
{
    if k == 0 {
        seq![]
    } else {
        p + repeated(p, (k - 1) as nat)
    }
}

/// Stripping a prefix repeatedly takes off some number of leading copies of
/// it and nothing else, and stops where the rest no longer starts with it.
pub proof fn lemma_strip_prefix_repeatedly(s: Seq<char>, prefix: Seq<char>)
    ensures
        exists|k: nat| s == repeated(prefix, k) + #[trigger] strip_prefix_repeatedly(s, prefix),
        prefix.len() > 0 ==> !(prefix.len() <= strip_prefix_repeatedly(s, prefix).len()
            && strip_prefix_repeatedly(s, prefix).take(prefix.len() as int) == prefix),
    decreases s.len(),
{
    let r = strip_prefix_repeatedly(s, prefix);
    if prefix.len() > 0 && prefix.len() <= s.len() && s.take(prefix.len() as int) == prefix {
        let t = s.skip(prefix.len() as int);
        lemma_strip_prefix_repeatedly(t, prefix);
        let k = choose|k: nat| t == repeated(prefix, k) + #[trigger] strip_prefix_repeatedly(t, prefix);
        assert(repeated(prefix, k + 1) == prefix + repeated(prefix, k));
        assert(s =~= prefix + t);
        assert(s =~= repeated(prefix, k + 1) + r);
    } else {
        assert(repeated(prefix, 0) =~= Seq::<char>::empty());
        assert(s =~= repeated(prefix, 0) + r);
    }
}

/// The entries of a porcelain listing read from line `i` on, where `path`
/// and `branch` hold what the current entry has shown so far; a blank line
/// (and the end of the output) closes an entry that has a path.
pub open spec fn porcelain_from(
    lines: Seq<Seq<char>>,
    i: int,
    path: Option<Seq<char>>,
    branch: Option<Seq<char>>,
) -> Seq<(Seq<char>, Option<Seq<char>>)>
    decreases lines.len() + 1 - i,
{
    if i < 0 || i > lines.len() {
        seq![]
    } else {
        let line = if i == lines.len() {
            seq![]
        } else {
            lines[i]
        };
        if line.len() == 0 {
            match path {
                Some(p) => seq![(p, branch)] + porcelain_from(lines, i + 1, None, None),
                None => porcelain_from(lines, i + 1, None, branch),
            }
        } else if line.len() >= 9 && line.take(9) == "worktree "@ {
            porcelain_from(lines, i + 1, Some(line.skip(9)), branch)
        } else if line.len() >= 7 && line.take(7) == "branch "@ {
            porcelain_from(
                lines,
                i + 1,
                path,
                Some(strip_prefix_repeatedly(line.skip(7), "refs/heads/"@)),
            )
        } else {
            porcelain_from(lines, i + 1, path, branch)
        }
    }
}

pub open spec fn parse_porcelain(output: Seq<char>) -> Seq<(Seq<char>, Option<Seq<char>>)> {
    porcelain_from(text_lines(output), 0, None, None)
}

/// A stanza of `git worktree list --porcelain`: the worktree's path, the
/// lines before its `branch` line, the ref its `branch` line names (none for
/// a detached or bare worktree), and the lines after it.
pub type PorcelainStanza = (Seq<char>, Seq<Seq<char>>, Option<Seq<char>>, Seq<Seq<char>>);

/// A line that is not blank and names neither a worktree nor a branch
/// (`HEAD <sha>`, `detached`, `bare`, `locked`, ...).
pub open spec fn porcelain_other_line(l: Seq<char>) -> bool {
    &&& l.len() > 0
    &&& !(l.len() >= 9 && l.take(9) == "worktree "@)
    &&& !(l.len() >= 7 && l.take(7) == "branch "@)
}

pub open spec fn stanza_well_formed(s: PorcelainStanza) -> bool {
    &&& forall|k: int| 0 <= k < s.1.len() ==> porcelain_other_line(#[trigger] s.1[k])
    &&& forall|k: int| 0 <= k < s.3.len() ==> porcelain_other_line(#[trigger] s.3[k])
}

/// The lines of a stanza, ended by a blank line.
pub open spec fn stanza_lines(s: PorcelainStanza) -> Seq<Seq<char>> {
    seq!["worktree "@ + s.0] + s.1 + (match s.2 {
        Some(r) => seq!["branch "@ + r],
        None => Seq::<Seq<char>>::empty(),
    }) + s.3 + seq![Seq::<char>::empty()]
}

/// The lines of a listing made of stanzas.
pub open spec fn listing_lines(ss: Seq<PorcelainStanza>) -> Seq<Seq<char>>
    decreases ss.len(),
{
    if ss.len() == 0 {
        seq![]
    } else {
        stanza_lines(ss[0]) + listing_lines(ss.drop_first())
    }
}

/// The entry a stanza describes: its path, and the branch its own `branch`
/// line names (without `refs/heads/`), or none.
pub open spec fn stanza_entry(s: PorcelainStanza) -> (Seq<char>, Option<Seq<char>>) {
    (
        s.0,
        match s.2 {
            Some(r) => Some(strip_prefix_repeatedly(r, "refs/heads/"@)),
            None => None,
        },
    )
}

proof fn lemma_porcelain_skip_other(
    lines: Seq<Seq<char>>,
    j: int,
    k: int,
    path: Option<Seq<char>>,
    branch: Option<Seq<char>>,
)
    requires
        0 <= j <= j + k <= lines.len(),
        forall|m: int| j <= m < j + k ==> porcelain_other_line(#[trigger] lines[m]),
    ensures
        porcelain_from(lines, j, path, branch) == porcelain_from(lines, j + k, path, branch),
    decreases k,
{
    if k > 0 {
        assert(porcelain_other_line(lines[j]));
        lemma_porcelain_skip_other(lines, j + 1, k - 1, path, branch);
    }
}

proof fn lemma_porcelain_stanza(lines: Seq<Seq<char>>, j: int, s: PorcelainStanza)
    requires
        0 <= j,
        j + stanza_lines(s).len() <= lines.len(),
        lines.subrange(j, j + stanza_lines(s).len()) == stanza_lines(s),
        stanza_well_formed(s),
    ensures
        porcelain_from(lines, j, None, None) == seq![stanza_entry(s)] + porcelain_from(
            lines,
            j + stanza_lines(s).len(),
            None,
            None,
        ),
{
    reveal_strlit("worktree ");
    reveal_strlit("branch ");
    let sl = stanza_lines(s);
    let m = sl.len() as int;
    let a = s.1.len() as int;
    let c = s.3.len() as int;
    let bl: int = if s.2 is Some {
        1
    } else {
        0
    };
    assert(m == 1 + a + bl + c + 1);
    assert forall|t: int| 0 <= t < m implies lines[j + t] == #[trigger] sl[t] by {
        assert(lines.subrange(j, j + m)[t] == lines[j + t]);
    }
    // The `worktree` line.
    let w = "worktree "@ + s.0;
    assert(sl[0] == w);
    assert(lines[j] == w);
    assert(w.take(9) =~= "worktree "@);
    assert(w.skip(9) =~= s.0);
    assert(porcelain_from(lines, j, None, None) == porcelain_from(lines, j + 1, Some(s.0), None));
    // The lines before the branch line.
    assert forall|x: int| j + 1 <= x < j + 1 + a implies porcelain_other_line(#[trigger] lines[x]) by {
        assert(sl[x - j] == s.1[x - j - 1]);
        assert(lines[x] == sl[x - j]);
    }
    lemma_porcelain_skip_other(lines, j + 1, a, Some(s.0), None);
    let e = j + 1 + a + bl;
    match s.2 {
        Some(r) => {
            let b = "branch "@ + r;
            assert(sl[1 + a] == b);
            assert(lines[j + 1 + a] == b);
            assert(b.take(7) =~= "branch "@);
            assert(b.skip(7) =~= r);
            if b.len() >= 9 {
                assert(b.take(9)[0] == 'b');
                assert("worktree "@[0] == 'w');
            }
            assert(porcelain_from(lines, j + 1 + a, Some(s.0), None) == porcelain_from(
                lines,
                e,
                Some(s.0),
                Some(strip_prefix_repeatedly(r, "refs/heads/"@)),
            ));
        },
        None => {},
    }
    let b2 = stanza_entry(s).1;
    assert forall|x: int| e <= x < e + c implies porcelain_other_line(#[trigger] lines[x]) by {
        assert(sl[x - j] == s.3[x - e]);
        assert(lines[x] == sl[x - j]);
    }
    lemma_porcelain_skip_other(lines, e, c, Some(s.0), b2);
    // The blank line that closes the stanza.
    assert(sl[m - 1] == Seq::<char>::empty());
    assert(lines[e + c] == Seq::<char>::empty());
    assert(e + c < lines.len());
    assert(porcelain_from(lines, e + c, Some(s.0), b2) == seq![(s.0, b2)] + porcelain_from(
        lines,
        e + c + 1,
        None,
        None,
    ));
}

proof fn lemma_porcelain_listing(lines: Seq<Seq<char>>, j: int, ss: Seq<PorcelainStanza>)
    requires
        0 <= j <= lines.len(),
        lines.skip(j) == listing_lines(ss),
        forall|k: int| 0 <= k < ss.len() ==> stanza_well_formed(#[trigger] ss[k]),
    ensures
        porcelain_from(lines, j, None, None) == ss.map_values(|s: PorcelainStanza| stanza_entry(s)),
    decreases ss.len(),
{
    if ss.len() == 0 {
        assert(lines.skip(j).len() == 0);
        assert(j == lines.len());
        assert(porcelain_from(lines, j + 1, None, None) == Seq::<(Seq<char>, Option<Seq<char>>)>::empty());
        assert(ss.map_values(|s: PorcelainStanza| stanza_entry(s)) =~= Seq::<
            (Seq<char>, Option<Seq<char>>),
        >::empty());
    } else {
        let s0 = ss[0];
        let rest = ss.drop_first();
        let m = stanza_lines(s0).len() as int;
        assert(listing_lines(ss) == stanza_lines(s0) + listing_lines(rest));
        assert(lines.subrange(j, j + m) =~= stanza_lines(s0)) by {
            assert forall|t: int| 0 <= t < m implies lines.subrange(j, j + m)[t] == stanza_lines(s0)[t] by {
                assert(lines.skip(j)[t] == lines[j + t]);
            }
        }
        assert(stanza_well_formed(ss[0]));
        lemma_porcelain_stanza(lines, j, s0);
        assert(lines.skip(j + m) =~= listing_lines(rest)) by {
            assert forall|t: int| 0 <= t < lines.skip(j + m).len() implies lines.skip(j + m)[t] == listing_lines(
                rest,
            )[t] by {
                assert(lines.skip(j)[m + t] == lines[j + m + t]);
            }
        }
        assert forall|k: int| 0 <= k < rest.len() implies stanza_well_formed(#[trigger] rest[k]) by {
            assert(rest[k] == ss[k + 1]);
        }
        lemma_porcelain_listing(lines, j + m, rest);
        assert(ss.map_values(|s: PorcelainStanza| stanza_entry(s)) =~= seq![stanza_entry(s0)] + rest.map_values(
            |s: PorcelainStanza| stanza_entry(s),
        ));
    }
}

/// Reading a listing gives one entry per stanza, in order: the stanza's
/// path, and the branch named by that stanza's own `branch` line (without
/// `refs/heads/`), or none when the stanza has no `branch` line, whatever
/// the stanzas before it said.
pub proof fn lemma_porcelain_entries_per_stanza(output: Seq<char>, ss: Seq<PorcelainStanza>)
    requires
        text_lines(output) == listing_lines(ss),
        forall|k: int| 0 <= k < ss.len() ==> stanza_well_formed(#[trigger] ss[k]),
    ensures
        parse_porcelain(output) == ss.map_values(|s: PorcelainStanza| stanza_entry(s)),
{
    let lines = text_lines(output);
    assert(lines.skip(0) =~= lines);
    lemma_porcelain_listing(lines, 0, ss);
}

pub open spec fn opt_chars(o: Option<Vec<char>>) -> Option<Seq<char>> {
    match o {
        Some(v) => Some(v@),
        None => None,
    }
}

pub open spec fn entry_view(e: GitWorktreeEntry) -> (Seq<char>, Option<Seq<char>>) {
    (e.path@, opt_view(e.branch))
}

fn strip_line_ending_exec(l: &[char]) -> (r: Vec<char>)
    ensures
        r@ == strip_line_ending(l@),
{
    let mut end = l.len();
    if end > 0 && l[end - 1] == '\n' {
        end = end - 1;
        if end > 0 && l[end - 1] == '\r' {
            end = end - 1;
        }
    }
    let mut out: Vec<char> = Vec::new();
    let mut i: usize = 0;
    while i < end
        invariant
            i <= end <= l.len(),
            out@ == l@.take(i as int),
        decreases end - i,
    {
        out.push(l[i]);
        i = i + 1;
        assert(out@ =~= l@.take(i as int));
    }
    assert(out@ =~= strip_line_ending(l@));
    out
}

fn skip_chars(v: &[char], n: usize) -> (r: Vec<char>)
    requires
        n <= v.len(),
    ensures
        r@ == v@.skip(n as int),
{
    let mut out: Vec<char> = Vec::new();
    let mut i = n;
    while i < v.len()
        invariant
            n <= i <= v.len(),
            out@ == v@.subrange(n as int, i as int),
        decreases v.len() - i,
    {
        out.push(v[i]);
        i = i + 1;
        assert(out@ =~= v@.subrange(n as int, i as int));
    }
    out
}

fn strip_heads_prefix(v: &[char]) -> (r: Vec<char>)
    ensures
        r@ == strip_prefix_repeatedly(v@, "refs/heads/"@),
{
    let mut cur: Vec<char> = skip_chars(v, 0);
    assert(cur@ =~= v@);
    let ghost p = "refs/heads/"@;
    proof {
        reveal_strlit("refs/heads/");
    }
    assert(p.len() == 11);
    while starts_with_str(cur.as_slice(), "refs/heads/")
        invariant
            p == "refs/heads/"@,
            p.len() == 11,
            strip_prefix_repeatedly(v@, p) == strip_prefix_repeatedly(cur@, p),
        decreases cur@.len(),
    {
        cur = skip_chars(cur.as_slice(), 11);
    }
    cur
}

/// The worktrees in `git worktree list --porcelain` output, each with its
/// path and, when it has one checked out, its branch without `refs/heads/`.
pub fn parse_worktree_list(output: &str) -> (r: Vec<GitWorktreeEntry>)
    ensures
        r@.map_values(|e: GitWorktreeEntry| entry_view(e)) == parse_porcelain(output@),
{
    let chars = str_chars(output);
    let raw = split_inclusive_lines(chars.as_slice());
    let ghost rawv = char_seqs(raw@);
    let ghost lines = text_lines(output@);
    let n = raw.len();
    let mut entries: Vec<GitWorktreeEntry> = Vec::new();
    let mut path: Option<Vec<char>> = None;
    let mut branch: Option<Vec<char>> = None;
    let mut i: usize = 0;
    proof {
        reveal_strlit("worktree ");
        reveal_strlit("branch ");
    }
    while i < n
        invariant
            i <= n,
            n == raw@.len(),
            rawv == char_seqs(raw@),
            rawv == inclusive_lines(output@),
            lines == text_lines(output@),
            lines.len() == n,
            "worktree "@.len() == 9,
            "branch "@.len() == 7,
            parse_porcelain(output@) == entries@.map_values(|e: GitWorktreeEntry| entry_view(e))
                + porcelain_from(
                lines,
                i as int,
                match path {
                    Some(p) => Some(p@),
                    None => None,
                },
                match branch {
                    Some(b) => Some(b@),
                    None => None,
                },
            ),
        decreases n - i,
    {
        let line: Vec<char> = strip_line_ending_exec(raw[i].as_slice());
        assert(line@ == lines[i as int]);
        if line.len() == 0 {
            match path {
                Some(p) => {
                    let ghost before = entries@;
                    let b = match branch {
                        Some(b) => Some(chars_to_string(b.as_slice())),
                        None => None,
                    };
                    let e = GitWorktreeEntry { path: chars_to_string(p.as_slice()), branch: b };
                    entries.push(e);
                    assert(entries@.map_values(|e: GitWorktreeEntry| entry_view(e)) =~= before.map_values(
                        |e: GitWorktreeEntry| entry_view(e),
                    ).push(entry_view(e)));
                    path = None;
                    branch = None;
                },
                None => {},
            }
        } else if starts_with_str(line.as_slice(), "worktree ") {
            path = Some(skip_chars(line.as_slice(), 9));
        } else if starts_with_str(line.as_slice(), "branch ") {
            let rest = skip_chars(line.as_slice(), 7);
            branch = Some(strip_heads_prefix(rest.as_slice()));
        }
        i = i + 1;
    }
    let ghost pv = opt_chars(path);
    let ghost bv = opt_chars(branch);
    assert(porcelain_from(lines, n as int + 1, None, None) == Seq::<(Seq<char>, Option<Seq<char>>)>::empty());
    assert(porcelain_from(lines, n as int + 1, None, bv) == Seq::<(Seq<char>, Option<Seq<char>>)>::empty());
    assert(porcelain_from(lines, n as int, pv, bv) == (match pv {
        Some(p) => seq![(p, bv)] + porcelain_from(lines, n as int + 1, None, None),
        None => porcelain_from(lines, n as int + 1, None, bv),
    }));
    match path {
        Some(p) => {
            let ghost before = entries@;
            let b = match branch {
                Some(b) => Some(chars_to_string(b.as_slice())),
                None => None,
            };
            let e = GitWorktreeEntry { path: chars_to_string(p.as_slice()), branch: b };
            entries.push(e);
            assert(entries@.map_values(|e: GitWorktreeEntry| entry_view(e)) =~= before.map_values(
                |e: GitWorktreeEntry| entry_view(e),
            ).push(entry_view(e)));
        },
        None => {
            assert(entries@.map_values(|e: GitWorktreeEntry| entry_view(e)) =~= entries@.map_values(|e: GitWorktreeEntry| entry_view(e)) + Seq::<(Seq<char>, Option<Seq<char>>)>::empty());
        },
    }
    entries
}

/// `path` made absolute against `cwd` (an absolute path stays as it is).
pub fn absolutize(cwd: &str, path: &str) -> (r: String)
    ensures
        r@ == join_path(cwd@, path@),
{
    path_join(cwd, path)
}

/// Who made a worktree and where it lives: as recorded in its metadata, else
/// an app worktree when it is under the Codex-home root, else a plain Git one.
pub fn classify_worktree(metadata: Option<&WorktreeMetadata>, is_managed_path: bool) -> (r: (
    WorktreeSource,
    WorktreeLocation,
))
    ensures
        match metadata {
            Some(m) => r == (m.source, m.location),
            None => if is_managed_path {
                r == (WorktreeSource::App, WorktreeLocation::CodexHome)
            } else {
                r == (WorktreeSource::Git, WorktreeLocation::External)
            },
        },
{
    if let Some(m) = metadata {
        return (m.source, m.location);
    }
    if is_managed_path {
        return (WorktreeSource::App, WorktreeLocation::CodexHome);
    }
    (WorktreeSource::Git, WorktreeLocation::External)
}

/// The label a worktree is listed and sorted by: its branch, else its name.
pub fn display_branch_or_name(info: &WorktreeInfo) -> (r: &str)
    ensures
        r@ == match info.branch {
            Some(b) => b@,
            None => info.name@,
        },
{
    match &info.branch {
        Some(b) => b.as_str(),
        None => info.name.as_str(),
    }
}

pub open spec fn branch_in_use_error(root: Seq<char>, owner: Seq<char>) -> Seq<char> {
    "managed worktree path "@ + root + " is already used by "@ + owner
        + "; choose a different branch name"@
}

/// An existing managed worktree may be reused for `requested_branch` when its
/// metadata names that branch (as branch or name) or it has it checked out.
pub open spec fn existing_matches_spec(
    root: Seq<char>,
    metadata_branch: Option<Seq<char>>,
    metadata_name: Seq<char>,
    requested: Seq<char>,
    current_branch: Option<Seq<char>>,
) -> Result<(), Seq<char>> {
    if metadata_branch == Some(requested) || metadata_name == requested || current_branch == Some(
        requested,
    ) {
        Ok(())
    } else {
        Err(branch_in_use_error(
            root,
            match metadata_branch {
                Some(b) => b,
                None => metadata_name,
            },
        ))
    }
}

pub fn opt_eq(a: &Option<String>, b: &str) -> (r: bool)
    ensures
        r == (opt_view(*a) == Some(b@)),
{
    match a {
        Some(s) => str_eq(s.as_str(), b),
        None => false,
    }
}

pub fn ensure_existing_worktree_matches_branch(
    worktree_git_root: &str,
    metadata: &WorktreeMetadata,
    requested_branch: &str,
    current_branch: &Option<String>,
) -> (r: Result<(), String>)
    ensures
        match (r, existing_matches_spec(
            worktree_git_root@,
            opt_view(metadata.branch),
            metadata.name@,
            requested_branch@,
            opt_view(*current_branch),
        )) {
            (Ok(_), Ok(_)) => true,
            (Err(e), Err(m)) => e@ == m,
            _ => false,
        },
{
    if opt_eq(&metadata.branch, requested_branch) || str_eq(
        metadata.name.as_str(),
        requested_branch,
    ) {
        return Ok(());
    }
    if opt_eq(current_branch, requested_branch) {
        return Ok(());
    }
    let mut msg: Vec<char> = Vec::new();
    push_str(&mut msg, "managed worktree path ");
    push_str(&mut msg, worktree_git_root);
    push_str(&mut msg, " is already used by ");
    match &metadata.branch {
        Some(b) => push_str(&mut msg, b.as_str()),
        None => push_str(&mut msg, metadata.name.as_str()),
    }
    push_str(&mut msg, "; choose a different branch name");
    Err(chars_to_string(msg.as_slice()))
}

/// A worktree belongs to a repository when it has the repository's id or
/// shares its common Git directory (`same_common_git_dir`, compared in
/// canonical form by the caller).
pub fn worktree_matches_repo(info: &WorktreeInfo, repo_id: &str, same_common_git_dir: bool) -> (r:
    bool)
    ensures
        r == (info.id@ == repo_id@ || same_common_git_dir),
{
    str_eq(info.id.as_str(), repo_id) || same_common_git_dir
}

/// A worktree entry answers to `target` by its branch, name or slug.
pub open spec fn answers_to(info: WorktreeInfo, target: Seq<char>) -> bool {
    opt_view(info.branch) == Some(target) || info.name@ == target || info.slug@ == target
}

pub fn worktree_answers_to(info: &WorktreeInfo, target: &str) -> (r: bool)
    ensures
        r == answers_to(*info, target@),
{
    opt_eq(&info.branch, target) || str_eq(info.name.as_str(), target) || str_eq(
        info.slug.as_str(),
        target,
    )
}

/// The indices of the entries that answer to `target`, in order.
pub open spec fn matching_indices(entries: Seq<WorktreeInfo>, target: Seq<char>, n: int) -> Seq<int>
    decreases n,
{
    if n <= 0 {
        seq![]
    } else {
        let rest = matching_indices(entries, target, n - 1);
        if answers_to(entries[n - 1], target) {
            rest.push(n - 1)
        } else {
            rest
        }
    }
}

pub fn matching_worktrees(entries: &[WorktreeInfo], target: &str) -> (r: Vec<usize>)
    ensures
        r@.map_values(|i: usize| i as int) == matching_indices(entries@, target@, entries@.len() as int),
        forall|k: int| 0 <= k < r@.len() ==> r@[k] < entries@.len(),
{
    let mut out: Vec<usize> = Vec::new();
    let mut i: usize = 0;
    while i < entries.len()
        invariant
            i <= entries.len(),
            out@.map_values(|i: usize| i as int) == matching_indices(entries@, target@, i as int),
            forall|k: int| 0 <= k < out@.len() ==> out@[k] < i,
        decreases entries.len() - i,
    {
        if worktree_answers_to(&entries[i], target) {
            let ghost before = out@;
            out.push(i);
            assert(out@.map_values(|i: usize| i as int) =~= before.map_values(|i: usize| i as int).push(
                i as int,
            ));
        }
        i = i + 1;
    }
    out
}

pub open spec fn no_managed_worktree_error(name: Seq<char>) -> Seq<char> {
    "no managed worktree named "@ + name
}

pub open spec fn ambiguous_managed_worktree_error(name: Seq<char>) -> Seq<char> {
    "multiple managed worktrees named "@ + name + "; pass a path instead"@
}

/// The worktree `git worktree remove` should act on: an absolute path as
/// given, or the one entry that answers to the name.
pub open spec fn removal_target_spec(entries: Seq<WorktreeInfo>, name_or_path: Seq<char>) -> Result<
    Seq<char>,
    Seq<char>,
> {
    let m = matching_indices(entries, name_or_path, entries.len() as int);
    if name_or_path.len() > 0 && name_or_path[0] == '/' {
        Ok(name_or_path)
    } else if m.len() == 1 {
        Ok(entries[m[0]].worktree_git_root@)
    } else if m.len() == 0 {
        Err(no_managed_worktree_error(name_or_path))
    } else {
        Err(ambiguous_managed_worktree_error(name_or_path))
    }
}

pub fn removal_target(entries: &[WorktreeInfo], name_or_path: &str) -> (r: Result<String, String>)
    ensures
        match (r, removal_target_spec(entries@, name_or_path@)) {
            (Ok(a), Ok(b)) => a@ == b,
            (Err(a), Err(b)) => a@ == b,
            _ => false,
        },
{
    let v = str_chars(name_or_path);
    if v.len() > 0 && v[0] == '/' {
        return Ok(str_to_string(name_or_path));
    }
    let m = matching_worktrees(entries, name_or_path);
    assert(m@.len() == m@.map_values(|i: usize| i as int).len());
    if m.len() == 1 {
        assert(m@.map_values(|i: usize| i as int)[0] == m@[0] as int);
        return Ok(entries[m[0]].worktree_git_root.clone());
    }
    let mut msg: Vec<char> = Vec::new();
    if m.len() == 0 {
        push_str(&mut msg, "no managed worktree named ");
        push_str(&mut msg, name_or_path);
    } else {
        push_str(&mut msg, "multiple managed worktrees named ");
        push_str(&mut msg, name_or_path);
        push_str(&mut msg, "; pass a path instead");
    }
    Err(chars_to_string(msg.as_slice()))
}

pub open spec fn string_views(v: Seq<String>) -> Seq<Seq<char>> {
    v.map_values(|s: String| s@)
}

fn push_string(out: &mut Vec<String>, s: &str)
    ensures
        string_views(final(out)@) == string_views(old(out)@).push(s@),
{
    let ghost before = out@;
    out.push(str_to_string(s));
    assert(string_views(out@) =~= string_views(before).push(s@));
}

/// The `git worktree add` arguments for a new worktree at `path`: check out an
/// existing branch; start an orphan branch in a repository without commits
/// when no base is given; otherwise create the branch from the base (`HEAD`
/// by default).
pub open spec fn worktree_add_args_spec(
    path: Seq<char>,
    branch: Seq<char>,
    branch_exists: bool,
    base_ref: Option<Seq<char>>,
    has_head: bool,
) -> Seq<Seq<char>> {
    if branch_exists {
        seq!["worktree"@, "add"@, path, branch]
    } else if base_ref is None && !has_head {
        seq!["worktree"@, "add"@, "--orphan"@, "-b"@, branch, path]
    } else {
        seq![
            "worktree"@,
            "add"@,
            "-b"@,
            branch,
            path,
            match base_ref {
                Some(b) => b,
                None => "HEAD"@,
            },
        ]
    }
}

pub fn worktree_add_args(
    path: &str,
    branch: &str,
    branch_exists: bool,
    base_ref: Option<&str>,
    has_head: bool,
) -> (r: Vec<String>)
    ensures
        string_views(r@) == worktree_add_args_spec(
            path@,
            branch@,
            branch_exists,
            match base_ref {
                Some(b) => Some(b@),
                None => None,
            },
            has_head,
        ),
{
    let mut args: Vec<String> = Vec::new();
    push_string(&mut args, "worktree");
    push_string(&mut args, "add");
    if branch_exists {
        push_string(&mut args, path);
        push_string(&mut args, branch);
    } else if base_ref.is_none() && !has_head {
        push_string(&mut args, "--orphan");
        push_string(&mut args, "-b");
        push_string(&mut args, branch);
        push_string(&mut args, path);
    } else {
        push_string(&mut args, "-b");
        push_string(&mut args, branch);
        push_string(&mut args, path);
        match base_ref {
            Some(b) => push_string(&mut args, b),
            None => push_string(&mut args, "HEAD"),
        }
    }
    assert(string_views(args@) =~= worktree_add_args_spec(
        path@,
        branch@,
        branch_exists,
        match base_ref {
            Some(b) => Some(b@),
            None => None,
        },
        has_head,
    ));
    args
}

/// The `git worktree remove` arguments, forced when asked.
pub fn worktree_remove_args(target: &str, force: bool) -> (r: Vec<String>)
    ensures
        string_views(r@) == (if force {
            seq!["worktree"@, "remove"@, "--force"@, target@]
        } else {
            seq!["worktree"@, "remove"@, target@]
        }),
{
    let mut args: Vec<String> = Vec::new();
    push_string(&mut args, "worktree");
    push_string(&mut args, "remove");
    if force {
        push_string(&mut args, "--force");
    }
    push_string(&mut args, target);
    args
}

/// The `git branch` arguments that delete a worktree's branch: `-D` when
/// forced, `-d` otherwise.
pub fn branch_delete_args(branch: &str, force: bool) -> (r: Vec<String>)
    ensures
        string_views(r@) == seq!["branch"@, if force {
            "-D"@
        } else {
            "-d"@
        }, branch@],
{
    let mut args: Vec<String> = Vec::new();
    push_string(&mut args, "branch");
    if force {
        push_string(&mut args, "-D");
    } else {
        push_string(&mut args, "-d");
    }
    push_string(&mut args, branch);
    args
}

pub open spec fn empty_branch_name_error() -> Seq<char> {
    "branch name must not be empty"@
}

/// A branch name that is blank is refused before Git is asked about it.
pub fn ensure_branch_name_not_blank(branch: &str) -> (r: Result<(), String>)
    ensures
        r is Ok <==> trim(branch@).len() > 0,
        r matches Err(e) ==> e@ == empty_branch_name_error(),
{
    let v = str_chars(branch);
    let t = trim_chars(v.as_slice());
    if t.len() == 0 {
        return Err(str_to_string("branch name must not be empty"));
    }
    Ok(())
}

/// The branch `git symbolic-ref --quiet --short HEAD` printed: trimmed, and
/// none when nothing is left.
pub fn branch_from_symbolic_ref(output: &str) -> (r: Option<String>)
    ensures
        match r {
            Some(b) => trim(output@).len() > 0 && b@ == trim(output@),
            None => trim(output@).len() == 0,
        },
{
    let v = str_chars(output);
    let t = trim_chars(v.as_slice());
    if t.len() == 0 {
        None
    } else {
        Some(chars_to_string(t.as_slice()))
    }
}

/// The first component of `path` below `base`, when `path` lies strictly under `base`.
pub open spec fn first_component_under(path: Seq<char>, base: Seq<char>) -> Option<Seq<char>> {
    let pc = path_components(path);
    let bc = path_components(base);
    if bc.len() < pc.len() && pc.take(bc.len() as int) == bc {
        Some(pc[bc.len() as int])
    } else {
        None
    }
}

/// The name fields of an existing worktree: from its metadata when it has
/// some; otherwise the id is the directory under the Codex-home worktree root,
/// the name falls back to the given name, the checked-out branch, then the
/// repository name, and the slug to the given slug, then the slug of the name
/// (or the name itself when it has no slug).
pub open spec fn existing_identity_spec(
    metadata: Option<WorktreeMetadata>,
    root: Seq<char>,
    worktrees_root: Seq<char>,
    repo_name: Seq<char>,
    fallback_name: Option<Seq<char>>,
    fallback_slug: Option<Seq<char>>,
    branch: Option<Seq<char>>,
) -> (Seq<char>, Seq<char>, Seq<char>) {
    match metadata {
        Some(m) => (m.repo_id@, m.name@, m.slug@),
        None => {
            let id = match first_component_under(root, worktrees_root) {
                Some(c) => c,
                None => seq![],
            };
            let name = match fallback_name {
                Some(n) => n,
                None => match branch {
                    Some(b) => b,
                    None => repo_name,
                },
            };
            let slug = match fallback_slug {
                Some(s) => s,
                None => if slug_of(name).len() > 0 {
                    slug_of(name)
                } else {
                    name
                },
            };
            (id, name, slug)
        },
    }
}

pub fn existing_worktree_identity(
    metadata: Option<&WorktreeMetadata>,
    root: &str,
    worktrees_root: &str,
    repo_name: &str,
    fallback_name: Option<String>,
    fallback_slug: Option<String>,
    branch: &Option<String>,
) -> (r: (String, String, String))
    ensures
        (r.0@, r.1@, r.2@) == existing_identity_spec(
            match metadata {
                Some(m) => Some(*m),
                None => None,
            },
            root@,
            worktrees_root@,
            repo_name@,
            opt_view(fallback_name),
            opt_view(fallback_slug),
            opt_view(*branch),
        ),
{
    if let Some(m) = metadata {
        return (m.repo_id.clone(), m.name.clone(), m.slug.clone());
    }
    let id = match first_component_below(root, worktrees_root) {
        Some(c) => c,
        None => String::new(),
    };
    let name = match fallback_name {
        Some(n) => n,
        None => match branch {
            Some(b) => b.clone(),
            None => str_to_string(repo_name),
        },
    };
    let slug = match fallback_slug {
        Some(s) => s,
        None => match slugify_name(name.as_str()) {
            Ok(s) => s,
            Err(_) => name.clone(),
        },
    };
    (id, name, slug)
}

pub fn first_component_below(path: &str, base: &str) -> (r: Option<String>)
    ensures
        match (r, first_component_under(path@, base@)) {
            (Some(a), Some(b)) => a@ == b,
            (None, None) => true,
            _ => false,
        },
{
    let pv = str_chars(path);
    let bv = str_chars(base);
    let under = crate::worktree_paths::path_starts_with_exec(path, base);
    let pc = crate::worktree_paths::components_of_path(pv.as_slice());
    let bc = crate::worktree_paths::components_of_path(bv.as_slice());
    let ghost pcv = char_seqs(pc@);
    let ghost bcv = char_seqs(bc@);
    assert(pcv.len() == pc@.len() && bcv.len() == bc@.len());
    if under && bc.len() < pc.len() {
        assert(pcv[bc@.len() as int] == pc@[bc@.len() as int]@);
        Some(chars_to_string(pc[bc.len()].as_slice()))
    } else {
        None
    }
}


/// Where `git worktree list` shows `branch` checked out, if anywhere: the
/// first entry on that branch.
pub open spec fn checkout_path_spec(entries: Seq<GitWorktreeEntry>, branch: Seq<char>) -> Option<Seq<char>>
    decreases entries.len(),
{
    if entries.len() == 0 {
        None
    } else if opt_view(entries[0].branch) == Some(branch) {
        Some(entries[0].path@)
    } else {
        checkout_path_spec(entries.drop_first(), branch)
    }
}

pub fn branch_checkout_path(entries: &[GitWorktreeEntry], branch: &str) -> (r: Option<String>)
    ensures
        opt_view(r) == checkout_path_spec(entries@, branch@),
{
    let mut i: usize = 0;
    assert(entries@.skip(0) =~= entries@);
    while i < entries.len()
        invariant
            i <= entries@.len(),
            checkout_path_spec(entries@, branch@) == checkout_path_spec(entries@.skip(i as int), branch@),
        decreases entries.len() - i,
    {
        assert(entries@.skip(i as int)[0] == entries@[i as int]);
        if opt_eq(&entries[i].branch, branch) {
            return Some(entries[i].path.clone());
        }
        assert(entries@.skip(i as int).drop_first() =~= entries@.skip(i as int + 1));
        i = i + 1;
    }
    None
}

pub open spec fn checked_out_elsewhere_error(branch: Seq<char>, path: Seq<char>) -> Seq<char> {
    "branch "@ + branch + " is already checked out at "@ + path + "; remove that worktree first"@
}

/// A new worktree for `branch` cannot be made while the branch is checked
/// out in another worktree than the one it would get.
pub fn ensure_branch_not_checked_out_elsewhere(
    checkout: Option<&str>,
    worktree_git_root: &str,
    branch: &str,
) -> (r: Result<(), String>)
    ensures
        match checkout {
            Some(p) => if crate::update::same_path(p@, worktree_git_root@) {
                r is Ok
            } else {
                r matches Err(e) && e@ == checked_out_elsewhere_error(branch@, p@)
            },
            None => r is Ok,
        },
{
    match checkout {
        Some(p) => {
            if crate::update::paths_equal(p, worktree_git_root) {
                Ok(())
            } else {
                let mut msg: Vec<char> = Vec::new();
                push_str(&mut msg, "branch ");
                push_str(&mut msg, branch);
                push_str(&mut msg, " is already checked out at ");
                push_str(&mut msg, p);
                push_str(&mut msg, "; remove that worktree first");
                Err(chars_to_string(msg.as_slice()))
            }
        },
        None => Ok(()),
    }
}

pub open spec fn not_owned_error(path: Seq<char>) -> Seq<char> {
    "managed worktree path "@ + path + " already exists but is not owned by Codex"@
}

/// An existing directory at the worktree path is reused only when Codex
/// wrote metadata for it.
pub fn ensure_existing_path_is_managed(worktree_git_root: &str, metadata_found: bool) -> (r: Result<
    (),
    String,
>)
    ensures
        metadata_found ==> r is Ok,
        !metadata_found ==> (r matches Err(e) && e@ == not_owned_error(worktree_git_root@)),
{
    if metadata_found {
        return Ok(());
    }
    let mut msg: Vec<char> = Vec::new();
    push_str(&mut msg, "managed worktree path ");
    push_str(&mut msg, worktree_git_root);
    push_str(&mut msg, " already exists but is not owned by Codex");
    Err(chars_to_string(msg.as_slice()))
}

pub open spec fn unmanaged_removal_error() -> Seq<char> {
    "refusing to remove a worktree not managed by Codex"@
}

pub open spec fn dirty_removal_error(path: Seq<char>) -> Seq<char> {
    "refusing to remove dirty worktree "@ + path + "; use --force to override"@
}

/// Removal is refused for a worktree without Codex metadata, and for a dirty
/// one unless forced.
pub fn check_worktree_removal(target: &str, managed: bool, dirty: bool, force: bool) -> (r: Result<
    (),
    String,
>)
    ensures
        !managed ==> (r matches Err(e) && e@ == unmanaged_removal_error()),
        managed && dirty && !force ==> (r matches Err(e) && e@ == dirty_removal_error(target@)),
        managed && (!dirty || force) ==> r is Ok,
{
    if !managed {
        return Err(str_to_string("refusing to remove a worktree not managed by Codex"));
    }
    if dirty && !force {
        let mut msg: Vec<char> = Vec::new();
        push_str(&mut msg, "refusing to remove dirty worktree ");
        push_str(&mut msg, target);
        push_str(&mut msg, "; use --force to override");
        return Err(chars_to_string(msg.as_slice()));
    }
    Ok(())
}

/// The branch to delete after a removal: the worktree's branch, when asked
/// to and it had one.
pub fn branch_to_delete(delete_branch: bool, branch: Option<String>) -> (r: Option<String>)
    ensures
        opt_view(r) == (if delete_branch {
            opt_view(branch)
        } else {
            None
        }),
{
    if delete_branch {
        branch
    } else {
        None
    }
}

/// Whether the now-empty parent directory of a removed Codex-home worktree
/// is removed too.
pub fn should_remove_empty_parent(
    location: WorktreeLocation,
    parent_exists: bool,
    parent_is_empty: bool,
) -> (r: bool)
    ensures
        r == (location == WorktreeLocation::CodexHome && parent_exists && parent_is_empty),
{
    location == WorktreeLocation::CodexHome && parent_exists && parent_is_empty
}


/// The primary worktree of a repository: the first entry `git worktree list`
/// reports.
pub fn primary_worktree_root(entries: &[GitWorktreeEntry]) -> (r: Option<String>)
    ensures
        entries@.len() == 0 ==> r is None,
        entries@.len() > 0 ==> (r matches Some(p) && p@ == entries@[0].path@),
{
    if entries.len() == 0 {
        None
    } else {
        Some(entries[0].path.clone())
    }
}

/// `cwd.strip_prefix(root)`: the components of `cwd` below `root`, joined by
/// `/`; empty when `cwd` is not under `root`.
pub open spec fn relative_cwd_spec(cwd: Seq<char>, root: Seq<char>) -> Seq<char> {
    if crate::worktree_paths::path_starts_with(cwd, root) {
        crate::text::join_with(path_components(cwd).skip(path_components(root).len() as int), "/"@)
    } else {
        seq![]
    }
}

/// Where the source directory sits inside its checkout, so that the same
/// place can be opened in the new worktree.
pub fn relative_cwd(cwd: &str, root: &str) -> (r: String)
    ensures
        r@ == relative_cwd_spec(cwd@, root@),
{
    if !crate::worktree_paths::path_starts_with_exec(cwd, root) {
        return String::new();
    }
    let cv = str_chars(cwd);
    let rv = str_chars(root);
    let cc = crate::worktree_paths::components_of_path(cv.as_slice());
    let rc = crate::worktree_paths::components_of_path(rv.as_slice());
    let ghost ccv = char_seqs(cc@);
    let n = rc.len();
    assert(n <= cc.len()) by {
        assert(char_seqs(rc@).len() == rc@.len());
    }
    let mut rest: Vec<Vec<char>> = Vec::new();
    let mut i: usize = n;
    while i < cc.len()
        invariant
            n <= i <= cc.len(),
            ccv == char_seqs(cc@),
            char_seqs(rest@) == ccv.subrange(n as int, i as int),
        decreases cc.len() - i,
    {
        let ghost before = rest@;
        rest.push(cc[i].clone());
        assert(char_seqs(rest@) =~= char_seqs(before).push(ccv[i as int]));
        assert(char_seqs(rest@) =~= ccv.subrange(n as int, i as int + 1));
        i = i + 1;
    }
    assert(ccv.subrange(n as int, cc.len() as int) =~= ccv.skip(n as int));
    let joined = crate::text::join_chars(rest.as_slice(), "/");
    chars_to_string(joined.as_slice())
}

/// The paths of a NUL-separated Git listing (`-z`), empty pieces dropped.
pub fn paths_from_nul_separated(output: &str) -> (r: Vec<String>)
    ensures
        string_views(r@) == crate::worktree_paths::nonempty_pieces(crate::text::split_on(output@, '\0')),
{
    let v = str_chars(output);
    let pieces = crate::text::split_on_char(v.as_slice(), '\0');
    let ghost pv = char_seqs(pieces@);
    let mut out: Vec<String> = Vec::new();
    let mut k: usize = 0;
    assert(pv.take(0) =~= Seq::<Seq<char>>::empty());
    while k < pieces.len()
        invariant
            k <= pieces.len(),
            pv == char_seqs(pieces@),
            pv == crate::text::split_on(output@, '\0'),
            string_views(out@) == crate::worktree_paths::nonempty_pieces(pv.take(k as int)),
        decreases pieces.len() - k,
    {
        assert(pv.take(k as int + 1).drop_last() =~= pv.take(k as int));
        if pieces[k].len() > 0 {
            let ghost before = out@;
            out.push(chars_to_string(pieces[k].as_slice()));
            assert(string_views(out@) =~= string_views(before).push(pv[k as int]));
        }
        k = k + 1;
    }
    assert(pv.take(pieces.len() as int) =~= pv);
    out
}

pub open spec fn absolute_untracked_error(p: Seq<char>) -> Seq<char> {
    "refusing to copy absolute untracked path "@ + p
}

pub open spec fn unsafe_untracked_error(p: Seq<char>) -> Seq<char> {
    "refusing to copy unsafe untracked path "@ + p
}

/// A path to copy between checkouts must stay inside them: it is relative,
/// and no component of it is `..` or `.git`.
pub open spec fn safe_relative_spec(p: Seq<char>) -> Result<(), Seq<char>> {
    if p.len() > 0 && p[0] == '/' {
        Err(absolute_untracked_error(p))
    } else if exists|k: int|
        0 <= k < path_components(p).len() && (#[trigger] path_components(p)[k] == ".."@
            || path_components(p)[k] == ".git"@) {
        Err(unsafe_untracked_error(p))
    } else {
        Ok(())
    }
}

pub fn ensure_safe_relative_path(path: &str) -> (r: Result<(), String>)
    ensures
        match (r, safe_relative_spec(path@)) {
            (Ok(_), Ok(_)) => true,
            (Err(e), Err(m)) => e@ == m,
            _ => false,
        },
{
    let v = str_chars(path);
    if v.len() > 0 && v[0] == '/' {
        let mut out: Vec<char> = Vec::new();
        push_str(&mut out, "refusing to copy absolute untracked path ");
        push_chars(&mut out, v.as_slice());
        return Err(chars_to_string(out.as_slice()));
    }
    let comps = crate::worktree_paths::components_of_path(v.as_slice());
    let ghost cs = char_seqs(comps@);
    let mut k: usize = 0;
    while k < comps.len()
        invariant
            k <= comps.len(),
            cs == char_seqs(comps@),
            cs == path_components(path@),
            v@ == path@,
            !(v@.len() > 0 && v@[0] == '/'),
            forall|m: int| 0 <= m < k ==> cs[m] != ".."@ && cs[m] != ".git"@,
        decreases comps.len() - k,
    {
        assert(cs[k as int] == comps@[k as int]@);
        if chars_eq_str(comps[k].as_slice(), "..") || chars_eq_str(comps[k].as_slice(), ".git") {
            assert(path_components(path@)[k as int] == ".."@ || path_components(path@)[k as int] == ".git"@);
            let mut out: Vec<char> = Vec::new();
            push_str(&mut out, "refusing to copy unsafe untracked path ");
            push_chars(&mut out, v.as_slice());
            return Err(chars_to_string(out.as_slice()));
        }
        k = k + 1;
    }
    Ok(())
}

} // verus!
