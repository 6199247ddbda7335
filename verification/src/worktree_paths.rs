//! Where worktrees live and how they are named: the Codex-home worktree root,
//! branch and name slugs, sibling worktree directories and the repository
//! fingerprint. Paths are `/`-separated strings, joined and split as
//! `std::path` does on Unix.

use vstd::prelude::*;
use vstd::string::*;
use vstd::utf8::encode_utf8;

use crate::text::{
    ascii_lower, char_seqs, chars_to_string, is_ascii_alnum, join_chars, join_with, push_chars,
    split_on, split_on_char, str_chars, to_ascii_lower, trim, trim_chars,
};

verus! {

/// `base.join(p)`: an absolute `p` replaces `base`; otherwise a `/` is put
/// between them unless `base` is empty or already ends with one.
pub open spec fn join_path(base: Seq<char>, p: Seq<char>) -> Seq<char> {
    if p.len() > 0 && p[0] == '/' {
        p
    } else if base.len() == 0 || base.last() == '/' {
        base + p
    } else {
        base + seq!['/'] + p
    }
}

pub fn path_join(base: &str, p: &str) -> (r: String)
    ensures
        r@ == join_path(base@, p@),
{
    let pv = str_chars(p);
    if pv.len() > 0 && pv[0] == '/' {
        return chars_to_string(pv.as_slice());
    }
    let mut out = str_chars(base);
    if out.len() > 0 && out[out.len() - 1] != '/' {
        out.push('/');
    }
    push_chars(&mut out, pv.as_slice());
    chars_to_string(out.as_slice())
}

/// `<codex_home>/worktrees`, where the app keeps the worktrees it manages.
pub fn codex_worktrees_root(codex_home: &str) -> (r: String)
    ensures
        r@ == join_path(codex_home@, "worktrees"@),
{
    path_join(codex_home, "worktrees")
}

/// The named parts of a path: the pieces between separators that are neither
/// empty nor `.`.
pub open spec fn named_parts(pieces: Seq<Seq<char>>) -> Seq<Seq<char>>
    decreases pieces.len(),
{
    if pieces.len() == 0 {
        seq![]
    } else {
        let rest = named_parts(pieces.drop_last());
        let p = pieces.last();
        if p.len() == 0 || p == seq!['.'] {
            rest
        } else {
            rest.push(p)
        }
    }
}

/// Whether a relative path begins with a `.` component (`.` or `./...`).
pub open spec fn starts_with_cur_dir(p: Seq<char>) -> bool {
    p.len() > 0 && p[0] == '.' && (p.len() == 1 || p[1] == '/')
}

/// A path that begins with a `.` component has `.` as its first piece.
pub proof fn lemma_cur_dir_first_piece(p: Seq<char>)
    requires
        starts_with_cur_dir(p),
    ensures
        split_on(p, '/')[0] == seq!['.'],
{
    let d = p.drop_first();
    assert(seq![].push(p[0]) =~= seq!['.']);
    assert(split_on(p, '/') == crate::text::pieces_from(d, '/', seq!['.']));
    if p.len() == 1 {
        assert(d.len() == 0);
    } else {
        assert(d[0] == '/');
        assert(crate::text::pieces_from(d, '/', seq!['.']) == seq![seq!['.']] + crate::text::pieces_from(
            d.drop_first(),
            '/',
            seq![],
        ));
    }
}

/// The components of a path: the root `/` for an absolute path, or `.` for
/// a relative path that begins with it, then its named parts.
pub open spec fn path_components(p: Seq<char>) -> Seq<Seq<char>> {
    (if p.len() > 0 && p[0] == '/' {
        seq![seq!['/']]
    } else if starts_with_cur_dir(p) {
        seq![seq!['.']]
    } else {
        seq![]
    }) + named_parts(split_on(p, '/'))
}

pub fn components_of_path(p: &[char]) -> (r: Vec<Vec<char>>)
    ensures
        char_seqs(r@) == path_components(p@),
{
    let pieces = split_on_char(p, '/');
    let ghost pv = char_seqs(pieces@);
    let mut out: Vec<Vec<char>> = Vec::new();
    if p.len() > 0 && p[0] == '/' {
        let mut root: Vec<char> = Vec::new();
        root.push('/');
        out.push(root);
    } else if p.len() > 0 && p[0] == '.' && (p.len() == 1 || p[1] == '/') {
        let mut cur: Vec<char> = Vec::new();
        cur.push('.');
        out.push(cur);
    }
    let ghost head = char_seqs(out@);
    assert(head =~= (if p@.len() > 0 && p@[0] == '/' {
        seq![seq!['/']]
    } else if starts_with_cur_dir(p@) {
        seq![seq!['.']]
    } else {
        Seq::<Seq<char>>::empty()
    }));
    let mut i: usize = 0;
    assert(pv.take(0) =~= Seq::<Seq<char>>::empty());
    while i < pieces.len()
        invariant
            i <= pieces.len(),
            pv == char_seqs(pieces@),
            pv == split_on(p@, '/'),
            char_seqs(out@) == head + named_parts(pv.take(i as int)),
        decreases pieces.len() - i,
    {
        assert(pv.take(i as int + 1).drop_last() =~= pv.take(i as int));
        let piece = &pieces[i];
        let is_dot = piece.len() == 1 && piece[0] == '.';
        assert(is_dot == (pv[i as int] == seq!['.'])) by {
            if pv[i as int].len() == 1 && pv[i as int][0] == '.' {
                assert(pv[i as int] =~= seq!['.']);
            }
        }
        if piece.len() > 0 && !is_dot {
            let ghost before = out@;
            out.push(pieces[i].clone());
            assert(char_seqs(out@) =~= char_seqs(before).push(pv[i as int]));
        }
        i = i + 1;
    }
    assert(pv.take(pieces.len() as int) =~= pv);
    out
}

/// `Path::starts_with`: the components of `base` begin the components of `p`.
pub open spec fn path_starts_with(p: Seq<char>, base: Seq<char>) -> bool {
    let pc = path_components(p);
    let bc = path_components(base);
    bc.len() <= pc.len() && pc.take(bc.len() as int) == bc
}

pub fn path_starts_with_exec(p: &str, base: &str) -> (r: bool)
    ensures
        r == path_starts_with(p@, base@),
{
    let pv = str_chars(p);
    let bv = str_chars(base);
    let pc = components_of_path(pv.as_slice());
    let bc = components_of_path(bv.as_slice());
    let ghost pcv = char_seqs(pc@);
    let ghost bcv = char_seqs(bc@);
    assert(pcv.len() == pc@.len() && bcv.len() == bc@.len());
    assert(pcv == path_components(p@) && bcv == path_components(base@));
    if bc.len() > pc.len() {
        assert(!path_starts_with(p@, base@));
        return false;
    }
    let mut i: usize = 0;
    while i < bc.len()
        invariant
            i <= bc.len() <= pc.len(),
            pcv == char_seqs(pc@),
            bcv == char_seqs(bc@),
            pcv == path_components(p@),
            bcv == path_components(base@),
            forall|k: int| 0 <= k < i ==> pcv[k] == bcv[k],
        decreases bc.len() - i,
    {
        if !crate::text::chars_eq(pc[i].as_slice(), bc[i].as_slice()) {
            assert(pcv.take(bcv.len() as int)[i as int] != bcv[i as int]);
            return false;
        }
        i = i + 1;
    }
    assert(pcv.take(bcv.len() as int) =~= bcv);
    true
}

/// Whether `path` lies under the Codex-home worktree root. Both sides are
/// compared in canonical form when one could be resolved (`canonical_path`,
/// `canonical_root`), and as written otherwise.
pub fn is_managed_worktree_path(
    path: &str,
    codex_home: &str,
    canonical_path: Option<&str>,
    canonical_root: Option<&str>,
) -> (r: bool)
    ensures
        r == path_starts_with(
            match canonical_path {
                Some(c) => c@,
                None => path@,
            },
            match canonical_root {
                Some(c) => c@,
                None => join_path(codex_home@, "worktrees"@),
            },
        ),
{
    let root = match canonical_root {
        Some(c) => crate::text::str_to_string(c),
        None => codex_worktrees_root(codex_home),
    };
    match canonical_path {
        Some(c) => path_starts_with_exec(c, root.as_str()),
        None => path_starts_with_exec(path, root.as_str()),
    }
}

/// A name character in a slug: ASCII letters and digits lowercased, anything else `-`.
pub open spec fn slug_char(c: char) -> char {
    if is_ascii_alnum(c) {
        ascii_lower(c)
    } else {
        '-'
    }
}

/// The non-empty pieces, in order.
pub open spec fn nonempty_pieces(pieces: Seq<Seq<char>>) -> Seq<Seq<char>>
    decreases pieces.len(),
{
    if pieces.len() == 0 {
        seq![]
    } else {
        let rest = nonempty_pieces(pieces.drop_last());
        if pieces.last().len() == 0 {
            rest
        } else {
            rest.push(pieces.last())
        }
    }
}

/// The slug of a worktree name: lowercase ASCII letters and digits, the runs
/// of other characters collapsed to single `-`, at most twelve words.
pub open spec fn slug_of(name: Seq<char>) -> Seq<char> {
    let words = nonempty_pieces(split_on(name.map_values(|c: char| slug_char(c)), '-'));
    join_with(words.take(if words.len() < 12 {
        words.len() as int
    } else {
        12
    }), "-"@)
}

/// A character a slug word is made of: a lowercase ASCII letter or a digit.
pub open spec fn slug_word_char(c: char) -> bool {
    ('a' <= c <= 'z') || ('0' <= c <= '9')
}

/// A slug: words of lowercase ASCII letters and digits joined by single `-`.
pub open spec fn is_slug(s: Seq<char>) -> bool {
    &&& forall|i: int| 0 <= i < s.len() ==> #[trigger] s[i] == '-' || slug_word_char(s[i])
    &&& s.len() > 0 ==> slug_word_char(s[0]) && slug_word_char(s.last())
    &&& forall|i: int| 0 <= i < s.len() - 1 && #[trigger] s[i] == '-' ==> slug_word_char(s[i + 1])
}

proof fn lemma_slug_char_class(c: char)
    ensures
        slug_char(c) == '-' || slug_word_char(slug_char(c)),
{
    if 'A' <= c <= 'Z' {
        assert(((c as u32) + 32) as char == ascii_lower(c));
        assert('a' <= ascii_lower(c) <= 'z');
    }
}

proof fn lemma_pieces_of_words(s: Seq<char>, cur: Seq<char>)
    requires
        forall|i: int| 0 <= i < s.len() ==> #[trigger] s[i] == '-' || slug_word_char(s[i]),
        forall|i: int| 0 <= i < cur.len() ==> slug_word_char(#[trigger] cur[i]),
    ensures
        forall|k: int, i: int|
            0 <= k < crate::text::pieces_from(s, '-', cur).len() && 0 <= i < crate::text::pieces_from(
                s,
                '-',
                cur,
            )[k].len() ==> slug_word_char(#[trigger] crate::text::pieces_from(s, '-', cur)[k][i]),
    decreases s.len(),
{
    if s.len() > 0 {
        let t = s.drop_first();
        assert forall|i: int| 0 <= i < t.len() implies #[trigger] t[i] == '-' || slug_word_char(t[i]) by {
            assert(t[i] == s[i + 1]);
        }
        if s[0] == '-' {
            lemma_pieces_of_words(t, seq![]);
            let rest = crate::text::pieces_from(t, '-', seq![]);
            assert(crate::text::pieces_from(s, '-', cur) == seq![cur] + rest);
            assert forall|k: int, i: int|
                0 <= k < (seq![cur] + rest).len() && 0 <= i < (seq![cur] + rest)[k].len() implies slug_word_char(
                #[trigger] (seq![cur] + rest)[k][i],
            ) by {
                if k > 0 {
                    assert((seq![cur] + rest)[k] == rest[k - 1]);
                }
            }
        } else {
            let c2 = cur.push(s[0]);
            assert forall|i: int| 0 <= i < c2.len() implies slug_word_char(#[trigger] c2[i]) by {
                if i < cur.len() {
                    assert(c2[i] == cur[i]);
                }
            }
            lemma_pieces_of_words(t, c2);
            assert(crate::text::pieces_from(s, '-', cur) == crate::text::pieces_from(t, '-', c2));
        }
    } else {
        let ps = crate::text::pieces_from(s, '-', cur);
        assert(ps == seq![cur]);
        assert forall|k: int, i: int| 0 <= k < ps.len() && 0 <= i < ps[k].len() implies slug_word_char(
            #[trigger] ps[k][i],
        ) by {
            assert(ps[k] == cur);
        }
    }
}

proof fn lemma_nonempty_pieces_words(pieces: Seq<Seq<char>>)
    requires
        forall|k: int, i: int|
            0 <= k < pieces.len() && 0 <= i < pieces[k].len() ==> slug_word_char(#[trigger] pieces[k][i]),
    ensures
        forall|k: int|
            0 <= k < nonempty_pieces(pieces).len() ==> (#[trigger] nonempty_pieces(pieces)[k]).len() > 0,
        forall|k: int, i: int|
            0 <= k < nonempty_pieces(pieces).len() && 0 <= i < nonempty_pieces(pieces)[k].len()
                ==> slug_word_char(#[trigger] nonempty_pieces(pieces)[k][i]),
    decreases pieces.len(),
{
    if pieces.len() > 0 {
        let prev = pieces.drop_last();
        assert forall|k: int, i: int| 0 <= k < prev.len() && 0 <= i < prev[k].len() implies slug_word_char(
            #[trigger] prev[k][i],
        ) by {
            assert(prev[k] == pieces[k]);
        }
        lemma_nonempty_pieces_words(prev);
        let last = pieces.last();
        assert forall|i: int| 0 <= i < last.len() implies slug_word_char(#[trigger] last[i]) by {
            assert(pieces[pieces.len() - 1] == last);
        }
        let rest = nonempty_pieces(prev);
        let np = nonempty_pieces(pieces);
        if last.len() == 0 {
            assert(np == rest);
        } else {
            assert(np == rest.push(last));
            assert forall|k: int| 0 <= k < np.len() implies (#[trigger] np[k]).len() > 0 by {
                if k < rest.len() {
                    assert(np[k] == rest[k]);
                }
            }
            assert forall|k: int, i: int| 0 <= k < np.len() && 0 <= i < np[k].len() implies slug_word_char(
                #[trigger] np[k][i],
            ) by {
                if k < rest.len() {
                    assert(np[k] == rest[k]);
                } else {
                    assert(np[k] == last);
                }
            }
        }
    }
}

proof fn lemma_join_words(parts: Seq<Seq<char>>)
    requires
        forall|k: int| 0 <= k < parts.len() ==> (#[trigger] parts[k]).len() > 0,
        forall|k: int, i: int|
            0 <= k < parts.len() && 0 <= i < parts[k].len() ==> slug_word_char(#[trigger] parts[k][i]),
    ensures
        is_slug(join_with(parts, "-"@)),
        parts.len() > 0 ==> join_with(parts, "-"@).len() > 0,
    decreases parts.len(),
{
    reveal_strlit("-");
    if parts.len() == 1 {
        let p = parts[0];
        assert(join_with(parts, "-"@) == p);
        assert forall|i: int| 0 <= i < p.len() implies #[trigger] p[i] == '-' || slug_word_char(p[i]) by {
            assert(slug_word_char(parts[0][i]));
        }
        assert(slug_word_char(parts[0][0]));
        assert(slug_word_char(parts[0][p.len() - 1]));
    } else if parts.len() > 1 {
        let prev = parts.drop_last();
        assert forall|k: int| 0 <= k < prev.len() implies (#[trigger] prev[k]).len() > 0 by {
            assert(prev[k] == parts[k]);
        }
        assert forall|k: int, i: int| 0 <= k < prev.len() && 0 <= i < prev[k].len() implies slug_word_char(
            #[trigger] prev[k][i],
        ) by {
            assert(prev[k] == parts[k]);
        }
        lemma_join_words(prev);
        let a = join_with(prev, "-"@);
        let last = parts.last();
        assert(last.len() > 0) by {
            assert(parts[parts.len() - 1] == last);
        }
        assert forall|i: int| 0 <= i < last.len() implies slug_word_char(#[trigger] last[i]) by {
            assert(slug_word_char(parts[parts.len() - 1][i]));
        }
        let j = a + "-"@ + last;
        assert(join_with(parts, "-"@) == j);
        assert forall|i: int| 0 <= i < j.len() implies #[trigger] j[i] == '-' || slug_word_char(j[i]) by {
            if i < a.len() {
                assert(j[i] == a[i]);
            } else if i > a.len() {
                assert(j[i] == last[i - a.len() - 1]);
            }
        }
        assert(j[0] == a[0]);
        assert(j.last() == last.last());
        assert(slug_word_char(last[last.len() - 1]));
        assert forall|i: int| 0 <= i < j.len() - 1 && #[trigger] j[i] == '-' implies slug_word_char(j[i + 1]) by {
            if i < a.len() - 1 {
                assert(j[i] == a[i]);
                assert(j[i + 1] == a[i + 1]);
            } else if i == a.len() - 1 {
                assert(j[i] == a.last());
            } else if i == a.len() {
                assert(j[i + 1] == last[0]);
            } else {
                assert(j[i] == last[i - a.len() - 1]);
                assert(j[i + 1] == last[i - a.len()]);
            }
        }
    }
}

/// Every slug is well formed: only lowercase ASCII letters, digits and
/// single `-` between words, never a `-` at either end.
pub proof fn lemma_slug_is_well_formed(name: Seq<char>)
    ensures
        is_slug(slug_of(name)),
{
    let mapped = name.map_values(|c: char| slug_char(c));
    assert forall|i: int| 0 <= i < mapped.len() implies #[trigger] mapped[i] == '-' || slug_word_char(
        mapped[i],
    ) by {
        lemma_slug_char_class(name[i]);
    }
    lemma_pieces_of_words(mapped, seq![]);
    let pieces = split_on(mapped, '-');
    lemma_nonempty_pieces_words(pieces);
    let words = nonempty_pieces(pieces);
    let n: int = if words.len() < 12 {
        words.len() as int
    } else {
        12
    };
    let taken = words.take(n);
    assert forall|k: int| 0 <= k < taken.len() implies (#[trigger] taken[k]).len() > 0 by {
        assert(taken[k] == words[k]);
    }
    assert forall|k: int, i: int| 0 <= k < taken.len() && 0 <= i < taken[k].len() implies slug_word_char(
        #[trigger] taken[k][i],
    ) by {
        assert(taken[k] == words[k]);
    }
    lemma_join_words(taken);
}

proof fn lemma_pieces_over_word(a: Seq<char>, b: Seq<char>, c: char, cur: Seq<char>)
    requires
        forall|i: int| 0 <= i < a.len() ==> #[trigger] a[i] != c,
    ensures
        crate::text::pieces_from(a + b, c, cur) == crate::text::pieces_from(b, c, cur + a),
    decreases a.len(),
{
    if a.len() == 0 {
        assert(a + b =~= b);
        assert(cur + a =~= cur);
    } else {
        assert((a + b)[0] == a[0]);
        assert((a + b).drop_first() =~= a.drop_first() + b);
        lemma_pieces_over_word(a.drop_first(), b, c, cur.push(a[0]));
        assert(cur.push(a[0]) + a.drop_first() =~= cur + a);
    }
}

proof fn lemma_join_front(parts: Seq<Seq<char>>, sep: Seq<char>)
    requires
        parts.len() >= 2,
    ensures
        join_with(parts, sep) == parts[0] + sep + join_with(parts.drop_first(), sep),
    decreases parts.len(),
{
    let front = parts.drop_last();
    let back = parts.drop_first();
    assert(join_with(parts, sep) == join_with(front, sep) + sep + parts.last());
    if parts.len() == 2 {
        assert(front.len() == 1 && front[0] == parts[0]);
        assert(back.len() == 1 && back[0] == parts[1]);
        assert(join_with(front, sep) == parts[0]);
        assert(join_with(back, sep) == parts[1]);
    } else {
        lemma_join_front(front, sep);
        assert(front.drop_first() =~= back.drop_last());
        assert(back.last() == parts.last());
        assert(front[0] == parts[0]);
        let j = join_with(back.drop_last(), sep);
        assert(join_with(back, sep) == j + sep + back.last());
        assert(parts[0] + sep + j + sep + parts.last() =~= parts[0] + sep + (j + sep + parts.last()));
    }
}

proof fn lemma_split_of_join(parts: Seq<Seq<char>>, cur: Seq<char>)
    requires
        parts.len() >= 1,
        forall|k: int, i: int|
            0 <= k < parts.len() && 0 <= i < parts[k].len() ==> #[trigger] parts[k][i] != '-',
    ensures
        crate::text::pieces_from(join_with(parts, "-"@), '-', cur) == seq![cur + parts[0]]
            + parts.drop_first(),
    decreases parts.len(),
{
    reveal_strlit("-");
    let p0 = parts[0];
    assert forall|i: int| 0 <= i < p0.len() implies #[trigger] p0[i] != '-' by {
        assert(parts[0][i] != '-');
    }
    if parts.len() == 1 {
        assert(join_with(parts, "-"@) == p0);
        assert(p0 + Seq::<char>::empty() =~= p0);
        lemma_pieces_over_word(p0, Seq::<char>::empty(), '-', cur);
        assert(parts.drop_first() =~= Seq::<Seq<char>>::empty());
        assert(seq![cur + p0] + parts.drop_first() =~= seq![cur + p0]);
    } else {
        let rest = parts.drop_first();
        let rj = join_with(rest, "-"@);
        lemma_join_front(parts, "-"@);
        assert(p0 + "-"@ + rj =~= p0 + ("-"@ + rj));
        lemma_pieces_over_word(p0, "-"@ + rj, '-', cur);
        let t = "-"@ + rj;
        assert(t[0] == '-');
        assert(t.drop_first() =~= rj);
        assert forall|k: int, i: int| 0 <= k < rest.len() && 0 <= i < rest[k].len() implies #[trigger] rest[k][i]
            != '-' by {
            assert(rest[k] == parts[k + 1]);
        }
        lemma_split_of_join(rest, seq![]);
        assert(Seq::<char>::empty() + rest[0] =~= rest[0]);
        assert(seq![cur + p0] + (seq![rest[0]] + rest.drop_first()) =~= seq![cur + p0] + parts.drop_first());
    }
}

proof fn lemma_nonempty_pieces_keeps(parts: Seq<Seq<char>>)
    requires
        forall|k: int| 0 <= k < parts.len() ==> (#[trigger] parts[k]).len() > 0,
    ensures
        nonempty_pieces(parts) == parts,
    decreases parts.len(),
{
    if parts.len() > 0 {
        assert(parts.last().len() > 0);
        lemma_nonempty_pieces_keeps(parts.drop_last());
        assert(parts.drop_last().push(parts.last()) =~= parts);
    }
}

/// Slugging is idempotent: the slug of a slug is the slug itself.
pub proof fn lemma_slug_idempotent(name: Seq<char>)
    ensures
        slug_of(slug_of(name)) == slug_of(name),
{
    reveal_strlit("-");
    let s = slug_of(name);
    let mapped = name.map_values(|c: char| slug_char(c));
    assert forall|i: int| 0 <= i < mapped.len() implies #[trigger] mapped[i] == '-' || slug_word_char(
        mapped[i],
    ) by {
        lemma_slug_char_class(name[i]);
    }
    lemma_pieces_of_words(mapped, seq![]);
    let words = nonempty_pieces(split_on(mapped, '-'));
    lemma_nonempty_pieces_words(split_on(mapped, '-'));
    let n: int = if words.len() < 12 {
        words.len() as int
    } else {
        12
    };
    let t = words.take(n);
    assert(s == join_with(t, "-"@));
    assert forall|k: int| 0 <= k < t.len() implies (#[trigger] t[k]).len() > 0 by {
        assert(t[k] == words[k]);
    }
    assert forall|k: int, i: int| 0 <= k < t.len() && 0 <= i < t[k].len() implies slug_word_char(
        #[trigger] t[k][i],
    ) by {
        assert(t[k] == words[k]);
    }
    lemma_slug_is_well_formed(name);
    let remapped = s.map_values(|c: char| slug_char(c));
    assert forall|i: int| 0 <= i < s.len() implies #[trigger] remapped[i] == s[i] by {
        assert(s[i] == '-' || slug_word_char(s[i]));
    }
    assert(remapped =~= s);
    if t.len() == 0 {
        assert(s =~= Seq::<char>::empty());
        assert(split_on(s, '-') == seq![Seq::<char>::empty()]);
        let one = seq![Seq::<char>::empty()];
        assert(one.drop_last() =~= Seq::<Seq<char>>::empty());
        assert(nonempty_pieces(Seq::<Seq<char>>::empty()) == Seq::<Seq<char>>::empty());
        assert(one.last().len() == 0);
        assert(nonempty_pieces(one) == nonempty_pieces(one.drop_last()));
        assert(words.take(0) =~= Seq::<Seq<char>>::empty());
    } else {
        assert forall|k: int, i: int| 0 <= k < t.len() && 0 <= i < t[k].len() implies #[trigger] t[k][i]
            != '-' by {
            assert(slug_word_char(t[k][i]));
        }
        lemma_split_of_join(t, seq![]);
        assert(Seq::<char>::empty() + t[0] =~= t[0]);
        assert(seq![t[0]] + t.drop_first() =~= t);
        lemma_nonempty_pieces_keeps(t);
        assert(t.take(t.len() as int) =~= t);
    }
}

pub open spec fn empty_slug_error() -> Seq<char> {
    "worktree name must contain at least one ASCII letter or digit"@
}

pub fn slugify_name(name: &str) -> (r: Result<String, String>)
    ensures
        match r {
            Ok(s) => slug_of(name@).len() > 0 && s@ == slug_of(name@),
            Err(e) => slug_of(name@).len() == 0 && e@ == empty_slug_error(),
        },
{
    let chars = str_chars(name);
    let mut mapped: Vec<char> = Vec::new();
    let mut i: usize = 0;
    while i < chars.len()
        invariant
            i <= chars.len(),
            chars@ == name@,
            mapped@ == name@.take(i as int).map_values(|c: char| slug_char(c)),
        decreases chars.len() - i,
    {
        let c = chars[i];
        let alnum = ('a' <= c && c <= 'z') || ('A' <= c && c <= 'Z') || ('0' <= c && c <= '9');
        let m = if alnum {
            to_ascii_lower(c)
        } else {
            '-'
        };
        mapped.push(m);
        i = i + 1;
        assert(mapped@ =~= name@.take(i as int).map_values(|c: char| slug_char(c)));
    }
    assert(name@.take(chars.len() as int) =~= name@);
    let pieces = split_on_char(mapped.as_slice(), '-');
    let ghost pv = char_seqs(pieces@);
    let mut words: Vec<Vec<char>> = Vec::new();
    let mut k: usize = 0;
    assert(pv.take(0) =~= Seq::<Seq<char>>::empty());
    while k < pieces.len()
        invariant
            k <= pieces.len(),
            pv == char_seqs(pieces@),
            char_seqs(words@) == nonempty_pieces(pv.take(k as int)),
        decreases pieces.len() - k,
    {
        assert(pv.take(k as int + 1).drop_last() =~= pv.take(k as int));
        if pieces[k].len() > 0 {
            let ghost before = words@;
            words.push(pieces[k].clone());
            assert(char_seqs(words@) =~= char_seqs(before).push(pv[k as int]));
        }
        k = k + 1;
    }
    assert(pv.take(pieces.len() as int) =~= pv);
    let ghost all = char_seqs(words@);
    if words.len() > 12 {
        words.truncate(12);
    }
    assert(char_seqs(words@) =~= all.take(if all.len() < 12 {
        all.len() as int
    } else {
        12
    }));
    let slug = join_chars(words.as_slice(), "-");
    if slug.len() == 0 {
        return Err(crate::text::str_to_string("worktree name must contain at least one ASCII letter or digit"));
    }
    Ok(chars_to_string(slug.as_slice()))
}

/// A branch name as one path segment: every `/` and `\` becomes `-`.
pub open spec fn branch_segment(branch: Seq<char>) -> Seq<char> {
    branch.map_values(|c: char| if c == '/' || c == '\\' { '-' } else { c })
}

/// A branch becomes a single path segment: as long as the branch, with no
/// `/` or `\` left in it.
pub proof fn lemma_branch_segment_is_one_segment(branch: Seq<char>)
    ensures
        branch_segment(branch).len() == branch.len(),
        forall|i: int|
            0 <= i < branch.len() ==> #[trigger] branch_segment(branch)[i] != '/'
                && branch_segment(branch)[i] != '\\',
{
}

pub open spec fn empty_branch_segment_error() -> Seq<char> {
    "branch name must produce a non-empty worktree path segment"@
}

pub fn sanitize_branch_for_path(branch: &str) -> (r: Result<String, String>)
    ensures
        match r {
            Ok(s) => trim(branch_segment(branch@)).len() > 0 && s@ == branch_segment(branch@),
            Err(e) => trim(branch_segment(branch@)).len() == 0 && e@ == empty_branch_segment_error(),
        },
{
    let chars = str_chars(branch);
    let mut out: Vec<char> = Vec::new();
    let mut i: usize = 0;
    while i < chars.len()
        invariant
            i <= chars.len(),
            chars@ == branch@,
            out@ == branch@.take(i as int).map_values(
                |c: char|
                    if c == '/' || c == '\\' {
                        '-'
                    } else {
                        c
                    },
            ),
        decreases chars.len() - i,
    {
        let c = chars[i];
        out.push(if c == '/' || c == '\\' { '-' } else { c });
        i = i + 1;
        assert(out@ =~= branch@.take(i as int).map_values(
            |c: char|
                if c == '/' || c == '\\' {
                    '-'
                } else {
                    c
                },
        ));
    }
    assert(branch@.take(chars.len() as int) =~= branch@);
    let trimmed = trim_chars(out.as_slice());
    if trimmed.len() == 0 {
        return Err(crate::text::str_to_string("branch name must produce a non-empty worktree path segment"));
    }
    Ok(chars_to_string(out.as_slice()))
}

/// Index of the last `c` in `s`, or -1.
pub open spec fn last_index_of(s: Seq<char>, c: char) -> int
    decreases s.len(),
{
    if s.len() == 0 {
        -1
    } else if s.last() == c {
        s.len() - 1
    } else {
        last_index_of(s.drop_last(), c)
    }
}

/// The last index of `c` lies within `s` and holds `c`, or is -1.
pub proof fn lemma_last_index_bounds(s: Seq<char>, c: char)
    ensures
        -1 <= last_index_of(s, c) < s.len(),
        last_index_of(s, c) >= 0 ==> s[last_index_of(s, c)] == c,
    decreases s.len(),
{
    if s.len() > 0 && s.last() != c {
        lemma_last_index_bounds(s.drop_last(), c);
    }
}

/// Where the body of a path begins, after the root `/` of an absolute path
/// or the leading `.` of a relative one.
pub open spec fn body_start(p: Seq<char>) -> int {
    if (p.len() > 0 && p[0] == '/') || starts_with_cur_dir(p) {
        1
    } else {
        0
    }
}

/// Where the last piece of the body starts: after the last separator in
/// the body, else at the body's start.
pub open spec fn piece_start(p: Seq<char>, lb: int) -> int {
    if last_index_of(p, '/') >= lb {
        last_index_of(p, '/') + 1
    } else {
        lb
    }
}

/// Where the path ends once its last piece, and the separator before it,
/// are taken off.
pub open spec fn piece_cut(p: Seq<char>, lb: int) -> int {
    if last_index_of(p, '/') >= lb {
        last_index_of(p, '/')
    } else {
        lb
    }
}

/// A piece that is no component: empty, or a `.` inside the path.
pub open spec fn is_blank_piece(s: Seq<char>) -> bool {
    s.len() == 0 || s == seq!['.']
}

/// The path with its trailing separators and `.` pieces taken off, never
/// into its root or leading `.`.
pub open spec fn trim_back(p: Seq<char>, lb: int) -> Seq<char>
    decreases p.len(),
{
    if 0 <= lb < p.len() && is_blank_piece(p.skip(piece_start(p, lb))) {
        proof {
            lemma_last_index_bounds(p, '/');
        }
        trim_back(p.take(piece_cut(p, lb)), lb)
    } else {
        p
    }
}

/// `Path::file_name`: the last component of the path when it is a name
/// (neither the root, a leading `.`, nor `..`).
pub open spec fn file_name_of(p: Seq<char>) -> Option<Seq<char>> {
    let lb = body_start(p);
    let t = trim_back(p, lb);
    let name = t.skip(piece_start(t, lb));
    if t.len() > lb && name != seq!['.', '.'] {
        Some(name)
    } else {
        None
    }
}

/// `Path::parent`: the path with its last component taken off (and the
/// separators and `.` pieces then left at its end); `""` for a lone name or
/// a lone leading `.`; none for the root or an empty path.
pub open spec fn parent_of(p: Seq<char>) -> Option<Seq<char>> {
    let lb = body_start(p);
    let t = trim_back(p, lb);
    if t.len() > lb {
        Some(trim_back(t.take(piece_cut(t, lb)), lb))
    } else if starts_with_cur_dir(p) {
        Some(seq![])
    } else {
        None
    }
}

fn last_slash(s: &[char], end: usize) -> (r: Option<usize>)
    requires
        end <= s.len(),
    ensures
        match r {
            Some(k) => k < end && last_index_of(s@.take(end as int), '/') == k as int,
            None => last_index_of(s@.take(end as int), '/') == -1,
        },
{
    let mut j = end;
    while j > 0
        invariant
            j <= end <= s.len(),
            last_index_of(s@.take(end as int), '/') == last_index_of(s@.take(j as int), '/'),
        decreases j,
    {
        if s[j - 1] == '/' {
            return Some(j - 1);
        }
        assert(s@.take(j as int).drop_last() =~= s@.take(j - 1));
        j = j - 1;
    }
    None
}

/// The characters of `v` from `a` to `b`.
fn copy_range(v: &[char], a: usize, b: usize) -> (r: Vec<char>)
    requires
        a <= b <= v.len(),
    ensures
        r@ == v@.subrange(a as int, b as int),
{
    let mut out: Vec<char> = Vec::new();
    let mut i = a;
    while i < b
        invariant
            a <= i <= b <= v.len(),
            out@ == v@.subrange(a as int, i as int),
        decreases b - i,
    {
        out.push(v[i]);
        i = i + 1;
        assert(out@ =~= v@.subrange(a as int, i as int));
    }
    out
}

fn body_start_exec(v: &[char]) -> (r: usize)
    ensures
        r as int == body_start(v@),
        r <= v@.len(),
{
    if v.len() > 0 && (v[0] == '/' || (v[0] == '.' && (v.len() == 1 || v[1] == '/'))) {
        1
    } else {
        0
    }
}

/// The length of `v.take(end)` with its trailing separators and `.` pieces
/// taken off, and where its last piece starts.
fn trim_back_exec(v: &[char], end: usize, lb: usize) -> (r: (usize, usize))
    requires
        lb <= end <= v.len(),
    ensures
        lb <= r.0 <= end,
        v@.take(r.0 as int) == trim_back(v@.take(end as int), lb as int),
        r.1 as int == piece_start(v@.take(r.0 as int), lb as int),
        lb <= r.1 <= r.0,
{
    let mut e = end;
    loop
        invariant
            lb <= e <= end <= v.len(),
            trim_back(v@.take(e as int), lb as int) == trim_back(v@.take(end as int), lb as int),
        decreases e,
    {
        let ghost q = v@.take(e as int);
        proof {
            lemma_last_index_bounds(q, '/');
        }
        let k = last_slash(v, e);
        let start: usize = match k {
            Some(x) => if x >= lb {
                x + 1
            } else {
                lb
            },
            None => lb,
        };
        assert(start as int == piece_start(q, lb as int));
        let blank = start == e || (start + 1 == e && v[start] == '.');
        assert(blank == is_blank_piece(q.skip(start as int))) by {
            assert(q.skip(start as int).len() == e - start);
            if start + 1 == e {
                assert(q.skip(start as int)[0] == v@[start as int]);
            }
            if start + 1 == e && v[start as int] == '.' {
                assert(q.skip(start as int) =~= seq!['.']);
            }
            if start == e {
                assert(q.skip(start as int) =~= Seq::<char>::empty());
            }
        }
        if e > lb && blank {
            let cut: usize = match k {
                Some(x) => if x >= lb {
                    x
                } else {
                    lb
                },
                None => lb,
            };
            assert(cut as int == piece_cut(q, lb as int));
            assert(q.take(cut as int) =~= v@.take(cut as int));
            e = cut;
        } else {
            return (e, start);
        }
    }
}

/// `Path::file_name`, as `file_name_of` states it.
pub fn path_file_name(p: &str) -> (r: Option<String>)
    ensures
        match (r, file_name_of(p@)) {
            (Some(a), Some(b)) => a@ == b,
            (None, None) => true,
            _ => false,
        },
{
    let v = str_chars(p);
    assert(v@.take(v.len() as int) =~= v@);
    let lb = body_start_exec(v.as_slice());
    let (tlen, start) = trim_back_exec(v.as_slice(), v.len(), lb);
    let ghost t = v@.take(tlen as int);
    if tlen == lb {
        return None;
    }
    let name = copy_range(v.as_slice(), start, tlen);
    assert(t.skip(start as int) =~= name@);
    let is_dotdot = name.len() == 2 && name[0] == '.' && name[1] == '.';
    assert(is_dotdot == (name@ == seq!['.', '.'])) by {
        if name@.len() == 2 && name@[0] == '.' && name@[1] == '.' {
            assert(name@ =~= seq!['.', '.']);
        }
    }
    if is_dotdot {
        None
    } else {
        Some(chars_to_string(name.as_slice()))
    }
}

/// `Path::parent`, as `parent_of` states it.
pub fn path_parent(p: &str) -> (r: Option<String>)
    ensures
        match (r, parent_of(p@)) {
            (Some(a), Some(b)) => a@ == b,
            (None, None) => true,
            _ => false,
        },
{
    let v = str_chars(p);
    assert(v@.take(v.len() as int) =~= v@);
    let lb = body_start_exec(v.as_slice());
    let (tlen, start) = trim_back_exec(v.as_slice(), v.len(), lb);
    let ghost t = v@.take(tlen as int);
    if tlen == lb {
        if lb == 1 && v[0] == '.' {
            return Some(String::new());
        }
        return None;
    }
    // The last piece starts right after its separator, or at the body's start.
    let cut: usize = if start > lb {
        start - 1
    } else {
        lb
    };
    proof {
        lemma_last_index_bounds(t, '/');
    }
    assert(cut as int == piece_cut(t, lb as int));
    assert(t.take(cut as int) =~= v@.take(cut as int));
    let (hlen, _) = trim_back_exec(v.as_slice(), cut, lb);
    let head = copy_range(v.as_slice(), 0, hlen);
    assert(head@ =~= v@.take(hlen as int));
    Some(chars_to_string(head.as_slice()))
}

pub open spec fn no_dir_name_error() -> Seq<char> {
    "source repository root has no directory name"@
}

pub open spec fn no_parent_error() -> Seq<char> {
    "source repository root has no parent directory"@
}

/// The sibling directory for a branch's worktree: `<parent>/<repo>.<branch segment>`.
pub open spec fn sibling_root_spec(repo_root: Seq<char>, branch: Seq<char>) -> Result<Seq<char>, Seq<char>> {
    match file_name_of(repo_root) {
        None => Err(no_dir_name_error()),
        Some(name) => match parent_of(repo_root) {
            None => Err(no_parent_error()),
            Some(parent) => if trim(branch_segment(branch)).len() == 0 {
                Err(empty_branch_segment_error())
            } else {
                Ok(join_path(parent, name + seq!['.'] + branch_segment(branch)))
            },
        },
    }
}

pub fn sibling_worktree_git_root(repo_root: &str, branch: &str) -> (r: Result<String, String>)
    ensures
        match (r, sibling_root_spec(repo_root@, branch@)) {
            (Ok(a), Ok(b)) => a@ == b,
            (Err(a), Err(b)) => a@ == b,
            _ => false,
        },
{
    let name = match path_file_name(repo_root) {
        Some(n) => n,
        None => {
            return Err(crate::text::str_to_string("source repository root has no directory name"));
        },
    };
    let parent = match path_parent(repo_root) {
        Some(p) => p,
        None => {
            return Err(crate::text::str_to_string("source repository root has no parent directory"));
        },
    };
    let sanitized = match sanitize_branch_for_path(branch) {
        Ok(s) => s,
        Err(e) => {
            return Err(e);
        },
    };
    let mut dirname = str_chars(name.as_str());
    dirname.push('.');
    let sv = str_chars(sanitized.as_str());
    push_chars(&mut dirname, sv.as_slice());
    let dirname = chars_to_string(dirname.as_slice());
    Ok(path_join(parent.as_str(), dirname.as_str()))
}

/// The SHA-256 digest of `data`, as the `sha2` crate computes it.
pub uninterp spec fn sha256(data: Seq<u8>) -> Seq<u8>;

/// `sha2::Sha256::digest`: the digest named by `sha256`, which is 32 bytes long.
#[verifier::external_body]
fn sha256_digest(data: &[u8]) -> (r: Vec<u8>)
    ensures
        r@ == sha256(data@),
        r@.len() == 32,
{
    <sha2::Sha256 as sha2::Digest>::digest(data).to_vec()
}

pub open spec fn hex_digit(n: int) -> char {
    if n < 10 {
        digit_of(n)
    } else if n == 10 {
        'a'
    } else if n == 11 {
        'b'
    } else if n == 12 {
        'c'
    } else if n == 13 {
        'd'
    } else if n == 14 {
        'e'
    } else {
        'f'
    }
}

pub open spec fn digit_of(n: int) -> char {
    crate::text::digit(n as nat)
}

/// Two lowercase hexadecimal digits, as `format!("{:02x}")` writes a byte.
pub open spec fn byte_hex(b: u8) -> Seq<char> {
    seq![hex_digit(b as int / 16), hex_digit(b as int % 16)]
}

/// The hexadecimal digits of the first `n` bytes.
pub open spec fn hex_prefix(bytes: Seq<u8>, n: int) -> Seq<char>
    decreases n,
{
    if n <= 0 {
        seq![]
    } else {
        hex_prefix(bytes, n - 1) + byte_hex(bytes[n - 1])
    }
}

/// The bytes a repository is fingerprinted from: its common Git directory,
/// then a NUL and the origin URL when it has one.
pub open spec fn fingerprint_input(common_git_dir: Seq<char>, origin_url: Option<Seq<char>>) -> Seq<u8> {
    match origin_url {
        Some(o) => encode_utf8(common_git_dir) + seq![0u8] + encode_utf8(o),
        None => encode_utf8(common_git_dir),
    }
}

pub fn hex_char(n: u8) -> (c: char)
    requires
        n < 16,
    ensures
        c == hex_digit(n as int),
{
    if n < 10 {
        crate::text::digit_char(n as u64)
    } else if n == 10 {
        'a'
    } else if n == 11 {
        'b'
    } else if n == 12 {
        'c'
    } else if n == 13 {
        'd'
    } else if n == 14 {
        'e'
    } else {
        'f'
    }
}

fn push_bytes(out: &mut Vec<u8>, b: &[u8])
    ensures
        final(out)@ == old(out)@ + b@,
{
    let mut i: usize = 0;
    while i < b.len()
        invariant
            i <= b.len(),
            out@ == old(out)@ + b@.take(i as int),
        decreases b.len() - i,
    {
        out.push(b[i]);
        i = i + 1;
        assert(out@ =~= old(out)@ + b@.take(i as int));
    }
    assert(b@.take(b.len() as int) =~= b@);
}

/// A short identifier for a repository: the first 8 bytes of the SHA-256 of
/// its common Git directory (and origin URL), in hexadecimal.
pub fn repo_fingerprint(common_git_dir: &str, origin_url: Option<&str>) -> (r: String)
    ensures
        r@ == hex_prefix(
            sha256(
                fingerprint_input(
                    common_git_dir@,
                    match origin_url {
                        Some(o) => Some(o@),
                        None => None,
                    },
                ),
            ),
            8,
        ),
{
    let mut data: Vec<u8> = Vec::new();
    push_bytes(&mut data, common_git_dir.as_bytes());
    match origin_url {
        Some(o) => {
            data.push(0u8);
            push_bytes(&mut data, o.as_bytes());
        },
        None => {},
    }
    assert(data@ =~= fingerprint_input(
        common_git_dir@,
        match origin_url {
            Some(o) => Some(o@),
            None => None,
        },
    ));
    let digest = sha256_digest(data.as_slice());
    let mut out: Vec<char> = Vec::new();
    let mut i: usize = 0;
    while i < 8
        invariant
            i <= 8,
            digest@.len() == 32,
            out@ == hex_prefix(digest@, i as int),
        decreases 8 - i,
    {
        let b = digest[i];
        out.push(hex_char(b / 16));
        out.push(hex_char(b % 16));
        i = i + 1;
        assert(out@ =~= hex_prefix(digest@, i as int));
    }
    chars_to_string(out.as_slice())
}

} // verus!
