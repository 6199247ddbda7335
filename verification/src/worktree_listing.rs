//! The order of the worktree listing: one entry per checkout, sorted by the
//! name shown (branch, else name) and then by path, as `str` orders them.

use vstd::prelude::*;

use crate::text::{str_chars, str_to_string, string_seqs};
use crate::worktree::{WorktreeInfo, WorktreeListQuery};
use crate::worktree_git::{display_branch_or_name, worktree_matches_repo};

verus! {

/// `a <= b` in the order of `str`: character by character, a proper prefix
/// first.
pub open spec fn lex_le(a: Seq<char>, b: Seq<char>) -> bool
    decreases a.len(),
{
    if a.len() == 0 {
        true
    } else if b.len() == 0 {
        false
    } else if a[0] != b[0] {
        a[0] < b[0]
    } else {
        lex_le(a.drop_first(), b.drop_first())
    }
}

pub proof fn lemma_lex_total(a: Seq<char>, b: Seq<char>)
    ensures
        lex_le(a, b) || lex_le(b, a),
    decreases a.len(),
{
    if a.len() > 0 && b.len() > 0 && a[0] == b[0] {
        lemma_lex_total(a.drop_first(), b.drop_first());
    }
}

pub proof fn lemma_lex_antisymmetric(a: Seq<char>, b: Seq<char>)
    requires
        lex_le(a, b),
        lex_le(b, a),
    ensures
        a == b,
    decreases a.len(),
{
    if a.len() == 0 {
        assert(b.len() == 0);
        assert(a =~= b);
    } else {
        assert(b.len() > 0);
        if a[0] == b[0] {
            lemma_lex_antisymmetric(a.drop_first(), b.drop_first());
            assert(a =~= seq![a[0]] + a.drop_first());
            assert(b =~= seq![b[0]] + b.drop_first());
        } else {
            }
    }
}

pub proof fn lemma_lex_transitive(a: Seq<char>, b: Seq<char>, c: Seq<char>)
    requires
        lex_le(a, b),
        lex_le(b, c),
    ensures
        lex_le(a, c),
    decreases a.len(),
{
    if a.len() > 0 && b.len() > 0 && c.len() > 0 && a[0] == b[0] && b[0] == c[0] {
        lemma_lex_transitive(a.drop_first(), b.drop_first(), c.drop_first());
    }
}

fn lex_le_exec(a: &[char], b: &[char]) -> (r: bool)
    ensures
        r == lex_le(a@, b@),
{
    let mut i: usize = 0;
    assert(a@.skip(0) =~= a@ && b@.skip(0) =~= b@);
    while i < a.len() && i < b.len() && a[i] == b[i]
        invariant
            i <= a.len(),
            i <= b.len(),
            lex_le(a@, b@) == lex_le(a@.skip(i as int), b@.skip(i as int)),
        decreases a.len() - i,
    {
        assert(a@.skip(i as int).drop_first() =~= a@.skip(i as int + 1));
        assert(b@.skip(i as int).drop_first() =~= b@.skip(i as int + 1));
        i = i + 1;
    }
    if i == a.len() {
        true
    } else if i == b.len() {
        false
    } else {
        assert(a@.skip(i as int)[0] == a@[i as int] && b@.skip(i as int)[0] == b@[i as int]);
        a[i] < b[i]
    }
}

/// A path as `Path` orders it: component by component. Each component is
/// followed by a NUL, which no component holds, so that a component sorts
/// before every longer one it begins.
pub open spec fn path_sort_key_spec(p: Seq<char>) -> Seq<char> {
    path_key_from(crate::worktree_paths::path_components(p))
}

pub open spec fn path_key_from(components: Seq<Seq<char>>) -> Seq<char>
    decreases components.len(),
{
    if components.len() == 0 {
        seq![]
    } else {
        path_key_from(components.drop_last()) + components.last().push('\0')
    }
}

pub fn path_sort_key(p: &str) -> (r: Vec<char>)
    ensures
        r@ == path_sort_key_spec(p@),
{
    let v = str_chars(p);
    let comps = crate::worktree_paths::components_of_path(v.as_slice());
    let ghost cs = crate::text::char_seqs(comps@);
    let mut out: Vec<char> = Vec::new();
    let mut i: usize = 0;
    while i < comps.len()
        invariant
            i <= comps.len(),
            cs == crate::text::char_seqs(comps@),
            out@ == path_key_from(cs.take(i as int)),
        decreases comps.len() - i,
    {
        assert(cs.take(i as int + 1).drop_last() =~= cs.take(i as int));
        assert(cs[i as int] == comps@[i as int]@);
        crate::text::push_chars(&mut out, comps[i].as_slice());
        out.push('\0');
        i = i + 1;
    }
    assert(cs.take(comps.len() as int) =~= cs);
    out
}

pub open spec fn root_keys(roots: Seq<Seq<char>>) -> Seq<Seq<char>> {
    roots.map_values(|r: Seq<char>| path_sort_key_spec(r))
}

/// The sort key of entry `i`: its shown name, then its path.
pub open spec fn key_le(names: Seq<Seq<char>>, roots: Seq<Seq<char>>, i: int, j: int) -> bool {
    (lex_le(names[i], names[j]) && names[i] != names[j]) || (names[i] == names[j] && lex_le(roots[i], roots[j]))
}

/// Entry `i` is listed before entry `j`: a smaller key, or the same key and
/// given earlier (the sort is stable).
pub open spec fn listed_before(names: Seq<Seq<char>>, roots: Seq<Seq<char>>, i: int, j: int) -> bool {
    (key_le(names, roots, i, j) && !key_le(names, roots, j, i)) || (key_le(names, roots, i, j)
        && key_le(names, roots, j, i) && i < j)
}

/// Entry `i` repeats an earlier entry's checkout.
pub open spec fn repeats_earlier(canonical: Seq<Seq<char>>, i: int) -> bool {
    exists|j: int| 0 <= j < i && canonical[j] == canonical[i]
}

pub open spec fn sorted_listing(names: Seq<Seq<char>>, roots: Seq<Seq<char>>, order: Seq<usize>) -> bool {
    forall|x: int, y: int|
        0 <= x < y < order.len() ==> listed_before(names, roots, #[trigger] order[x] as int, #[trigger] order[y] as int)
}

/// `order` holds exactly the entries among the first `n` that do not repeat
/// an earlier checkout.
pub open spec fn lists_first_of_each(canonical: Seq<Seq<char>>, order: Seq<usize>, n: int) -> bool {
    &&& forall|x: int| 0 <= x < order.len() ==> (#[trigger] order[x]) < n && !repeats_earlier(canonical, order[x] as int)
    &&& forall|i: int| 0 <= i < n && !repeats_earlier(canonical, i) ==> #[trigger] order.contains(i as usize)
}

proof fn lemma_key_facts(names: Seq<Seq<char>>, roots: Seq<Seq<char>>, i: int, j: int, k: int)
    ensures
        key_le(names, roots, i, j) || key_le(names, roots, j, i),
        key_le(names, roots, i, j) && key_le(names, roots, j, k) ==> key_le(names, roots, i, k),
{
    lemma_lex_total(names[i], names[j]);
    lemma_lex_total(roots[i], roots[j]);
    if key_le(names, roots, i, j) && key_le(names, roots, j, k) {
        if names[i] == names[j] && names[j] == names[k] {
            lemma_lex_transitive(roots[i], roots[j], roots[k]);
        } else if names[i] == names[j] {
        } else if names[j] == names[k] {
        } else {
            lemma_lex_transitive(names[i], names[j], names[k]);
            if names[i] == names[k] {
                lemma_lex_antisymmetric(names[i], names[j]);
            }
        }
    }
}

proof fn lemma_before_transitive(names: Seq<Seq<char>>, roots: Seq<Seq<char>>, i: int, j: int, k: int)
    requires
        listed_before(names, roots, i, j),
        listed_before(names, roots, j, k),
    ensures
        listed_before(names, roots, i, k),
{
    lemma_key_facts(names, roots, i, j, k);
    lemma_key_facts(names, roots, k, j, i);
    lemma_key_facts(names, roots, j, k, i);
    lemma_key_facts(names, roots, k, i, j);
}

fn key_le_exec(names: &[Vec<char>], roots: &[Vec<char>], i: usize, j: usize) -> (r: bool)
    requires
        i < names.len(),
        j < names.len(),
        names.len() == roots.len(),
    ensures
        r == key_le(crate::text::char_seqs(names@), crate::text::char_seqs(roots@), i as int, j as int),
{
    let ghost nv = crate::text::char_seqs(names@);
    let ghost rv = crate::text::char_seqs(roots@);
    assert(nv[i as int] == names@[i as int]@ && nv[j as int] == names@[j as int]@);
    assert(rv[i as int] == roots@[i as int]@ && rv[j as int] == roots@[j as int]@);
    let same = crate::text::chars_eq(names[i].as_slice(), names[j].as_slice());
    if same {
        lex_le_exec(roots[i].as_slice(), roots[j].as_slice())
    } else {
        lex_le_exec(names[i].as_slice(), names[j].as_slice())
    }
}

/// The order to list worktrees in: the first entry of each checkout
/// (`canonical` holds each entry's resolved root), sorted by shown name and
/// path, ties kept in the order given.
pub fn worktree_listing_order(names: &[String], roots: &[String], canonical: &[String]) -> (r: Vec<usize>)
    requires
        names.len() == roots.len(),
        names.len() == canonical.len(),
    ensures
        sorted_listing(
            crate::text::string_seqs(names@),
            root_keys(crate::text::string_seqs(roots@)),
            r@,
        ),
        lists_first_of_each(crate::text::string_seqs(canonical@), r@, names@.len() as int),
        forall|x: int, y: int| 0 <= x < y < r@.len() ==> r@[x] != r@[y],
{
    let ghost nv = crate::text::string_seqs(names@);
    let ghost rv = root_keys(crate::text::string_seqs(roots@));
    let ghost cv = crate::text::string_seqs(canonical@);
    let mut nc: Vec<Vec<char>> = Vec::new();
    let mut rc: Vec<Vec<char>> = Vec::new();
    let mut cc: Vec<Vec<char>> = Vec::new();
    let mut k: usize = 0;
    while k < names.len()
        invariant
            k <= names.len() == roots.len() == canonical.len(),
            nv == crate::text::string_seqs(names@),
            rv == root_keys(crate::text::string_seqs(roots@)),
            cv == crate::text::string_seqs(canonical@),
            crate::text::char_seqs(nc@) == nv.take(k as int),
            crate::text::char_seqs(rc@) == rv.take(k as int),
            crate::text::char_seqs(cc@) == cv.take(k as int),
        decreases names.len() - k,
    {
        let ghost (bn, br, bc) = (nc@, rc@, cc@);
        nc.push(str_chars(names[k].as_str()));
        rc.push(path_sort_key(roots[k].as_str()));
        cc.push(str_chars(canonical[k].as_str()));
        assert(crate::text::char_seqs(nc@) =~= crate::text::char_seqs(bn).push(nv[k as int]));
        assert(crate::text::char_seqs(rc@) =~= crate::text::char_seqs(br).push(rv[k as int]));
        assert(crate::text::char_seqs(cc@) =~= crate::text::char_seqs(bc).push(cv[k as int]));
        assert(nv.take(k as int + 1) =~= nv.take(k as int).push(nv[k as int]));
        assert(rv.take(k as int + 1) =~= rv.take(k as int).push(rv[k as int]));
        assert(cv.take(k as int + 1) =~= cv.take(k as int).push(cv[k as int]));
        k = k + 1;
    }
    assert(nv.take(names.len() as int) =~= nv);
    assert(rv.take(names.len() as int) =~= rv);
    assert(cv.take(names.len() as int) =~= cv);
    let n = names.len();
    let mut order: Vec<usize> = Vec::new();
    let mut i: usize = 0;
    while i < n
        invariant
            i <= n == nc@.len() == rc@.len() == cc@.len(),
            crate::text::char_seqs(nc@) == nv,
            crate::text::char_seqs(rc@) == rv,
            crate::text::char_seqs(cc@) == cv,
            sorted_listing(nv, rv, order@),
            lists_first_of_each(cv, order@, i as int),
            forall|x: int, y: int| 0 <= x < y < order@.len() ==> order@[x] != order@[y],
        decreases n - i,
    {
        // Is entry `i` a repeat of an earlier checkout?
        let mut j: usize = 0;
        let mut repeat = false;
        while j < i && !repeat
            invariant
                j <= i < n == cc@.len(),
                crate::text::char_seqs(cc@) == cv,
                repeat ==> repeats_earlier(cv, i as int),
                !repeat ==> forall|m: int| 0 <= m < j ==> cv[m] != cv[i as int],
            decreases i - j,
        {
            assert(cv[j as int] == cc@[j as int]@ && cv[i as int] == cc@[i as int]@);
            if crate::text::chars_eq(cc[j].as_slice(), cc[i].as_slice()) {
                repeat = true;
            }
            j = j + 1;
        }
        if !repeat {
            assert(!repeats_earlier(cv, i as int));
            let ghost old_order = order@;
            let mut p: usize = 0;
            while p < order.len() && key_le_exec(nc.as_slice(), rc.as_slice(), order[p], i)
                invariant
                    p <= order@.len(),
                    i < n == nc@.len() == rc@.len(),
                    crate::text::char_seqs(nc@) == nv,
                    crate::text::char_seqs(rc@) == rv,
                    order@ == old_order,
                    forall|x: int| 0 <= x < order@.len() ==> (#[trigger] order@[x]) < i,
                    forall|x: int| 0 <= x < p ==> key_le(nv, rv, #[trigger] order@[x] as int, i as int),
                decreases order@.len() - p,
            {
                p = p + 1;
            }
            assert(p == old_order.len() || !key_le(nv, rv, old_order[p as int] as int, i as int));
            proof {
                assert forall|x: int| 0 <= x < p implies listed_before(nv, rv, #[trigger] old_order[x] as int, i as int) by {
                    assert(old_order[x] < i);
                }
                assert forall|x: int| p <= x < old_order.len() implies listed_before(nv, rv, i as int, #[trigger] old_order[x] as int) by {
                    let q = old_order[p as int] as int;
                    let ox = old_order[x] as int;
                    lemma_key_facts(nv, rv, q, ox, i as int);
                    lemma_key_facts(nv, rv, i as int, ox, i as int);
                    if x > p {
                        assert(listed_before(nv, rv, q, ox));
                    }
                }
            }
            order.insert(p, i);
            proof {
                assert(order@ == old_order.insert(p as int, i));
                assert forall|x: int, y: int| 0 <= x < y < order@.len() implies listed_before(
                    nv,
                    rv,
                    #[trigger] order@[x] as int,
                    #[trigger] order@[y] as int,
                ) by {
                    if y < p {
                        assert(order@[x] == old_order[x] && order@[y] == old_order[y]);
                    } else if y == p {
                        assert(order@[x] == old_order[x]);
                    } else if x < p {
                        assert(order@[x] == old_order[x] && order@[y] == old_order[y - 1]);
                        lemma_before_transitive(nv, rv, old_order[x] as int, i as int, old_order[y - 1] as int);
                    } else if x == p {
                        assert(order@[y] == old_order[y - 1]);
                    } else {
                        assert(order@[x] == old_order[x - 1] && order@[y] == old_order[y - 1]);
                    }
                }
                assert forall|x: int, y: int| 0 <= x < y < order@.len() implies order@[x] != order@[y] by {
                    if y < p {
                        assert(order@[x] == old_order[x] && order@[y] == old_order[y]);
                    } else if y == p {
                        assert(order@[x] == old_order[x]);
                    } else if x < p {
                        assert(order@[x] == old_order[x] && order@[y] == old_order[y - 1]);
                    } else if x == p {
                        assert(order@[y] == old_order[y - 1]);
                    } else {
                        assert(order@[x] == old_order[x - 1] && order@[y] == old_order[y - 1]);
                    }
                }
                assert forall|m: int| 0 <= m < i + 1 && !repeats_earlier(cv, m) implies #[trigger] order@.contains(m as usize) by {
                    if m < i {
                        assert(old_order.contains(m as usize));
                        let x = choose|x: int| 0 <= x < old_order.len() && old_order[x] == m as usize;
                        if x < p {
                            assert(order@[x] == m as usize);
                        } else {
                            assert(order@[x + 1] == m as usize);
                        }
                    } else {
                        assert(order@[p as int] == i);
                    }
                }
                assert forall|x: int| 0 <= x < order@.len() implies (#[trigger] order@[x]) < i + 1 && !repeats_earlier(cv, order@[x] as int) by {
                    if x < p {
                        assert(order@[x] == old_order[x]);
                    } else if x > p {
                        assert(order@[x] == old_order[x - 1]);
                    }
                }
            }
        } else {
            proof {
                assert forall|m: int| 0 <= m < i + 1 && !repeats_earlier(cv, m) implies #[trigger] order@.contains(m as usize) by {
                    assert(m < i);
                }
            }
        }
        i = i + 1;
    }
    order
}

pub open spec fn missing_source_error() -> Seq<char> {
    "source cwd is required unless include_all_repos is true"@
}

/// Where a listing looks for its repository: nowhere when every repository
/// is listed (`Ok(None)`), else the query's source directory; a query that
/// asks for one repository without naming a directory is refused.
pub fn listing_source(query: &WorktreeListQuery) -> (r: Result<Option<String>, String>)
    ensures
        query.include_all_repos ==> r == Ok::<Option<String>, String>(None),
        !query.include_all_repos && query.source_cwd is Some ==> (r matches Ok(Some(c)) && c@
            == query.source_cwd->0@),
        !query.include_all_repos && query.source_cwd is None ==> (r matches Err(e) && e@
            == missing_source_error()),
{
    if query.include_all_repos {
        return Ok(None);
    }
    match &query.source_cwd {
        Some(c) => Ok(Some(c.clone())),
        None => Err(str_to_string("source cwd is required unless include_all_repos is true")),
    }
}

/// The name a worktree is listed and sorted by: its branch, else its name.
pub open spec fn listing_name(info: WorktreeInfo) -> Seq<char> {
    match info.branch {
        Some(b) => b@,
        None => info.name@,
    }
}

pub open spec fn listing_names(entries: Seq<WorktreeInfo>) -> Seq<Seq<char>> {
    entries.map_values(|e: WorktreeInfo| listing_name(e))
}

pub open spec fn listing_roots(entries: Seq<WorktreeInfo>) -> Seq<Seq<char>> {
    entries.map_values(|e: WorktreeInfo| e.worktree_git_root@)
}

/// Whether a worktree belongs in a listing: every worktree when no
/// repository is asked for; else those with the repository's id or its
/// common Git directory.
pub open spec fn in_listing(info: WorktreeInfo, repo_id: Option<Seq<char>>, same_common_git_dir: bool) -> bool {
    match repo_id {
        None => true,
        Some(id) => info.id@ == id || same_common_git_dir,
    }
}

pub open spec fn opt_str_view(o: Option<&str>) -> Option<Seq<char>> {
    match o {
        Some(s) => Some(s@),
        None => None,
    }
}

proof fn lemma_first_of_class(c: Seq<Seq<char>>, q: int)
    requires
        0 <= q < c.len(),
    ensures
        exists|p: int| 0 <= p <= q && #[trigger] c[p] == c[q] && !repeats_earlier(c, p),
    decreases q,
{
    if repeats_earlier(c, q) {
        let j = choose|j: int| 0 <= j < q && c[j] == c[q];
        lemma_first_of_class(c, j);
        let p = choose|p: int| 0 <= p <= j && #[trigger] c[p] == c[j] && !repeats_earlier(c, p);
        assert(c[p] == c[q]);
    } else {
        assert(c[q] == c[q]);
    }
}

/// The worktrees to list, as indices into `entries`: those that belong to
/// the repository asked for (all of them when `repo_id` is `None`), one per
/// checkout (`canonical` holds each entry's resolved root; the first entry
/// of a checkout stands for it), sorted by the name shown and then by path.
pub fn select_listed(
    entries: &[WorktreeInfo],
    repo_id: Option<&str>,
    same_common_git_dir: &[bool],
    canonical: &[String],
) -> (r: Vec<usize>)
    requires
        entries@.len() == same_common_git_dir@.len(),
        entries@.len() == canonical@.len(),
    ensures
        forall|x: int|
            0 <= x < r@.len() ==> #[trigger] r@[x] < entries@.len() && in_listing(
                entries@[r@[x] as int],
                opt_str_view(repo_id),
                same_common_git_dir@[r@[x] as int],
            ),
        forall|x: int, y: int|
            0 <= x < y < r@.len() ==> #[trigger] canonical@[r@[x] as int]@ != #[trigger] canonical@[r@[y] as int]@,
        forall|x: int, y: int|
            0 <= x < y < r@.len() ==> key_le(
                listing_names(entries@),
                root_keys(listing_roots(entries@)),
                #[trigger] r@[x] as int,
                #[trigger] r@[y] as int,
            ),
        forall|i: int|
            0 <= i < entries@.len() && in_listing(
                entries@[i],
                opt_str_view(repo_id),
                same_common_git_dir@[i],
            ) ==> exists|x: int| 0 <= x < r@.len() && #[trigger] canonical@[r@[x] as int]@ == canonical@[i]@,
        forall|x: int, j: int|
            0 <= x < r@.len() && 0 <= j < r@[x] && in_listing(
                entries@[j],
                opt_str_view(repo_id),
                same_common_git_dir@[j],
            ) ==> #[trigger] canonical@[j]@ != #[trigger] canonical@[r@[x] as int]@,
{
    let n = entries.len();
    let ghost names = listing_names(entries@);
    let ghost roots = listing_roots(entries@);
    let ghost cs = string_seqs(canonical@);
    let ghost rid = opt_str_view(repo_id);
    let mut ks: Vec<usize> = Vec::new();
    let mut kn: Vec<String> = Vec::new();
    let mut kr: Vec<String> = Vec::new();
    let mut kc: Vec<String> = Vec::new();
    let mut i: usize = 0;
    while i < n
        invariant
            i <= n == entries@.len() == same_common_git_dir@.len() == canonical@.len(),
            names == listing_names(entries@),
            roots == listing_roots(entries@),
            cs == string_seqs(canonical@),
            rid == opt_str_view(repo_id),
            ks@.len() == kn@.len() == kr@.len() == kc@.len(),
            forall|a: int, b: int| 0 <= a < b < ks@.len() ==> #[trigger] ks@[a] < #[trigger] ks@[b],
            forall|a: int|
                0 <= a < ks@.len() ==> #[trigger] ks@[a] < i && in_listing(
                    entries@[ks@[a] as int],
                    rid,
                    same_common_git_dir@[ks@[a] as int],
                ),
            forall|j: int|
                0 <= j < i && in_listing(entries@[j], rid, same_common_git_dir@[j]) ==> exists|q: int|
                    0 <= q < ks@.len() && #[trigger] ks@[q] == j,
            forall|a: int| 0 <= a < ks@.len() ==> #[trigger] string_seqs(kn@)[a] == names[ks@[a] as int],
            forall|a: int| 0 <= a < ks@.len() ==> #[trigger] string_seqs(kr@)[a] == roots[ks@[a] as int],
            forall|a: int| 0 <= a < ks@.len() ==> #[trigger] string_seqs(kc@)[a] == cs[ks@[a] as int],
        decreases n - i,
    {
        let keep = match repo_id {
            None => true,
            Some(id) => worktree_matches_repo(&entries[i], id, same_common_git_dir[i]),
        };
        if keep {
            let ghost (b_ks, b_kn, b_kr, b_kc) = (ks@, kn@, kr@, kc@);
            ks.push(i);
            kn.push(str_to_string(display_branch_or_name(&entries[i])));
            kr.push(entries[i].worktree_git_root.clone());
            kc.push(canonical[i].clone());
            proof {
                assert(ks@[ks@.len() - 1] == i);
                assert forall|j: int|
                    0 <= j < i + 1 && in_listing(entries@[j], rid, same_common_git_dir@[j]) implies exists|q: int|
                    0 <= q < ks@.len() && #[trigger] ks@[q] == j by {
                    if j < i {
                        let q = choose|q: int| 0 <= q < b_ks.len() && #[trigger] b_ks[q] == j;
                        assert(ks@[q] == j);
                    } else {
                        assert(ks@[ks@.len() - 1] == j);
                    }
                }
                assert(names[i as int] == listing_name(entries@[i as int]));
                assert(roots[i as int] == entries@[i as int].worktree_git_root@);
                assert forall|a: int| 0 <= a < ks@.len() implies #[trigger] string_seqs(kn@)[a] == names[ks@[a] as int] by {
                    if a < b_ks.len() {
                        assert(kn@[a] == b_kn[a]);
                        assert(string_seqs(b_kn)[a] == names[b_ks[a] as int]);
                    }
                }
                assert forall|a: int| 0 <= a < ks@.len() implies #[trigger] string_seqs(kr@)[a] == roots[ks@[a] as int] by {
                    if a < b_ks.len() {
                        assert(kr@[a] == b_kr[a]);
                        assert(string_seqs(b_kr)[a] == roots[b_ks[a] as int]);
                    }
                }
                assert(cs[i as int] == canonical@[i as int]@);
                assert forall|a: int| 0 <= a < ks@.len() implies #[trigger] string_seqs(kc@)[a] == cs[ks@[a] as int] by {
                    if a < b_ks.len() {
                        assert(kc@[a] == b_kc[a]);
                        assert(string_seqs(b_kc)[a] == cs[b_ks[a] as int]);
                    }
                }
            }
        }
        i = i + 1;
    }
    let order = worktree_listing_order(kn.as_slice(), kr.as_slice(), kc.as_slice());
    let ghost kns = string_seqs(kn@);
    let ghost krs = root_keys(string_seqs(kr@));
    let ghost kcs = string_seqs(kc@);
    assert(lists_first_of_each(kcs, order@, kn@.len() as int));
    assert(sorted_listing(kns, krs, order@));
    assert(forall|a: int| 0 <= a < order@.len() ==> #[trigger] order@[a] < ks@.len());
    let mut out: Vec<usize> = Vec::new();
    let mut x: usize = 0;
    while x < order.len()
        invariant
            x <= order@.len(),
            out@.len() == x,
            forall|a: int| 0 <= a < order@.len() ==> #[trigger] order@[a] < ks@.len(),
            forall|a: int| 0 <= a < x ==> #[trigger] out@[a] == ks@[order@[a] as int],
        decreases order@.len() - x,
    {
        out.push(ks[order[x]]);
        x = x + 1;
    }
    proof {
        let rk = root_keys(roots);
        assert forall|a: int| 0 <= a < ks@.len() implies #[trigger] krs[a] == rk[ks@[a] as int] by {
            assert(string_seqs(kr@)[a] == roots[ks@[a] as int]);
        }
        assert forall|x: int, y: int| 0 <= x < y < out@.len() implies #[trigger] canonical@[out@[x] as int]@
            != #[trigger] canonical@[out@[y] as int]@ by {
            let ox = order@[x] as int;
            let oy = order@[y] as int;
            assert(kcs[ox] == cs[ks@[ox] as int]);
            assert(kcs[oy] == cs[ks@[oy] as int]);
            if kcs[ox] == kcs[oy] {
                assert(!repeats_earlier(kcs, ox));
                assert(!repeats_earlier(kcs, oy));
                if ox < oy {
                    assert(repeats_earlier(kcs, oy));
                } else {
                    assert(ox != oy);
                    assert(repeats_earlier(kcs, ox));
                }
            }
        }
        assert forall|x: int, y: int| 0 <= x < y < out@.len() implies key_le(
            names,
            rk,
            #[trigger] out@[x] as int,
            #[trigger] out@[y] as int,
        ) by {
            let ox = order@[x] as int;
            let oy = order@[y] as int;
            assert(listed_before(kns, krs, order@[x] as int, order@[y] as int));
            assert(kns[ox] == names[ks@[ox] as int]);
            assert(kns[oy] == names[ks@[oy] as int]);
            assert(krs[ox] == rk[ks@[ox] as int]);
            assert(krs[oy] == rk[ks@[oy] as int]);
        }
        assert forall|j: int|
            0 <= j < n && in_listing(entries@[j], rid, same_common_git_dir@[j]) implies exists|x: int|
            0 <= x < out@.len() && #[trigger] canonical@[out@[x] as int]@ == canonical@[j]@ by {
            let q = choose|q: int| 0 <= q < ks@.len() && #[trigger] ks@[q] == j;
            lemma_first_of_class(kcs, q);
            let p = choose|p: int| 0 <= p <= q && #[trigger] kcs[p] == kcs[q] && !repeats_earlier(kcs, p);
            assert(order@.contains(p as usize));
            let x = choose|x: int| 0 <= x < order@.len() && order@[x] == p as usize;
            assert(out@[x] == ks@[p]);
            assert(kcs[p] == cs[ks@[p] as int]);
            assert(kcs[q] == cs[ks@[q] as int]);
        }
        assert forall|x: int, j: int|
            0 <= x < out@.len() && 0 <= j < out@[x] && in_listing(
                entries@[j],
                rid,
                same_common_git_dir@[j],
            ) implies #[trigger] canonical@[j]@ != #[trigger] canonical@[out@[x] as int]@ by {
            let ox = order@[x] as int;
            let q = choose|q: int| 0 <= q < ks@.len() && #[trigger] ks@[q] == j;
            if q >= ox {
                if q > ox {
                    assert(ks@[ox] < ks@[q]);
                }
            }
            assert(q < ox);
            assert(kcs[q] == cs[ks@[q] as int]);
            assert(kcs[ox] == cs[ks@[ox] as int]);
            assert(!repeats_earlier(kcs, ox));
            if cs[j] == cs[out@[x] as int] {
                assert(kcs[q] == kcs[ox]);
                assert(repeats_earlier(kcs, ox));
            }
        }
    }
    out
}

pub open spec fn lex_lt(a: Seq<char>, b: Seq<char>) -> bool {
    lex_le(a, b) && a != b
}

/// `paths` sorted as `Path` orders them, each path once.
pub open spec fn sorted_unique(out: Seq<Seq<char>>, paths: Seq<Seq<char>>) -> bool {
    &&& forall|x: int, y: int|
        0 <= x < y < out.len() ==> lex_lt(path_sort_key_spec(#[trigger] out[x]), path_sort_key_spec(#[trigger] out[y]))
    &&& forall|x: int| 0 <= x < out.len() ==> paths.contains(#[trigger] out[x])
    &&& forall|i: int| 0 <= i < paths.len() ==> key_present(out, path_sort_key_spec(#[trigger] paths[i]))
}

/// Some path of `out` has the sort key `k`.
pub open spec fn key_present(out: Seq<Seq<char>>, k: Seq<char>) -> bool {
    exists|x: int| 0 <= x < out.len() && path_sort_key_spec(#[trigger] out[x]) == k
}

proof fn lemma_keep_duplicate(out: Seq<Seq<char>>, seen: Seq<Seq<char>>, p: Seq<char>, x: int)
    requires
        sorted_unique(out, seen),
        0 <= x < out.len(),
        path_sort_key_spec(out[x]) == path_sort_key_spec(p),
    ensures
        sorted_unique(out, seen.push(p)),
{
    let t = seen.push(p);
    assert forall|y: int| 0 <= y < out.len() implies t.contains(#[trigger] out[y]) by {
        let m = choose|m: int| 0 <= m < seen.len() && seen[m] == out[y];
        assert(t[m] == out[y]);
    }
    assert forall|j: int| 0 <= j < t.len() implies key_present(out, path_sort_key_spec(#[trigger] t[j])) by {
        if j < seen.len() {
            assert(t[j] == seen[j]);
        } else {
            assert(t[j] == p);
        }
    }
}

proof fn lemma_insert_sorted(out: Seq<Seq<char>>, p: Seq<char>, at: int)
    requires
        forall|x: int, y: int|
            0 <= x < y < out.len() ==> lex_lt(path_sort_key_spec(#[trigger] out[x]), path_sort_key_spec(#[trigger] out[y])),
        0 <= at <= out.len(),
        forall|x: int| 0 <= x < at ==> lex_lt(path_sort_key_spec(#[trigger] out[x]), path_sort_key_spec(p)),
        forall|x: int| at <= x < out.len() ==> lex_lt(path_sort_key_spec(p), path_sort_key_spec(#[trigger] out[x])),
    ensures
        forall|x: int, y: int|
            0 <= x < y < out.insert(at, p).len() ==> lex_lt(
                path_sort_key_spec(#[trigger] out.insert(at, p)[x]),
                path_sort_key_spec(#[trigger] out.insert(at, p)[y]),
            ),
{
    let nv = out.insert(at, p);
    let kp = path_sort_key_spec(p);
    assert forall|x: int, y: int| 0 <= x < y < nv.len() implies lex_lt(
        path_sort_key_spec(#[trigger] nv[x]),
        path_sort_key_spec(#[trigger] nv[y]),
    ) by {
        if y < at {
            assert(nv[x] == out[x] && nv[y] == out[y]);
        } else if y == at {
            assert(nv[x] == out[x]);
        } else if x < at {
            assert(nv[x] == out[x] && nv[y] == out[y - 1]);
            let kx = path_sort_key_spec(out[x]);
            let ky = path_sort_key_spec(out[y - 1]);
            lemma_lex_transitive(kx, kp, ky);
            if kx == ky {
                lemma_lex_antisymmetric(kx, kp);
            }
        } else if x == at {
            assert(nv[y] == out[y - 1]);
        } else {
            assert(nv[x] == out[x - 1] && nv[y] == out[y - 1]);
        }
    }
}

proof fn lemma_insert_members(out: Seq<Seq<char>>, seen: Seq<Seq<char>>, p: Seq<char>, at: int)
    requires
        forall|x: int| 0 <= x < out.len() ==> seen.contains(#[trigger] out[x]),
        0 <= at <= out.len(),
    ensures
        forall|x: int| 0 <= x < out.insert(at, p).len() ==> seen.push(p).contains(#[trigger] out.insert(at, p)[x]),
{
    let nv = out.insert(at, p);
    let t = seen.push(p);
    assert forall|x: int| 0 <= x < nv.len() implies t.contains(#[trigger] nv[x]) by {
        if x == at {
            assert(t[seen.len() as int] == nv[x]);
        } else {
            let ox = if x < at { x } else { x - 1 };
            assert(nv[x] == out[ox]);
            let m = choose|m: int| 0 <= m < seen.len() && seen[m] == out[ox];
            assert(t[m] == nv[x]);
        }
    }
}

proof fn lemma_insert_covers(out: Seq<Seq<char>>, seen: Seq<Seq<char>>, p: Seq<char>, at: int)
    requires
        forall|i: int| 0 <= i < seen.len() ==> key_present(out, path_sort_key_spec(#[trigger] seen[i])),
        0 <= at <= out.len(),
    ensures
        forall|j: int|
            0 <= j < seen.push(p).len() ==> key_present(out.insert(at, p), path_sort_key_spec(#[trigger] seen.push(p)[j])),
{
    let nv = out.insert(at, p);
    let t = seen.push(p);
    assert forall|j: int| 0 <= j < t.len() implies key_present(nv, path_sort_key_spec(#[trigger] t[j])) by {
        if j < seen.len() {
            assert(t[j] == seen[j]);
            assert(key_present(out, path_sort_key_spec(seen[j])));
            let x = choose|x: int| 0 <= x < out.len() && path_sort_key_spec(#[trigger] out[x]) == path_sort_key_spec(seen[j]);
            if x < at {
                assert(nv[x] == out[x]);
            } else {
                assert(nv[x + 1] == out[x]);
            }
        } else {
            assert(nv[at] == t[j]);
        }
    }
}

proof fn lemma_insert_new(out: Seq<Seq<char>>, seen: Seq<Seq<char>>, p: Seq<char>, at: int)
    requires
        sorted_unique(out, seen),
        0 <= at <= out.len(),
        forall|x: int| 0 <= x < at ==> lex_lt(path_sort_key_spec(#[trigger] out[x]), path_sort_key_spec(p)),
        forall|x: int| at <= x < out.len() ==> lex_lt(path_sort_key_spec(p), path_sort_key_spec(#[trigger] out[x])),
    ensures
        sorted_unique(out.insert(at, p), seen.push(p)),
{
    lemma_insert_sorted(out, p, at);
    lemma_insert_members(out, seen, p, at);
    lemma_insert_covers(out, seen, p, at);
}

/// The paths sorted, duplicates dropped (what sorting and deduplicating a
/// list of `PathBuf`s gives).
pub fn sorted_unique_paths(paths: &[String]) -> (r: Vec<String>)
    ensures
        sorted_unique(crate::text::string_seqs(r@), crate::text::string_seqs(paths@)),
{
    let ghost pv = crate::text::string_seqs(paths@);
    let mut out: Vec<String> = Vec::new();
    let mut keys: Vec<Vec<char>> = Vec::new();
    let mut i: usize = 0;
    while i < paths.len()
        invariant
            i <= paths.len(),
            pv == crate::text::string_seqs(paths@),
            keys@.len() == out@.len(),
            forall|x: int| 0 <= x < keys@.len() ==> (#[trigger] keys@[x])@ == path_sort_key_spec(out@[x]@),
            sorted_unique(crate::text::string_seqs(out@), pv.take(i as int)),
        decreases paths.len() - i,
    {
        let ghost ov = crate::text::string_seqs(out@);
        let ghost before_out = out@;
        let ghost before_keys = keys@;
        let k = path_sort_key(paths[i].as_str());
        let mut p: usize = 0;
        while p < keys.len() && !lex_le_exec(k.as_slice(), keys[p].as_slice())
            invariant
                p <= keys@.len() == out@.len(),
                keys@ == before_keys,
                out@ == before_out,
                forall|x: int| 0 <= x < p ==> !lex_le(k@, (#[trigger] keys@[x])@),
            decreases keys@.len() - p,
        {
            p = p + 1;
        }
        assert(pv.take(i as int + 1) =~= pv.take(i as int).push(pv[i as int]));
        assert(pv[i as int] == paths@[i as int]@);
        let dup = p < keys.len() && crate::text::chars_eq(keys[p].as_slice(), k.as_slice());
        if dup {
            proof {
                assert(ov[p as int] == out@[p as int]@);
                lemma_keep_duplicate(ov, pv.take(i as int), pv[i as int], p as int);
            }
        } else {
            let ghost kv = k@;
            proof {
                assert forall|x: int| 0 <= x < p implies lex_lt(path_sort_key_spec(#[trigger] ov[x]), kv) by {
                    assert(ov[x] == out@[x]@);
                    lemma_lex_total(kv, keys@[x]@);
                }
                assert forall|x: int| p <= x < ov.len() implies lex_lt(kv, path_sort_key_spec(#[trigger] ov[x])) by {
                    assert(ov[x] == out@[x]@);
                    if x > p {
                        assert(ov[p as int] == out@[p as int]@);
                        assert(lex_lt(path_sort_key_spec(ov[p as int]), path_sort_key_spec(ov[x])));
                        lemma_lex_transitive(kv, keys@[p as int]@, keys@[x]@);
                        if kv == keys@[x]@ {
                            lemma_lex_antisymmetric(kv, keys@[p as int]@);
                        }
                    }
                }
                lemma_insert_new(ov, pv.take(i as int), pv[i as int], p as int);
            }
            out.insert(p, paths[i].clone());
            keys.insert(p, k);
            proof {
                assert(out@ == before_out.insert(p as int, paths@[i as int]));
                assert(crate::text::string_seqs(out@) =~= ov.insert(p as int, pv[i as int]));
                assert forall|x: int| 0 <= x < keys@.len() implies (#[trigger] keys@[x])@ == path_sort_key_spec(out@[x]@) by {
                    if x < p {
                        assert(keys@[x] == before_keys[x] && out@[x] == before_out[x]);
                    } else if x > p {
                        assert(keys@[x] == before_keys[x - 1] && out@[x] == before_out[x - 1]);
                    }
                }
            }
        }
        i = i + 1;
    }
    assert(pv.take(paths.len() as int) =~= pv);
    out
}

} // verus!
