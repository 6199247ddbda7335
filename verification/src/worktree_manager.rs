//! The decisions of the worktree manager: where a requested worktree goes,
//! whether an existing one may be reused, how a new one is created, and the
//! record that describes an existing worktree. The Git queries they depend
//! on are made by the caller and handed in as plain values.

use vstd::prelude::*;

use crate::text::{str_to_string, trim};
use crate::worktree::{
    dirty_policy_check, opt_view, DirtyPolicy, DirtyState, WorktreeInfo, WorktreeLocation,
    WorktreeMetadata, WorktreeSource,
};
use crate::worktree_git::{
    checked_out_elsewhere_error, classify_worktree, empty_branch_name_error,
    ensure_branch_name_not_blank, ensure_branch_not_checked_out_elsewhere,
    ensure_existing_path_is_managed, ensure_existing_worktree_matches_branch,
    existing_identity_spec, existing_matches_spec, existing_worktree_identity, not_owned_error,
    string_views, worktree_add_args, worktree_add_args_spec,
};
use crate::worktree_paths::{
    empty_slug_error, file_name_of, join_path, path_file_name, path_join, sibling_root_spec,
    sibling_worktree_git_root, slug_of, slugify_name,
};

verus! {

/// Where a requested worktree goes: its slug, its checkout root and the
/// directory the chat opens in.
#[derive(Clone, Debug, PartialEq, Eq)]
pub struct WorktreeTarget {
    pub slug: String,
    pub worktree_git_root: String,
    pub workspace_cwd: String,
}

pub open spec fn invalid_branch_name_error() -> Seq<char> {
    "invalid branch name"@
}

/// The target of a request for `branch` from a checkout whose primary
/// worktree is `primary_root`, opened at `relative_cwd` inside it. In order,
/// the request fails when the branch yields no slug, when the branch name is
/// blank, when Git refuses it as a branch name (`ref_format_ok`), and when no
/// sibling path can be made for it.
pub open spec fn target_spec(
    branch: Seq<char>,
    primary_root: Seq<char>,
    relative_cwd: Seq<char>,
    ref_format_ok: bool,
) -> Result<(Seq<char>, Seq<char>, Seq<char>), Seq<char>> {
    if slug_of(branch).len() == 0 {
        Err(empty_slug_error())
    } else if trim(branch).len() == 0 {
        Err(empty_branch_name_error())
    } else if !ref_format_ok {
        Err(invalid_branch_name_error())
    } else {
        match sibling_root_spec(primary_root, branch) {
            Ok(root) => Ok((slug_of(branch), root, join_path(root, relative_cwd))),
            Err(e) => Err(e),
        }
    }
}

pub fn ensure_worktree_target(
    branch: &str,
    primary_root: &str,
    relative_cwd: &str,
    ref_format_ok: bool,
) -> (r: Result<WorktreeTarget, String>)
    ensures
        match (r, target_spec(branch@, primary_root@, relative_cwd@, ref_format_ok)) {
            (Ok(t), Ok(s)) => (t.slug@, t.worktree_git_root@, t.workspace_cwd@) == s,
            (Err(e), Err(m)) => e@ == m,
            _ => false,
        },
{
    let slug = match slugify_name(branch) {
        Ok(s) => s,
        Err(e) => return Err(e),
    };
    if let Err(e) = ensure_branch_name_not_blank(branch) {
        return Err(e);
    }
    if !ref_format_ok {
        return Err(str_to_string("invalid branch name"));
    }
    let worktree_git_root = match sibling_worktree_git_root(primary_root, branch) {
        Ok(p) => p,
        Err(e) => return Err(e),
    };
    let workspace_cwd = path_join(worktree_git_root.as_str(), relative_cwd);
    Ok(WorktreeTarget { slug, worktree_git_root, workspace_cwd })
}

/// Where a new worktree's repository facts come from: the checkout the
/// request was made in.
pub struct SourceRepoFacts {
    pub id: String,
    pub repo_name: String,
    pub root: String,
    pub common_git_dir: String,
    pub relative_cwd: String,
}

/// The record of a worktree just created for `branch` at `target`: named
/// after the branch, made by the CLI as a sibling checkout of the source
/// repository, with no owner thread yet.
pub fn created_worktree_info(
    repo: SourceRepoFacts,
    branch: String,
    target: WorktreeTarget,
    head: Option<String>,
    metadata_path: String,
    dirty: DirtyState,
) -> (r: WorktreeInfo)
    ensures
        r.id@ == repo.id@,
        r.name@ == branch@,
        r.slug@ == target.slug@,
        r.source == WorktreeSource::Cli,
        r.location == WorktreeLocation::Sibling,
        r.repo_name@ == repo.repo_name@,
        r.repo_root@ == repo.root@,
        r.common_git_dir@ == repo.common_git_dir@,
        r.worktree_git_root@ == target.worktree_git_root@,
        r.workspace_cwd@ == target.workspace_cwd@,
        r.original_relative_cwd@ == repo.relative_cwd@,
        opt_view(r.branch) == Some(branch@),
        opt_view(r.head) == opt_view(head),
        r.owner_thread_id is None,
        r.metadata_path@ == metadata_path@,
        r.dirty == dirty,
{
    WorktreeInfo {
        id: repo.id,
        name: branch.clone(),
        slug: target.slug,
        source: WorktreeSource::Cli,
        location: WorktreeLocation::Sibling,
        repo_name: repo.repo_name,
        repo_root: repo.root,
        common_git_dir: repo.common_git_dir,
        worktree_git_root: target.worktree_git_root,
        workspace_cwd: target.workspace_cwd,
        original_relative_cwd: repo.relative_cwd,
        branch: Some(branch),
        head,
        owner_thread_id: None,
        metadata_path,
        dirty,
    }
}

/// Whether an existing directory at the target may be reused for `branch`:
/// only when Codex wrote its metadata, and only for the branch that
/// metadata names or the branch checked out there.
pub open spec fn reuse_spec(
    root: Seq<char>,
    metadata: Option<WorktreeMetadata>,
    branch: Seq<char>,
    current_branch: Option<Seq<char>>,
) -> Result<(), Seq<char>> {
    match metadata {
        None => Err(not_owned_error(root)),
        Some(m) => existing_matches_spec(root, opt_view(m.branch), m.name@, branch, current_branch),
    }
}

pub fn check_reuse_existing_worktree(
    worktree_git_root: &str,
    metadata: Option<&WorktreeMetadata>,
    branch: &str,
    current_branch: &Option<String>,
) -> (r: Result<(), String>)
    ensures
        match (
            r,
            reuse_spec(
                worktree_git_root@,
                match metadata {
                    Some(m) => Some(*m),
                    None => None,
                },
                branch@,
                opt_view(*current_branch),
            ),
        ) {
            (Ok(_), Ok(_)) => true,
            (Err(e), Err(m)) => e@ == m,
            _ => false,
        },
{
    match metadata {
        None => {
            let r = ensure_existing_path_is_managed(worktree_git_root, false);
            match r {
                Ok(_) => Ok(()),
                Err(e) => Err(e),
            }
        },
        Some(m) => ensure_existing_worktree_matches_branch(worktree_git_root, m, branch, current_branch),
    }
}

/// How a new worktree is created: refused when the branch is checked out
/// somewhere else, then when the dirty policy refuses the source checkout;
/// otherwise the `git worktree add` arguments and the dirty policy's
/// warnings.
pub open spec fn create_spec(
    root: Seq<char>,
    branch: Seq<char>,
    checkout: Option<Seq<char>>,
    dirty: DirtyState,
    policy: DirtyPolicy,
    branch_exists: bool,
    base_ref: Option<Seq<char>>,
    has_head: bool,
) -> Result<(Seq<Seq<char>>, Seq<Seq<char>>), Seq<char>> {
    let elsewhere = match checkout {
        Some(p) => !crate::update::same_path(p, root),
        None => false,
    };
    if elsewhere {
        Err(checked_out_elsewhere_error(branch, checkout->0))
    } else {
        match dirty_policy_check(dirty, policy) {
            Err(m) => Err(m),
            Ok(w) => Ok((worktree_add_args_spec(root, branch, branch_exists, base_ref, has_head), w)),
        }
    }
}

pub fn plan_new_worktree(
    worktree_git_root: &str,
    branch: &str,
    checkout: Option<&str>,
    dirty: &DirtyState,
    policy: DirtyPolicy,
    branch_exists: bool,
    base_ref: Option<&str>,
    has_head: bool,
) -> (r: Result<(Vec<String>, Vec<String>), String>)
    ensures
        match (
            r,
            create_spec(
                worktree_git_root@,
                branch@,
                match checkout {
                    Some(p) => Some(p@),
                    None => None,
                },
                *dirty,
                policy,
                branch_exists,
                match base_ref {
                    Some(b) => Some(b@),
                    None => None,
                },
                has_head,
            ),
        ) {
            (Ok((a, w)), Ok((sa, sw))) => string_views(a@) == sa && string_views(w@) == sw,
            (Err(e), Err(m)) => e@ == m,
            _ => false,
        },
{
    if let Err(e) = ensure_branch_not_checked_out_elsewhere(checkout, worktree_git_root, branch) {
        return Err(e);
    }
    let warnings = match crate::worktree::validate_dirty_policy_before_create(dirty, policy) {
        Ok(w) => w,
        Err(e) => return Err(e),
    };
    proof {
        assert(string_views(warnings@) =~= warnings@.map_values(|s: String| s@));
    }
    let args = worktree_add_args(worktree_git_root, branch, branch_exists, base_ref, has_head);
    Ok((args, warnings))
}

/// The directory name of a checkout root, or `repo` when it has none.
pub open spec fn repo_name_spec(root: Seq<char>) -> Seq<char> {
    match file_name_of(root) {
        Some(n) => n,
        None => "repo"@,
    }
}

/// What Git and the metadata file say of an existing worktree.
pub struct ExistingWorktreeFacts {
    pub worktree_git_root: String,
    /// `git rev-parse --show-toplevel`, else the worktree root itself.
    pub root: String,
    /// `git rev-parse --git-common-dir` made absolute, else empty.
    pub common_git_dir: String,
    pub branch: Option<String>,
    pub head: Option<String>,
    pub dirty: DirtyState,
    pub metadata: Option<WorktreeMetadata>,
    /// Whether the worktree lies under the Codex-home worktree root.
    pub is_managed_path: bool,
    pub worktrees_root: String,
    pub metadata_path: String,
}

/// The record of an existing worktree: identity and placement from its
/// metadata when Codex wrote one, else from the fallbacks, its branch or its
/// directory name; the rest from Git.
pub fn info_from_existing_worktree(
    facts: ExistingWorktreeFacts,
    fallback_name: Option<String>,
    fallback_slug: Option<String>,
) -> (r: WorktreeInfo)
    ensures
        (r.id@, r.name@, r.slug@) == existing_identity_spec(
            facts.metadata,
            facts.root@,
            facts.worktrees_root@,
            repo_name_spec(facts.root@),
            opt_view(fallback_name),
            opt_view(fallback_slug),
            opt_view(facts.branch),
        ),
        (r.source, r.location) == (match facts.metadata {
            Some(m) => (m.source, m.location),
            None => if facts.is_managed_path {
                (WorktreeSource::App, WorktreeLocation::CodexHome)
            } else {
                (WorktreeSource::Git, WorktreeLocation::External)
            },
        }),
        r.repo_name@ == repo_name_spec(facts.root@),
        r.repo_root@ == facts.root@,
        r.common_git_dir@ == facts.common_git_dir@,
        r.worktree_git_root@ == facts.worktree_git_root@,
        r.workspace_cwd@ == (match facts.metadata {
            Some(m) => m.workspace_cwd@,
            None => facts.root@,
        }),
        r.original_relative_cwd@ == (match facts.metadata {
            Some(m) => m.original_relative_cwd@,
            None => seq![],
        }),
        opt_view(r.branch) == opt_view(facts.branch),
        opt_view(r.head) == opt_view(facts.head),
        opt_view(r.owner_thread_id) == (match facts.metadata {
            Some(m) => opt_view(m.owner_thread_id),
            None => None,
        }),
        r.metadata_path@ == facts.metadata_path@,
        r.dirty == facts.dirty,
{
    let repo_name = match path_file_name(facts.root.as_str()) {
        Some(n) => n,
        None => str_to_string("repo"),
    };
    let (source, location) = classify_worktree(facts.metadata.as_ref(), facts.is_managed_path);
    let (id, name, slug) = existing_worktree_identity(
        facts.metadata.as_ref(),
        facts.root.as_str(),
        facts.worktrees_root.as_str(),
        repo_name.as_str(),
        fallback_name,
        fallback_slug,
        &facts.branch,
    );
    let (workspace_cwd, original_relative_cwd, owner_thread_id) = match &facts.metadata {
        Some(m) => (
            m.workspace_cwd.clone(),
            m.original_relative_cwd.clone(),
            crate::worktree::clone_opt(&m.owner_thread_id),
        ),
        None => (facts.root.clone(), String::new(), None),
    };
    WorktreeInfo {
        id,
        name,
        slug,
        source,
        location,
        repo_name,
        repo_root: facts.root,
        common_git_dir: facts.common_git_dir,
        worktree_git_root: facts.worktree_git_root,
        workspace_cwd,
        original_relative_cwd,
        branch: facts.branch,
        head: facts.head,
        owner_thread_id,
        metadata_path: facts.metadata_path,
        dirty: facts.dirty,
    }
}

/// Asking again for a worktree Codex created reuses it: metadata that names
/// the branch (as [`WorktreeMetadata::from_info`] writes it for a new
/// worktree) lets the same request through, whatever is checked out there.
pub proof fn lemma_created_worktree_is_reused(
    root: Seq<char>,
    metadata: WorktreeMetadata,
    branch: Seq<char>,
    current_branch: Option<Seq<char>>,
)
    requires
        opt_view(metadata.branch) == Some(branch),
    ensures
        reuse_spec(root, Some(metadata), branch, current_branch) is Ok,
{
}

} // verus!
