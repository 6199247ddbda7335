//! Codex-managed Git worktrees: the records that describe a worktree, the
//! dirty-checkout policies and what each one does, and the metadata written
//! next to a worktree. Paths are `/`-separated strings.

use vstd::prelude::*;

use crate::text::str_to_string;

verus! {

/// What to do with uncommitted changes in the source checkout when a new
/// worktree is created from it.
#[derive(Clone, Copy, Debug, PartialEq, Eq, Structural)]
pub enum DirtyPolicy {
    Fail,
    Ignore,
    CopyTracked,
    CopyAll,
    MoveTracked,
    MoveAll,
}

/// Which kinds of uncommitted changes a checkout has.
#[derive(Clone, Copy, Debug, PartialEq, Eq, Structural)]
pub struct DirtyState {
    pub has_staged_changes: bool,
    pub has_unstaged_changes: bool,
    pub has_untracked_files: bool,
}

impl DirtyState {
    pub open spec fn dirty(&self) -> bool {
        self.has_staged_changes || self.has_unstaged_changes || self.has_untracked_files
    }

    pub fn is_dirty(&self) -> (r: bool)
        ensures
            r == self.dirty(),
    {
        self.has_staged_changes || self.has_unstaged_changes || self.has_untracked_files
    }
}

impl Default for DirtyState {
    fn default() -> (r: Self)
        ensures
            !r.has_staged_changes && !r.has_unstaged_changes && !r.has_untracked_files,
    {
        DirtyState { has_staged_changes: false, has_unstaged_changes: false, has_untracked_files: false }
    }
}

/// The dirty state of a checkout from the output of
/// `git diff --cached --name-only -z`, `git diff --name-only -z` and
/// `git ls-files --others --exclude-standard -z`: any output means changes.
pub fn dirty_state(staged: &[u8], unstaged: &[u8], untracked: &[u8]) -> (r: DirtyState)
    ensures
        r.has_staged_changes == (staged@.len() > 0),
        r.has_unstaged_changes == (unstaged@.len() > 0),
        r.has_untracked_files == (untracked@.len() > 0),
{
    DirtyState {
        has_staged_changes: staged.len() > 0,
        has_unstaged_changes: unstaged.len() > 0,
        has_untracked_files: untracked.len() > 0,
    }
}

pub open spec fn dirty_source_error() -> Seq<char> {
    "source checkout has uncommitted changes; use --worktree-dirty ignore, copy-tracked, copy-all, move-tracked, or move-all"@
}

pub open spec fn ignored_changes_warning() -> Seq<char> {
    "source checkout has uncommitted changes; the new worktree was created without them"@
}

pub open spec fn untracked_left_warning() -> Seq<char> {
    "untracked files were left in the source checkout; use --worktree-dirty copy-all or move-all to carry them"@
}

/// The warnings (or the refusal) that a dirty policy gives before a worktree is
/// created from a checkout in `state`.
pub open spec fn dirty_policy_check(state: DirtyState, policy: DirtyPolicy) -> Result<Seq<Seq<char>>, Seq<char>> {
    if !state.dirty() {
        Ok(seq![])
    } else {
        match policy {
            DirtyPolicy::Fail => Err(dirty_source_error()),
            DirtyPolicy::Ignore => Ok(seq![ignored_changes_warning()]),
            DirtyPolicy::CopyTracked | DirtyPolicy::MoveTracked => if state.has_untracked_files {
                Ok(seq![untracked_left_warning()])
            } else {
                Ok(seq![])
            },
            DirtyPolicy::CopyAll | DirtyPolicy::MoveAll => Ok(seq![]),
        }
    }
}

pub fn validate_dirty_policy_before_create(state: &DirtyState, policy: DirtyPolicy) -> (r: Result<
    Vec<String>,
    String,
>)
    ensures
        match (r, dirty_policy_check(*state, policy)) {
            (Ok(v), Ok(w)) => v@.map_values(|s: String| s@) == w,
            (Err(e), Err(m)) => e@ == m,
            _ => false,
        },
{
    let mut out: Vec<String> = Vec::new();
    if !state.is_dirty() {
        assert(out@.map_values(|s: String| s@) =~= Seq::<Seq<char>>::empty());
        return Ok(out);
    }
    match policy {
        DirtyPolicy::Fail => Err(str_to_string(
            "source checkout has uncommitted changes; use --worktree-dirty ignore, copy-tracked, copy-all, move-tracked, or move-all",
        )),
        DirtyPolicy::Ignore => {
            out.push(
                str_to_string(
                    "source checkout has uncommitted changes; the new worktree was created without them",
                ),
            );
            assert(out@.map_values(|s: String| s@) =~= seq![ignored_changes_warning()]);
            Ok(out)
        },
        DirtyPolicy::CopyTracked | DirtyPolicy::MoveTracked => {
            if state.has_untracked_files {
                out.push(
                    str_to_string(
                        "untracked files were left in the source checkout; use --worktree-dirty copy-all or move-all to carry them",
                    ),
                );
                assert(out@.map_values(|s: String| s@) =~= seq![untracked_left_warning()]);
            } else {
                assert(out@.map_values(|s: String| s@) =~= Seq::<Seq<char>>::empty());
            }
            Ok(out)
        },
        DirtyPolicy::CopyAll | DirtyPolicy::MoveAll => {
            assert(out@.map_values(|s: String| s@) =~= Seq::<Seq<char>>::empty());
            Ok(out)
        },
    }
}

/// One step of carrying uncommitted changes into a new worktree.
#[derive(Clone, Copy, Debug, PartialEq, Eq, Structural)]
pub enum DirtyTransferStep {
    /// Capture the staged and unstaged diffs of the source and apply them in the worktree.
    ApplyTrackedDiff,
    /// Copy the untracked files of the source into the worktree.
    CopyUntracked,
    /// Reset the source checkout, also removing the untracked files when asked.
    CleanSource { move_untracked: bool },
}

/// The steps a dirty policy takes once the worktree exists.
pub open spec fn dirty_transfer_plan(state: DirtyState, policy: DirtyPolicy) -> Seq<DirtyTransferStep> {
    if !state.dirty() {
        seq![]
    } else {
        match policy {
            DirtyPolicy::Fail | DirtyPolicy::Ignore => seq![],
            DirtyPolicy::CopyTracked => seq![DirtyTransferStep::ApplyTrackedDiff],
            DirtyPolicy::CopyAll => seq![
                DirtyTransferStep::ApplyTrackedDiff,
                DirtyTransferStep::CopyUntracked,
            ],
            DirtyPolicy::MoveTracked => seq![
                DirtyTransferStep::ApplyTrackedDiff,
                DirtyTransferStep::CleanSource { move_untracked: false },
            ],
            DirtyPolicy::MoveAll => seq![
                DirtyTransferStep::ApplyTrackedDiff,
                DirtyTransferStep::CopyUntracked,
                DirtyTransferStep::CleanSource { move_untracked: true },
            ],
        }
    }
}

pub fn apply_dirty_policy_after_create(state: &DirtyState, policy: DirtyPolicy) -> (r: Vec<
    DirtyTransferStep,
>)
    ensures
        r@ == dirty_transfer_plan(*state, policy),
{
    let mut steps: Vec<DirtyTransferStep> = Vec::new();
    if !state.is_dirty() {
        assert(steps@ =~= dirty_transfer_plan(*state, policy));
        return steps;
    }
    match policy {
        DirtyPolicy::Fail | DirtyPolicy::Ignore => {},
        DirtyPolicy::CopyTracked => {
            steps.push(DirtyTransferStep::ApplyTrackedDiff);
        },
        DirtyPolicy::CopyAll => {
            steps.push(DirtyTransferStep::ApplyTrackedDiff);
            steps.push(DirtyTransferStep::CopyUntracked);
        },
        DirtyPolicy::MoveTracked => {
            steps.push(DirtyTransferStep::ApplyTrackedDiff);
            steps.push(DirtyTransferStep::CleanSource { move_untracked: false });
        },
        DirtyPolicy::MoveAll => {
            steps.push(DirtyTransferStep::ApplyTrackedDiff);
            steps.push(DirtyTransferStep::CopyUntracked);
            steps.push(DirtyTransferStep::CleanSource { move_untracked: true });
        },
    }
    assert(steps@ =~= dirty_transfer_plan(*state, policy));
    steps
}

/// Who created a worktree.
#[derive(Clone, Copy, Debug, PartialEq, Eq, Structural)]
pub enum WorktreeSource {
    Cli,
    App,
    Legacy,
    Git,
}

/// Where a worktree lives relative to its repository.
#[derive(Clone, Copy, Debug, PartialEq, Eq, Structural)]
pub enum WorktreeLocation {
    Sibling,
    CodexHome,
    External,
}

#[derive(Clone, Debug, PartialEq, Eq)]
pub struct WorktreeRequest {
    pub codex_home: String,
    pub source_cwd: String,
    pub branch: String,
    pub base_ref: Option<String>,
    pub dirty_policy: DirtyPolicy,
}

#[derive(Clone, Debug, PartialEq, Eq)]
pub struct WorktreeInfo {
    pub id: String,
    pub name: String,
    pub slug: String,
    pub source: WorktreeSource,
    pub location: WorktreeLocation,
    pub repo_name: String,
    pub repo_root: String,
    pub common_git_dir: String,
    pub worktree_git_root: String,
    pub workspace_cwd: String,
    pub original_relative_cwd: String,
    pub branch: Option<String>,
    pub head: Option<String>,
    pub owner_thread_id: Option<String>,
    pub metadata_path: String,
    pub dirty: DirtyState,
}

#[derive(Clone, Debug, PartialEq, Eq)]
pub struct WorktreeWarning {
    pub message: String,
}

#[derive(Clone, Debug, PartialEq, Eq)]
pub struct WorktreeResolution {
    pub reused: bool,
    pub info: WorktreeInfo,
    pub warnings: Vec<WorktreeWarning>,
}

#[derive(Clone, Debug, PartialEq, Eq)]
pub struct WorktreeListQuery {
    pub codex_home: String,
    pub source_cwd: Option<String>,
    pub include_all_repos: bool,
}

#[derive(Clone, Debug, PartialEq, Eq)]
pub struct WorktreeRemoveRequest {
    pub codex_home: String,
    pub source_cwd: Option<String>,
    pub name_or_path: String,
    pub force: bool,
    pub delete_branch: bool,
}

#[derive(Clone, Debug, PartialEq, Eq)]
pub struct WorktreeRemoveResult {
    pub removed_path: String,
    pub deleted_branch: Option<String>,
}

/// The record a worktree keeps of the chat thread that owns it.
#[derive(Clone, Debug, PartialEq, Eq)]
pub struct WorktreeThreadMetadata {
    pub version: u32,
    pub owner_thread_id: Option<String>,
}

/// The record Codex writes into the Git directory of a worktree it manages.
#[derive(Clone, Debug, PartialEq, Eq)]
pub struct WorktreeMetadata {
    pub version: u32,
    pub manager: String,
    pub backend: String,
    pub source: WorktreeSource,
    pub location: WorktreeLocation,
    pub id: String,
    pub name: String,
    pub slug: String,
    pub branch: Option<String>,
    pub repo_id: String,
    pub repo_name: String,
    pub source_repo_root: String,
    pub original_relative_cwd: String,
    pub worktree_git_root: String,
    pub workspace_cwd: String,
    pub created_at: i64,
    pub updated_at: i64,
    pub owner_thread_id: Option<String>,
    pub tmux_session: Option<String>,
}

pub open spec fn opt_view(o: Option<String>) -> Option<Seq<char>> {
    match o {
        Some(s) => Some(s@),
        None => None,
    }
}

pub fn clone_opt(o: &Option<String>) -> (r: Option<String>)
    ensures
        opt_view(r) == opt_view(*o),
{
    match o {
        Some(s) => Some(s.clone()),
        None => None,
    }
}

impl WorktreeMetadata {
    /// The metadata for a worktree described by `info`, created and updated at
    /// `now` (seconds since the Unix epoch).
    pub fn from_info(info: &WorktreeInfo, source_repo_root: String, now: i64) -> (m: Self)
        ensures
            m.version == 1,
            m.manager@ == "codex-cli"@,
            m.backend@ == "git"@,
            m.source == info.source,
            m.location == info.location,
            m.id@ == info.id@,
            m.name@ == info.name@,
            m.slug@ == info.slug@,
            opt_view(m.branch) == opt_view(info.branch),
            m.repo_id@ == info.id@,
            m.repo_name@ == info.repo_name@,
            m.source_repo_root@ == source_repo_root@,
            m.original_relative_cwd@ == info.original_relative_cwd@,
            m.worktree_git_root@ == info.worktree_git_root@,
            m.workspace_cwd@ == info.workspace_cwd@,
            m.created_at == now,
            m.updated_at == now,
            opt_view(m.owner_thread_id) == opt_view(info.owner_thread_id),
            m.tmux_session is None,
    {
        WorktreeMetadata {
            version: 1,
            manager: str_to_string("codex-cli"),
            backend: str_to_string("git"),
            source: info.source,
            location: info.location,
            id: info.id.clone(),
            name: info.name.clone(),
            slug: info.slug.clone(),
            branch: clone_opt(&info.branch),
            repo_id: info.id.clone(),
            repo_name: info.repo_name.clone(),
            source_repo_root,
            original_relative_cwd: info.original_relative_cwd.clone(),
            worktree_git_root: info.worktree_git_root.clone(),
            workspace_cwd: info.workspace_cwd.clone(),
            created_at: now,
            updated_at: now,
            owner_thread_id: clone_opt(&info.owner_thread_id),
            tmux_session: None,
        }
    }
}

/// The source assumed for metadata written before sources were recorded.
pub fn default_source() -> (r: WorktreeSource)
    ensures
        r == WorktreeSource::Legacy,
{
    WorktreeSource::Legacy
}

/// The location assumed for metadata written before locations were recorded.
pub fn default_location() -> (r: WorktreeLocation)
    ensures
        r == WorktreeLocation::CodexHome,
{
    WorktreeLocation::CodexHome
}

/// The owner record written when a worktree is created, before a thread binds it.
pub fn pending_owner_metadata() -> (m: WorktreeThreadMetadata)
    ensures
        m.version == 1,
        m.owner_thread_id is None,
{
    WorktreeThreadMetadata { version: 1, owner_thread_id: None }
}

/// The owner record that binds a worktree to the thread `thread_id`.
pub fn thread_owner_metadata(thread_id: &str) -> (m: WorktreeThreadMetadata)
    ensures
        m.version == 1,
        opt_view(m.owner_thread_id) == Some(thread_id@),
{
    WorktreeThreadMetadata { version: 1, owner_thread_id: Some(str_to_string(thread_id)) }
}

/// Binds existing worktree metadata to the thread `thread_id` at time `now`.
pub fn bind_metadata_to_thread(metadata: &mut WorktreeMetadata, thread_id: &str, now: i64)
    ensures
        opt_view(final(metadata).owner_thread_id) == Some(thread_id@),
        final(metadata).updated_at == now,
        final(metadata).created_at == old(metadata).created_at,
        final(metadata).id@ == old(metadata).id@,
        final(metadata).name@ == old(metadata).name@,
        final(metadata).worktree_git_root@ == old(metadata).worktree_git_root@,
{
    metadata.owner_thread_id = Some(str_to_string(thread_id));
    metadata.updated_at = now;
}


/// The `--dirty` command-line choices for creating a worktree; `fail` by
/// default.
#[derive(Clone, Copy, Debug, PartialEq, Eq, Structural)]
pub enum WorktreeDirtyCliArg {
    Fail,
    Ignore,
    CopyTracked,
    CopyAll,
    MoveAll,
}

impl Default for WorktreeDirtyCliArg {
    fn default() -> (r: Self)
        ensures
            r == WorktreeDirtyCliArg::Fail,
    {
        WorktreeDirtyCliArg::Fail
    }
}

} // verus!
