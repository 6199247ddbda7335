//! The app's worktree flow: what a creation, a switch or a removal does next
//! given what is known so far, and the messages it shows.

use vstd::prelude::*;

use crate::text::{chars_to_string, push_chars, push_str, str_chars, str_to_string};
use crate::worktree::{opt_view, DirtyPolicy, DirtyState, WorktreeInfo, WorktreeSource};

verus! {

pub open spec fn remote_unsupported_message() -> Seq<char> {
    "/worktree is not supported for remote sessions yet."@
}

/// The error shown when `/worktree` is used in a remote session.
pub fn remote_unsupported_error() -> (r: String)
    ensures
        r@ == remote_unsupported_message(),
{
    str_to_string("/worktree is not supported for remote sessions yet.")
}

/// What a creation does about uncommitted changes.
#[derive(Clone, Debug, PartialEq, Eq)]
pub enum DirtyPolicyStep {
    /// Create with this policy.
    Use(DirtyPolicy),
    /// The checkout is dirty and no policy was given: ask the user.
    Ask,
    /// The checkout could not be inspected.
    Fail(String),
}

pub open spec fn inspect_error(err: Seq<char>) -> Seq<char> {
    "Failed to inspect source checkout: "@ + err
}

/// The policy for a creation: the one asked for; otherwise `fail` for a
/// clean checkout, a question for a dirty one, and an error when the
/// checkout could not be inspected (`state`).
pub fn dirty_policy_step(requested: Option<DirtyPolicy>, state: Result<DirtyState, String>) -> (r:
    DirtyPolicyStep)
    ensures
        requested matches Some(p) ==> r == DirtyPolicyStep::Use(p),
        requested is None ==> match state {
            Ok(s) => if s.dirty() {
                r == DirtyPolicyStep::Ask
            } else {
                r == DirtyPolicyStep::Use(DirtyPolicy::Fail)
            },
            Err(e) => r matches DirtyPolicyStep::Fail(m) && m@ == inspect_error(e@),
        },
{
    match requested {
        Some(p) => DirtyPolicyStep::Use(p),
        None => match state {
            Ok(s) => {
                if s.is_dirty() {
                    DirtyPolicyStep::Ask
                } else {
                    DirtyPolicyStep::Use(DirtyPolicy::Fail)
                }
            },
            Err(e) => {
                let mut out: Vec<char> = Vec::new();
                push_str(&mut out, "Failed to inspect source checkout: ");
                push_chars(&mut out, str_chars(e.as_str()).as_slice());
                DirtyPolicyStep::Fail(chars_to_string(out.as_slice()))
            },
        },
    }
}

/// The name a worktree is switched to by: its branch, else its name.
pub fn switch_target(info: &WorktreeInfo) -> (r: String)
    ensures
        r@ == (match opt_view(info.branch) {
            Some(b) => b,
            None => info.name@,
        }),
{
    match &info.branch {
        Some(b) => b.clone(),
        None => info.name.clone(),
    }
}

/// What a removal request does next.
#[derive(Clone, Debug, PartialEq, Eq)]
pub enum RemovalStep {
    /// Only worktrees the CLI made can be removed.
    Refuse(String),
    /// Ask before removing.
    Confirm,
    /// Remove it.
    Remove,
}

pub open spec fn refusal_message(source: Seq<char>, target: Seq<char>) -> Seq<char> {
    "Refusing to remove "@ + source + " worktree '"@ + target
        + "'. Only Codex CLI-managed worktrees can be removed."@
}

pub fn removal_step(source: WorktreeSource, target: &str, confirmed: bool) -> (r: RemovalStep)
    ensures
        source != WorktreeSource::Cli ==> (r matches RemovalStep::Refuse(m) && m@ == refusal_message(
            crate::slash::source_label_spec(source),
            target@,
        )),
        source == WorktreeSource::Cli && !confirmed ==> r == RemovalStep::Confirm,
        source == WorktreeSource::Cli && confirmed ==> r == RemovalStep::Remove,
{
    if source != WorktreeSource::Cli {
        let label = crate::slash::source_label(source);
        let mut out: Vec<char> = Vec::new();
        push_str(&mut out, "Refusing to remove ");
        push_str(&mut out, label);
        push_str(&mut out, " worktree '");
        push_str(&mut out, target);
        push_str(&mut out, "'. Only Codex CLI-managed worktrees can be removed.");
        return RemovalStep::Refuse(chars_to_string(out.as_slice()));
    }
    if !confirmed {
        RemovalStep::Confirm
    } else {
        RemovalStep::Remove
    }
}

pub open spec fn removed_message_spec(path: Seq<char>, deleted_branch: Option<Seq<char>>) -> Seq<char> {
    "Removed worktree "@ + path + match deleted_branch {
        Some(b) => " and deleted branch "@ + b,
        None => seq![],
    }
}

/// The message after a removal.
pub fn removed_message(removed_path: &str, deleted_branch: &Option<String>) -> (r: String)
    ensures
        r@ == removed_message_spec(removed_path@, opt_view(*deleted_branch)),
{
    let mut out: Vec<char> = Vec::new();
    push_str(&mut out, "Removed worktree ");
    push_str(&mut out, removed_path);
    if let Some(b) = deleted_branch {
        push_str(&mut out, " and deleted branch ");
        push_str(&mut out, b.as_str());
    }
    chars_to_string(out.as_slice())
}

/// What the picker shows once the worktrees are listed.
#[derive(Clone, Debug, PartialEq, Eq)]
pub enum PickerContent {
    Empty,
    Entries,
    Error(String),
}

pub fn picker_content(result: &Result<Vec<WorktreeInfo>, String>) -> (r: PickerContent)
    ensures
        match *result {
            Ok(v) => if v@.len() == 0 {
                r == PickerContent::Empty
            } else {
                r == PickerContent::Entries
            },
            Err(e) => r matches PickerContent::Error(m) && m@ == e@,
        },
{
    match result {
        Ok(v) => {
            if v.len() == 0 {
                PickerContent::Empty
            } else {
                PickerContent::Entries
            }
        },
        Err(e) => PickerContent::Error(e.clone()),
    }
}

/// Where a switch attaches: a fork of the current thread when there is one,
/// else a new thread.
#[derive(Clone, Copy, Debug, PartialEq, Eq, Structural)]
pub enum SwitchPlan {
    ForkCurrentThread,
    StartNewThread,
}

pub fn switch_plan(has_current_thread: bool) -> (r: SwitchPlan)
    ensures
        r == (if has_current_thread {
            SwitchPlan::ForkCurrentThread
        } else {
            SwitchPlan::StartNewThread
        }),
{
    if has_current_thread {
        SwitchPlan::ForkCurrentThread
    } else {
        SwitchPlan::StartNewThread
    }
}

/// An error shown in the chat when the worktree view is gone: the summary,
/// a space, and the error.
pub fn worktree_error_message(summary: &str, error: &str) -> (r: String)
    ensures
        r@ == summary@ + " "@ + error@,
{
    let mut out: Vec<char> = Vec::new();
    push_str(&mut out, summary);
    push_str(&mut out, " ");
    push_str(&mut out, error);
    chars_to_string(out.as_slice())
}


/// One row of the worktree picker.
#[derive(Clone, Debug, PartialEq, Eq)]
pub struct PickerRow {
    /// What the row shows and what a switch targets: the branch, else the name.
    pub target: String,
    pub description: String,
    pub selected_description: String,
    pub search_value: String,
}

pub open spec fn target_spec(info: WorktreeInfo) -> Seq<char> {
    match opt_view(info.branch) {
        Some(b) => b,
        None => info.name@,
    }
}

/// The picker row of a worktree: its target, `<clean|dirty> · <source> ·
/// <path>`, the fork note shown while it is selected, and the text a search
/// matches against (`<target> <name> <source> <path>`).
pub fn picker_row(info: &WorktreeInfo) -> (r: PickerRow)
    ensures
        r.target@ == target_spec(*info),
        r.description@ == (if info.dirty.dirty() {
            "dirty"@
        } else {
            "clean"@
        }) + " · "@ + crate::slash::source_label_spec(info.source) + " · "@ + info.workspace_cwd@,
        r.selected_description@ == "Fork this chat into "@ + info.workspace_cwd@,
        r.search_value@ == target_spec(*info) + " "@ + info.name@ + " "@ + crate::slash::source_label_spec(
            info.source,
        ) + " "@ + info.workspace_cwd@,
{
    let target = switch_target(info);
    let description = crate::slash::picker_description(&info.dirty, info.source, info.workspace_cwd.as_str());
    let mut sel: Vec<char> = Vec::new();
    push_str(&mut sel, "Fork this chat into ");
    push_chars(&mut sel, str_chars(info.workspace_cwd.as_str()).as_slice());
    let mut search: Vec<char> = Vec::new();
    push_chars(&mut search, str_chars(target.as_str()).as_slice());
    push_str(&mut search, " ");
    push_chars(&mut search, str_chars(info.name.as_str()).as_slice());
    push_str(&mut search, " ");
    push_str(&mut search, crate::slash::source_label(info.source));
    push_str(&mut search, " ");
    push_chars(&mut search, str_chars(info.workspace_cwd.as_str()).as_slice());
    PickerRow {
        target,
        description,
        selected_description: chars_to_string(sel.as_slice()),
        search_value: chars_to_string(search.as_slice()),
    }
}

/// The status line while switching to `target`.
pub fn switching_status(target: &str) -> (r: String)
    ensures
        r@ == "Switching to "@ + target@ + "..."@,
{
    let mut out: Vec<char> = Vec::new();
    push_str(&mut out, "Switching to ");
    push_chars(&mut out, str_chars(target).as_slice());
    push_str(&mut out, "...");
    chars_to_string(out.as_slice())
}

/// The status line while creating `branch`.
pub fn creating_status(branch: &str) -> (r: String)
    ensures
        r@ == "Creating "@ + branch@ + "..."@,
{
    let mut out: Vec<char> = Vec::new();
    push_str(&mut out, "Creating ");
    push_chars(&mut out, str_chars(branch).as_slice());
    push_str(&mut out, "...");
    chars_to_string(out.as_slice())
}

/// The header of the removal confirmation.
pub fn remove_confirmation_title(target: &str) -> (r: String)
    ensures
        r@ == "Remove worktree "@ + target@ + "?"@,
{
    let mut out: Vec<char> = Vec::new();
    push_str(&mut out, "Remove worktree ");
    push_chars(&mut out, str_chars(target).as_slice());
    push_str(&mut out, "?");
    chars_to_string(out.as_slice())
}

/// The choices offered when the source checkout is dirty, in order, with
/// their descriptions.
pub open spec fn dirty_policy_options_spec() -> Seq<(Seq<char>, Seq<char>, DirtyPolicy)> {
    seq![
        ("Fail"@, "Cancel creation and leave the source checkout unchanged."@, DirtyPolicy::Fail),
        ("Ignore"@, "Create from the requested base without copying local changes."@, DirtyPolicy::Ignore),
        ("Copy tracked"@, "Copy staged and unstaged tracked changes."@, DirtyPolicy::CopyTracked),
        ("Copy all"@, "Copy tracked changes and untracked files."@, DirtyPolicy::CopyAll),
    ]
}

pub fn dirty_policy_options() -> (r: Vec<(&'static str, &'static str, DirtyPolicy)>)
    ensures
        r@.len() == 4,
        forall|i: int|
            0 <= i < 4 ==> (#[trigger] r@[i]).0@ == dirty_policy_options_spec()[i].0 && r@[i].1@
                == dirty_policy_options_spec()[i].1 && r@[i].2 == dirty_policy_options_spec()[i].2,
{
    let out = vec![
        ("Fail", "Cancel creation and leave the source checkout unchanged.", DirtyPolicy::Fail),
        ("Ignore", "Create from the requested base without copying local changes.", DirtyPolicy::Ignore),
        ("Copy tracked", "Copy staged and unstaged tracked changes.", DirtyPolicy::CopyTracked),
        ("Copy all", "Copy tracked changes and untracked files.", DirtyPolicy::CopyAll),
    ];
    out
}

/// Where a switch into a worktree stands.
#[derive(Clone, Copy, Debug, PartialEq, Eq, Structural)]
pub enum SwitchStage {
    /// The configuration for the worktree is being rebuilt.
    RebuildingConfig,
    /// The current thread is being forked into the worktree.
    Forking,
    /// A new thread is being started in the worktree.
    Starting,
    /// The chat is being attached to the new thread.
    Attaching,
    Done,
}

/// What the app reports back after carrying out a step.
#[derive(Clone, Copy, Debug, PartialEq, Eq, Structural)]
pub enum SwitchEvent {
    ConfigRebuilt { has_current_thread: bool },
    ConfigFailed,
    Forked,
    ForkFailed,
    Started,
    StartFailed,
    Attached,
    AttachFailed,
}

/// What the app does next, in order.
#[derive(Clone, Copy, Debug, PartialEq, Eq, Structural)]
pub enum SwitchAction {
    ForkThread,
    ShutdownCurrentThread,
    InstallConfig,
    StartThread,
    AttachThread,
    /// Show the step's error under the summary of the step.
    ShowError,
    RequestFrame,
}

pub struct SwitchStep {
    pub next: SwitchStage,
    pub actions: Vec<SwitchAction>,
    /// The summary of the failed step, shown above its error.
    pub error_summary: Option<&'static str>,
}

/// The switch after an event: a rebuilt configuration forks the current
/// thread, or (without one) shuts it down, installs the configuration and
/// starts a new thread; a fork shuts down, installs and attaches; a start
/// attaches; an attachment finishes with a redraw. Each failure shows its
/// summary with the error and ends the switch, with a redraw except when the
/// configuration could not be rebuilt. Events that do not belong to the
/// stage change nothing.
pub open spec fn switch_step_spec(stage: SwitchStage, event: SwitchEvent) -> (
    SwitchStage,
    Seq<SwitchAction>,
    Option<Seq<char>>,
) {
    match (stage, event) {
        (SwitchStage::RebuildingConfig, SwitchEvent::ConfigRebuilt { has_current_thread }) => if has_current_thread {
            (SwitchStage::Forking, seq![SwitchAction::ForkThread], None)
        } else {
            (
                SwitchStage::Starting,
                seq![SwitchAction::ShutdownCurrentThread, SwitchAction::InstallConfig, SwitchAction::StartThread],
                None,
            )
        },
        (SwitchStage::RebuildingConfig, SwitchEvent::ConfigFailed) => (
            SwitchStage::Done,
            seq![SwitchAction::ShowError],
            Some("Failed to rebuild configuration for worktree."@),
        ),
        (SwitchStage::Forking, SwitchEvent::Forked) => (
            SwitchStage::Attaching,
            seq![SwitchAction::ShutdownCurrentThread, SwitchAction::InstallConfig, SwitchAction::AttachThread],
            None,
        ),
        (SwitchStage::Forking, SwitchEvent::ForkFailed) => (
            SwitchStage::Done,
            seq![SwitchAction::ShowError, SwitchAction::RequestFrame],
            Some("Failed to fork current session into worktree."@),
        ),
        (SwitchStage::Starting, SwitchEvent::Started) => (SwitchStage::Attaching, seq![SwitchAction::AttachThread], None),
        (SwitchStage::Starting, SwitchEvent::StartFailed) => (
            SwitchStage::Done,
            seq![SwitchAction::ShowError, SwitchAction::RequestFrame],
            Some("Failed to start session in worktree."@),
        ),
        (SwitchStage::Attaching, SwitchEvent::Attached) => (SwitchStage::Done, seq![SwitchAction::RequestFrame], None),
        (SwitchStage::Attaching, SwitchEvent::AttachFailed) => (
            SwitchStage::Done,
            seq![SwitchAction::ShowError, SwitchAction::RequestFrame],
            Some("Failed to attach to worktree thread."@),
        ),
        _ => (stage, seq![], None),
    }
}

pub fn switch_step(stage: SwitchStage, event: SwitchEvent) -> (r: SwitchStep)
    ensures
        (r.next, r.actions@, match r.error_summary {
            Some(s) => Some(s@),
            None => None,
        }) == switch_step_spec(stage, event),
{
    match (stage, event) {
        (SwitchStage::RebuildingConfig, SwitchEvent::ConfigRebuilt { has_current_thread }) => {
            if has_current_thread {
                SwitchStep { next: SwitchStage::Forking, actions: vec![SwitchAction::ForkThread], error_summary: None }
            } else {
                SwitchStep {
                    next: SwitchStage::Starting,
                    actions: vec![
                        SwitchAction::ShutdownCurrentThread,
                        SwitchAction::InstallConfig,
                        SwitchAction::StartThread,
                    ],
                    error_summary: None,
                }
            }
        },
        (SwitchStage::RebuildingConfig, SwitchEvent::ConfigFailed) => SwitchStep {
            next: SwitchStage::Done,
            actions: vec![SwitchAction::ShowError],
            error_summary: Some("Failed to rebuild configuration for worktree."),
        },
        (SwitchStage::Forking, SwitchEvent::Forked) => SwitchStep {
            next: SwitchStage::Attaching,
            actions: vec![SwitchAction::ShutdownCurrentThread, SwitchAction::InstallConfig, SwitchAction::AttachThread],
            error_summary: None,
        },
        (SwitchStage::Forking, SwitchEvent::ForkFailed) => SwitchStep {
            next: SwitchStage::Done,
            actions: vec![SwitchAction::ShowError, SwitchAction::RequestFrame],
            error_summary: Some("Failed to fork current session into worktree."),
        },
        (SwitchStage::Starting, SwitchEvent::Started) => SwitchStep {
            next: SwitchStage::Attaching,
            actions: vec![SwitchAction::AttachThread],
            error_summary: None,
        },
        (SwitchStage::Starting, SwitchEvent::StartFailed) => SwitchStep {
            next: SwitchStage::Done,
            actions: vec![SwitchAction::ShowError, SwitchAction::RequestFrame],
            error_summary: Some("Failed to start session in worktree."),
        },
        (SwitchStage::Attaching, SwitchEvent::Attached) => SwitchStep {
            next: SwitchStage::Done,
            actions: vec![SwitchAction::RequestFrame],
            error_summary: None,
        },
        (SwitchStage::Attaching, SwitchEvent::AttachFailed) => SwitchStep {
            next: SwitchStage::Done,
            actions: vec![SwitchAction::ShowError, SwitchAction::RequestFrame],
            error_summary: Some("Failed to attach to worktree thread."),
        },
        _ => SwitchStep { next: stage, actions: Vec::new(), error_summary: None },
    }
}

/// A switch installs the worktree's configuration at most once and only
/// after the configuration was rebuilt, and it shuts the current thread down
/// only together with installing the configuration: in every step either
/// both happen or neither.
pub proof fn lemma_switch_installs_with_shutdown(stage: SwitchStage, event: SwitchEvent)
    ensures
        switch_step_spec(stage, event).1.contains(SwitchAction::InstallConfig) <==> switch_step_spec(
            stage,
            event,
        ).1.contains(SwitchAction::ShutdownCurrentThread),
        switch_step_spec(stage, event).1.contains(SwitchAction::InstallConfig) ==> stage
            == SwitchStage::RebuildingConfig || stage == SwitchStage::Forking,
        switch_step_spec(stage, event).2 is Some ==> switch_step_spec(stage, event).0 == SwitchStage::Done,
{
    let acts = switch_step_spec(stage, event).1;
    if acts.contains(SwitchAction::InstallConfig) {
        assert(acts.len() == 3);
        assert(acts[0] == SwitchAction::ShutdownCurrentThread);
    }
    if acts.contains(SwitchAction::ShutdownCurrentThread) {
        assert(acts.len() == 3);
        assert(acts[1] == SwitchAction::InstallConfig);
    }
}

} // verus!
