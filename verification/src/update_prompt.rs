//! The update prompt and the remediation prompt as state machines: each key
//! press moves the screen to its next state and says whether to redraw.

use vstd::prelude::*;

use crate::text::{chars_to_string, push_chars, push_str, str_chars, str_to_string};
use crate::update::{remediation_lines_spec, UpdateAction, UpdateActionStatus, UpdateBlocker};
use crate::update_notice::UpgradeNotice;

verus! {

/// The key codes the prompts react to; every other key is `Other`.
#[derive(Clone, Copy, Debug, PartialEq, Eq, Structural)]
pub enum PromptKeyCode {
    Up,
    Down,
    Char(char),
    Enter,
    Esc,
    Other,
}

/// A key event: its code, whether Control was held, and whether it is a
/// key release.
#[derive(Clone, Copy, Debug, PartialEq, Eq, Structural)]
pub struct PromptKey {
    pub code: PromptKeyCode,
    pub control: bool,
    pub release: bool,
}

#[derive(Clone, Copy, Debug, PartialEq, Eq, Structural)]
pub enum UpdateSelection {
    UpdateNow,
    NotNow,
    DontRemind,
}

pub open spec fn next_spec(s: UpdateSelection) -> UpdateSelection {
    match s {
        UpdateSelection::UpdateNow => UpdateSelection::NotNow,
        UpdateSelection::NotNow => UpdateSelection::DontRemind,
        UpdateSelection::DontRemind => UpdateSelection::UpdateNow,
    }
}

pub open spec fn prev_spec(s: UpdateSelection) -> UpdateSelection {
    match s {
        UpdateSelection::UpdateNow => UpdateSelection::DontRemind,
        UpdateSelection::NotNow => UpdateSelection::UpdateNow,
        UpdateSelection::DontRemind => UpdateSelection::NotNow,
    }
}

impl UpdateSelection {
    /// The option below this one, wrapping from the last to the first.
    pub fn next(self) -> (r: Self)
        ensures
            r == next_spec(self),
    {
        match self {
            UpdateSelection::UpdateNow => UpdateSelection::NotNow,
            UpdateSelection::NotNow => UpdateSelection::DontRemind,
            UpdateSelection::DontRemind => UpdateSelection::UpdateNow,
        }
    }

    /// The option above this one, wrapping from the first to the last.
    pub fn prev(self) -> (r: Self)
        ensures
            r == prev_spec(self),
    {
        match self {
            UpdateSelection::UpdateNow => UpdateSelection::DontRemind,
            UpdateSelection::NotNow => UpdateSelection::UpdateNow,
            UpdateSelection::DontRemind => UpdateSelection::NotNow,
        }
    }
}

/// Moving down and then up, or up and then down, returns to the same option;
/// three moves in one direction go all the way round.
pub proof fn lemma_selection_cycle(s: UpdateSelection)
    ensures
        prev_spec(next_spec(s)) == s,
        next_spec(prev_spec(s)) == s,
        next_spec(next_spec(next_spec(s))) == s,
        prev_spec(prev_spec(prev_spec(s))) == s,
{
}

/// The update prompt: which option is highlighted, and which was chosen.
pub struct UpdatePromptScreen {
    pub latest_version: String,
    pub current_version: String,
    pub update_action: UpdateAction,
    pub highlighted: UpdateSelection,
    pub selection: Option<UpdateSelection>,
}

/// Control-C or Control-D.
pub open spec fn is_interrupt(key: PromptKey) -> bool {
    key.control && (key.code == PromptKeyCode::Char('c') || key.code == PromptKeyCode::Char('d'))
}

/// The prompt's (highlighted, chosen) state after a key, and whether it
/// asks for a redraw.
pub open spec fn prompt_step(
    highlighted: UpdateSelection,
    selection: Option<UpdateSelection>,
    key: PromptKey,
) -> (UpdateSelection, Option<UpdateSelection>, bool) {
    if key.release {
        (highlighted, selection, false)
    } else if is_interrupt(key) {
        (UpdateSelection::NotNow, Some(UpdateSelection::NotNow), true)
    } else {
        match key.code {
            PromptKeyCode::Up | PromptKeyCode::Char('k') => {
                let h = prev_spec(highlighted);
                (h, selection, h != highlighted)
            },
            PromptKeyCode::Down | PromptKeyCode::Char('j') => {
                let h = next_spec(highlighted);
                (h, selection, h != highlighted)
            },
            PromptKeyCode::Char('1') => (
                UpdateSelection::UpdateNow,
                Some(UpdateSelection::UpdateNow),
                true,
            ),
            PromptKeyCode::Char('2') => (UpdateSelection::NotNow, Some(UpdateSelection::NotNow), true),
            PromptKeyCode::Char('3') => (
                UpdateSelection::DontRemind,
                Some(UpdateSelection::DontRemind),
                true,
            ),
            PromptKeyCode::Enter => (highlighted, Some(highlighted), true),
            PromptKeyCode::Esc => (UpdateSelection::NotNow, Some(UpdateSelection::NotNow), true),
            _ => (highlighted, selection, false),
        }
    }
}

impl UpdatePromptScreen {
    /// A prompt offering `latest_version` over `current_version`, with
    /// "update now" highlighted and nothing chosen yet.
    pub fn new(latest_version: String, current_version: String, update_action: UpdateAction) -> (r:
        Self)
        ensures
            r.latest_version == latest_version,
            r.current_version == current_version,
            r.update_action == update_action,
            r.highlighted == UpdateSelection::UpdateNow,
            r.selection is None,
    {
        UpdatePromptScreen {
            latest_version,
            current_version,
            update_action,
            highlighted: UpdateSelection::UpdateNow,
            selection: None,
        }
    }

    /// Moves the highlight; returns whether it changed (and a redraw is due).
    pub fn set_highlight(&mut self, highlight: UpdateSelection) -> (redraw: bool)
        ensures
            final(self).highlighted == highlight,
            final(self).selection == old(self).selection,
            final(self).latest_version == old(self).latest_version,
            final(self).current_version == old(self).current_version,
            final(self).update_action == old(self).update_action,
            redraw == (old(self).highlighted != highlight),
    {
        if self.highlighted != highlight {
            self.highlighted = highlight;
            true
        } else {
            false
        }
    }

    /// Chooses `selection`, which also becomes the highlight; a redraw is due.
    pub fn select(&mut self, selection: UpdateSelection) -> (redraw: bool)
        ensures
            final(self).highlighted == selection,
            final(self).selection == Some(selection),
            final(self).latest_version == old(self).latest_version,
            final(self).current_version == old(self).current_version,
            final(self).update_action == old(self).update_action,
            redraw,
    {
        self.highlighted = selection;
        self.selection = Some(selection);
        true
    }

    /// Handles a key: arrows (and `k`/`j`) move the highlight round the
    /// options, `1`-`3` choose one directly, Enter chooses the highlighted
    /// one, and Esc, Control-C or Control-D choose "not now". Key releases
    /// and other keys change nothing. Returns whether a redraw is due.
    pub fn handle_key(&mut self, key: PromptKey) -> (redraw: bool)
        ensures
            (final(self).highlighted, final(self).selection, redraw) == prompt_step(
                old(self).highlighted,
                old(self).selection,
                key,
            ),
            final(self).latest_version == old(self).latest_version,
            final(self).current_version == old(self).current_version,
            final(self).update_action == old(self).update_action,
    {
        if key.release {
            return false;
        }
        if key.control && (key.code == PromptKeyCode::Char('c') || key.code == PromptKeyCode::Char(
            'd',
        )) {
            return self.select(UpdateSelection::NotNow);
        }
        match key.code {
            PromptKeyCode::Up => {
                let h = self.highlighted.prev();
                self.set_highlight(h)
            },
            PromptKeyCode::Down => {
                let h = self.highlighted.next();
                self.set_highlight(h)
            },
            PromptKeyCode::Char(c) => {
                if c == 'k' {
                    let h = self.highlighted.prev();
                    self.set_highlight(h)
                } else if c == 'j' {
                    let h = self.highlighted.next();
                    self.set_highlight(h)
                } else if c == '1' {
                    self.select(UpdateSelection::UpdateNow)
                } else if c == '2' {
                    self.select(UpdateSelection::NotNow)
                } else if c == '3' {
                    self.select(UpdateSelection::DontRemind)
                } else {
                    false
                }
            },
            PromptKeyCode::Enter => {
                let h = self.highlighted;
                self.select(h)
            },
            PromptKeyCode::Esc => self.select(UpdateSelection::NotNow),
            PromptKeyCode::Other => false,
        }
    }

    pub fn is_done(&self) -> (r: bool)
        ensures
            r == self.selection is Some,
    {
        self.selection.is_some()
    }

    pub fn selection(&self) -> (r: Option<UpdateSelection>)
        ensures
            r == self.selection,
    {
        self.selection
    }

    pub fn latest_version(&self) -> (r: &str)
        ensures
            r@ == self.latest_version@,
    {
        self.latest_version.as_str()
    }
}

/// Why the remediation prompt is shown.
#[derive(Clone, Debug)]
pub enum RemediationPromptReason {
    Blocked(UpdateBlocker),
    NoOpUpdate { latest_version: String },
}

pub open spec fn no_op_lines_spec(current: Seq<char>, latest: Seq<char>) -> Seq<Seq<char>> {
    seq![
        "The previous update command completed, but this Codex executable did not change."@,
        "Codex is still running "@ + current + " while "@ + latest + " is available."@,
        "Check which `codex` your shell runs before trying again."@,
    ]
}

impl RemediationPromptReason {
    /// The explanation shown in the prompt; `current_version` is the version
    /// of the running executable.
    pub fn lines(&self, current_version: &str) -> (r: Vec<String>)
        ensures
            crate::text::string_seqs(r@) == match *self {
                RemediationPromptReason::Blocked(
                    UpdateBlocker::NpmGlobalRootMismatch { running_package_root, npm_package_root },
                ) => remediation_lines_spec(running_package_root@, npm_package_root@),
                RemediationPromptReason::NoOpUpdate { latest_version } => no_op_lines_spec(
                    current_version@,
                    latest_version@,
                ),
            },
    {
        match self {
            RemediationPromptReason::Blocked(blocker) => blocker.remediation_lines(),
            RemediationPromptReason::NoOpUpdate { latest_version } => {
                let mut lines: Vec<String> = Vec::new();
                lines.push(
                    str_to_string(
                        "The previous update command completed, but this Codex executable did not change.",
                    ),
                );
                let mut out: Vec<char> = Vec::new();
                push_str(&mut out, "Codex is still running ");
                push_chars(&mut out, str_chars(current_version).as_slice());
                push_str(&mut out, " while ");
                push_chars(&mut out, str_chars(latest_version.as_str()).as_slice());
                push_str(&mut out, " is available.");
                lines.push(chars_to_string(out.as_slice()));
                lines.push(str_to_string("Check which `codex` your shell runs before trying again."));
                assert(crate::text::string_seqs(lines@) =~= no_op_lines_spec(
                    current_version@,
                    latest_version@,
                ));
                lines
            },
        }
    }
}

/// The remediation prompt: an explanation that stays until dismissed.
pub struct RemediationPromptScreen {
    pub reason: RemediationPromptReason,
    pub done: bool,
}

impl RemediationPromptScreen {
    pub fn new(reason: RemediationPromptReason) -> (r: Self)
        ensures
            r.reason == reason,
            !r.done,
    {
        RemediationPromptScreen { reason, done: false }
    }

    /// Handles a key: Enter, Esc, Control-C and Control-D dismiss the
    /// prompt; key releases and other keys do nothing. Returns whether a
    /// redraw is due.
    pub fn handle_key(&mut self, key: PromptKey) -> (redraw: bool)
        ensures
            redraw == (!key.release && (is_interrupt(key) || key.code == PromptKeyCode::Enter
                || key.code == PromptKeyCode::Esc)),
            final(self).done == (old(self).done || redraw),
    {
        if key.release {
            return false;
        }
        if key.control && (key.code == PromptKeyCode::Char('c') || key.code == PromptKeyCode::Char(
            'd',
        )) {
            self.finish();
            return true;
        }
        match key.code {
            PromptKeyCode::Enter | PromptKeyCode::Esc => {
                self.finish();
                true
            },
            _ => false,
        }
    }

    pub fn finish(&mut self)
        ensures
            final(self).done,
    {
        self.done = true;
    }

    pub fn is_done(&self) -> (r: bool)
        ensures
            r == self.done,
    {
        self.done
    }
}

/// An update that the prompt decided to run when the TUI exits.
#[derive(Clone, Debug)]
pub struct PromptedUpdate {
    pub action: UpdateAction,
    pub target_version: String,
    pub version_file: String,
}

/// What to do about a notice before any prompt is drawn.
#[derive(Clone, Debug)]
pub enum UpdatePromptPlan {
    /// Nothing to show.
    Continue,
    /// Explain why the update cannot help, then go on.
    Remediate(RemediationPromptReason),
    /// Explain that the last update did nothing, then stop reminding of
    /// this version.
    RemediateThenSuppress(RemediationPromptReason, String),
    /// Ask whether to run `action` to reach the version.
    Ask(String, UpdateAction),
}

/// The plan for a popup notice. For an available update it needs the
/// update status (`status`), which is asked for only then.
pub fn plan_update_prompt(notice: Option<UpgradeNotice>, status: Option<UpdateActionStatus>) -> (r:
    UpdatePromptPlan)
    requires
        notice matches Some(UpgradeNotice::Available(_)) ==> status is Some,
    ensures
        notice is None ==> r is Continue,
        notice matches Some(UpgradeNotice::RemediationNeeded(v)) ==> r matches UpdatePromptPlan::RemediateThenSuppress(
            RemediationPromptReason::NoOpUpdate { latest_version },
            s,
        ) && latest_version@ == v@ && s@ == v@,
        notice matches Some(UpgradeNotice::Available(v)) ==> match status->0 {
            UpdateActionStatus::Ready(a) => r matches UpdatePromptPlan::Ask(l, b) && l@ == v@ && b == a,
            UpdateActionStatus::Blocked(blocker) => r matches UpdatePromptPlan::Remediate(
                RemediationPromptReason::Blocked(b),
            ) && b == blocker,
            UpdateActionStatus::Unavailable => r is Continue,
        },
{
    match notice {
        None => UpdatePromptPlan::Continue,
        Some(UpgradeNotice::RemediationNeeded(latest)) => {
            let again = latest.clone();
            UpdatePromptPlan::RemediateThenSuppress(
                RemediationPromptReason::NoOpUpdate { latest_version: latest },
                again,
            )
        },
        Some(UpgradeNotice::Available(latest)) => match status {
            Some(UpdateActionStatus::Ready(action)) => UpdatePromptPlan::Ask(latest, action),
            Some(UpdateActionStatus::Blocked(blocker)) => UpdatePromptPlan::Remediate(
                RemediationPromptReason::Blocked(blocker),
            ),
            _ => UpdatePromptPlan::Continue,
        },
    }
}

/// The outcome once the update prompt is closed.
#[derive(Clone, Debug)]
pub enum UpdatePromptOutcome {
    Continue,
    RunUpdate(PromptedUpdate),
}

/// What the prompt's choice leads to: "update now" runs the update, "don't
/// remind" goes on but dismisses the version (second result), and "not now"
/// or no choice at all goes on.
pub fn prompt_outcome(
    selection: Option<UpdateSelection>,
    action: UpdateAction,
    latest_version: String,
    version_file: String,
) -> (r: (UpdatePromptOutcome, Option<String>))
    ensures
        selection == Some(UpdateSelection::UpdateNow) ==> r.1 is None && (r.0 matches UpdatePromptOutcome::RunUpdate(
            p,
        ) && p.action == action && p.target_version@ == latest_version@ && p.version_file@
            == version_file@),
        selection == Some(UpdateSelection::DontRemind) ==> r.0 is Continue && (r.1 matches Some(v)
            && v@ == latest_version@),
        (selection is None || selection == Some(UpdateSelection::NotNow)) ==> r.0 is Continue
            && r.1 is None,
{
    match selection {
        Some(UpdateSelection::UpdateNow) => (
            UpdatePromptOutcome::RunUpdate(
                PromptedUpdate { action, target_version: latest_version, version_file },
            ),
            None,
        ),
        Some(UpdateSelection::DontRemind) => (UpdatePromptOutcome::Continue, Some(latest_version)),
        _ => (UpdatePromptOutcome::Continue, None),
    }
}

/// The prompt's version note: `<current> -> <latest>`.
pub fn version_change(current_version: &str, latest_version: &str) -> (r: String)
    ensures
        r@ == current_version@ + " -> "@ + latest_version@,
{
    let mut out: Vec<char> = Vec::new();
    push_chars(&mut out, str_chars(current_version).as_slice());
    push_str(&mut out, " -> ");
    push_chars(&mut out, str_chars(latest_version).as_slice());
    chars_to_string(out.as_slice())
}

/// The prompt's options, in the order of [`UpdateSelection`]: update now
/// (naming the command it runs), skip, and skip until the next version.
pub fn update_option_labels(update_command: &str) -> (r: Vec<String>)
    ensures
        r@.len() == 3,
        r@[0]@ == "Update now (runs `"@ + update_command@ + "`)"@,
        r@[1]@ == "Skip"@,
        r@[2]@ == "Skip until next version"@,
{
    let mut first: Vec<char> = Vec::new();
    push_str(&mut first, "Update now (runs `");
    push_chars(&mut first, str_chars(update_command).as_slice());
    push_str(&mut first, "`)");
    let mut out: Vec<String> = Vec::new();
    out.push(chars_to_string(first.as_slice()));
    out.push(str_to_string("Skip"));
    out.push(str_to_string("Skip until next version"));
    out
}

} // verus!
