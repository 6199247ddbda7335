//! Reviewing hooks that are new or changed: which hooks need trust, the
//! review prompt as a state machine, and what the startup review does with
//! the user's choice.

use vstd::prelude::*;

use crate::text::{chars_to_string, push_decimal, push_str, str_to_string};
use crate::update_prompt::PromptKeyCode;

verus! {

/// Whether the user trusted a hook, and whether it changed since.
#[derive(Clone, Copy, Debug, PartialEq, Eq, Structural)]
pub enum HookTrustStatus {
    Trusted,
    Untrusted,
    Modified,
}

/// A configured hook: its key, its content hash, and its trust status.
#[derive(Clone, Debug, PartialEq, Eq)]
pub struct HookEntry {
    pub key: String,
    pub current_hash: String,
    pub trust_status: HookTrustStatus,
}

/// A hook needs review when it was never trusted or changed since.
pub open spec fn needs_review(h: HookEntry) -> bool {
    h.trust_status == HookTrustStatus::Untrusted || h.trust_status == HookTrustStatus::Modified
}

pub fn hook_needs_review(hook: &HookEntry) -> (r: bool)
    ensures
        r == needs_review(*hook),
{
    hook.trust_status == HookTrustStatus::Untrusted || hook.trust_status == HookTrustStatus::Modified
}

/// A trust to record: the hook's key and the hash being trusted.
#[derive(Clone, Debug, PartialEq, Eq)]
pub struct HookTrustUpdate {
    pub key: String,
    pub current_hash: String,
}

/// The (key, hash) of each hook that needs review, in order.
pub open spec fn pending_spec(hooks: Seq<HookEntry>) -> Seq<(Seq<char>, Seq<char>)>
    decreases hooks.len(),
{
    if hooks.len() == 0 {
        seq![]
    } else {
        let rest = pending_spec(hooks.drop_last());
        let h = hooks.last();
        if needs_review(h) {
            rest.push((h.key@, h.current_hash@))
        } else {
            rest
        }
    }
}

pub open spec fn updates_view(u: Seq<HookTrustUpdate>) -> Seq<(Seq<char>, Seq<char>)> {
    u.map_values(|x: HookTrustUpdate| (x.key@, x.current_hash@))
}

/// The trusts that "trust all" records: one per hook that needs review.
pub fn pending_trust_updates(hooks: &[HookEntry]) -> (r: Vec<HookTrustUpdate>)
    ensures
        updates_view(r@) == pending_spec(hooks@),
{
    let mut out: Vec<HookTrustUpdate> = Vec::new();
    let mut i: usize = 0;
    while i < hooks.len()
        invariant
            i <= hooks.len(),
            updates_view(out@) == pending_spec(hooks@.take(i as int)),
        decreases hooks.len() - i,
    {
        assert(hooks@.take(i as int + 1).drop_last() =~= hooks@.take(i as int));
        if hook_needs_review(&hooks[i]) {
            let ghost before = out@;
            out.push(
                HookTrustUpdate {
                    key: hooks[i].key.clone(),
                    current_hash: hooks[i].current_hash.clone(),
                },
            );
            assert(updates_view(out@) =~= updates_view(before).push(
                (hooks@[i as int].key@, hooks@[i as int].current_hash@),
            ));
        }
        i = i + 1;
    }
    assert(hooks@.take(hooks.len() as int) =~= hooks@);
    out
}

pub open spec fn count_line_spec(count: nat) -> Seq<char> {
    if count == 1 {
        "1 hook is new or changed."@
    } else {
        crate::text::decimal(count) + " hooks are new or changed."@
    }
}

/// The prompt's count line.
pub fn review_count_line(count: usize) -> (r: String)
    ensures
        r@ == count_line_spec(count as nat),
{
    if count == 1 {
        return str_to_string("1 hook is new or changed.");
    }
    let mut out: Vec<char> = Vec::new();
    push_decimal(&mut out, count as u64);
    push_str(&mut out, " hooks are new or changed.");
    chars_to_string(out.as_slice())
}

/// The three choices of the review prompt.
#[derive(Clone, Copy, Debug, PartialEq, Eq, Structural)]
pub enum HooksReviewSelection {
    ReviewHooks,
    TrustAllAndContinue,
    ContinueWithoutTrusting,
}

pub open spec fn down_spec(s: HooksReviewSelection) -> HooksReviewSelection {
    match s {
        HooksReviewSelection::ReviewHooks => HooksReviewSelection::TrustAllAndContinue,
        HooksReviewSelection::TrustAllAndContinue => HooksReviewSelection::ContinueWithoutTrusting,
        HooksReviewSelection::ContinueWithoutTrusting => HooksReviewSelection::ReviewHooks,
    }
}

pub open spec fn up_spec(s: HooksReviewSelection) -> HooksReviewSelection {
    match s {
        HooksReviewSelection::ReviewHooks => HooksReviewSelection::ContinueWithoutTrusting,
        HooksReviewSelection::TrustAllAndContinue => HooksReviewSelection::ReviewHooks,
        HooksReviewSelection::ContinueWithoutTrusting => HooksReviewSelection::TrustAllAndContinue,
    }
}

/// How a bottom-pane view ended.
#[derive(Clone, Copy, Debug, PartialEq, Eq, Structural)]
pub enum ViewCompletion {
    Accepted,
    Cancelled,
}

/// What choosing an option asks of the app.
#[derive(Clone, Copy, Debug, PartialEq, Eq, Structural)]
pub enum HooksReviewAction {
    Nothing,
    /// Open the hooks browser on the same hooks.
    OpenBrowser,
    /// Trust every hook that needs review.
    TrustAll,
}

/// The key codes the review prompt reacts to; `no_modifiers` says that no
/// modifier key was held.
#[derive(Clone, Copy, Debug, PartialEq, Eq, Structural)]
pub struct ReviewKey {
    pub code: PromptKeyCode,
    pub no_modifiers: bool,
}

/// The hooks review prompt in the bottom pane.
pub struct HooksReviewPromptView {
    pub hooks: Vec<HookEntry>,
    pub highlighted: HooksReviewSelection,
    pub completion: Option<ViewCompletion>,
}

pub open spec fn choose_spec(s: HooksReviewSelection) -> (ViewCompletion, HooksReviewAction) {
    match s {
        HooksReviewSelection::ReviewHooks => (ViewCompletion::Accepted, HooksReviewAction::OpenBrowser),
        HooksReviewSelection::TrustAllAndContinue => (ViewCompletion::Accepted, HooksReviewAction::TrustAll),
        HooksReviewSelection::ContinueWithoutTrusting => (ViewCompletion::Cancelled, HooksReviewAction::Nothing),
    }
}

/// The prompt's (highlight, completion) after a key, and the action asked for.
pub open spec fn review_key_step(
    h: HooksReviewSelection,
    c: Option<ViewCompletion>,
    key: ReviewKey,
) -> (HooksReviewSelection, Option<ViewCompletion>, HooksReviewAction) {
    if key.code == PromptKeyCode::Up || (key.code == PromptKeyCode::Char('k') && key.no_modifiers) {
        (up_spec(h), c, HooksReviewAction::Nothing)
    } else if key.code == PromptKeyCode::Down || (key.code == PromptKeyCode::Char('j') && key.no_modifiers) {
        (down_spec(h), c, HooksReviewAction::Nothing)
    } else if key.code == PromptKeyCode::Char('1') && key.no_modifiers {
        (HooksReviewSelection::ReviewHooks, Some(choose_spec(HooksReviewSelection::ReviewHooks).0), choose_spec(HooksReviewSelection::ReviewHooks).1)
    } else if key.code == PromptKeyCode::Char('2') && key.no_modifiers {
        (HooksReviewSelection::TrustAllAndContinue, Some(choose_spec(HooksReviewSelection::TrustAllAndContinue).0), choose_spec(HooksReviewSelection::TrustAllAndContinue).1)
    } else if key.code == PromptKeyCode::Char('3') && key.no_modifiers {
        (HooksReviewSelection::ContinueWithoutTrusting, Some(choose_spec(HooksReviewSelection::ContinueWithoutTrusting).0), choose_spec(HooksReviewSelection::ContinueWithoutTrusting).1)
    } else if key.code == PromptKeyCode::Enter && key.no_modifiers {
        (h, Some(choose_spec(h).0), choose_spec(h).1)
    } else if key.code == PromptKeyCode::Esc {
        (h, Some(ViewCompletion::Cancelled), HooksReviewAction::Nothing)
    } else {
        (h, c, HooksReviewAction::Nothing)
    }
}

impl HooksReviewPromptView {
    pub fn new(hooks: Vec<HookEntry>) -> (r: Self)
        ensures
            r.hooks@ == hooks@,
            r.highlighted == HooksReviewSelection::ReviewHooks,
            r.completion is None,
    {
        HooksReviewPromptView { hooks, highlighted: HooksReviewSelection::ReviewHooks, completion: None }
    }

    /// How many hooks need review.
    pub fn review_needed_count(&self) -> (r: usize)
        ensures
            r as int == pending_spec(self.hooks@).len(),
    {
        let mut n: usize = 0;
        let mut i: usize = 0;
        while i < self.hooks.len()
            invariant
                i <= self.hooks.len(),
                n as int == pending_spec(self.hooks@.take(i as int)).len(),
                n <= i,
            decreases self.hooks.len() - i,
        {
            assert(self.hooks@.take(i as int + 1).drop_last() =~= self.hooks@.take(i as int));
            if hook_needs_review(&self.hooks[i]) {
                n = n + 1;
            }
            i = i + 1;
        }
        assert(self.hooks@.take(self.hooks.len() as int) =~= self.hooks@);
        n
    }

    fn choose_highlighted(&mut self) -> (r: HooksReviewAction)
        ensures
            (final(self).completion, r) == (Some(choose_spec(old(self).highlighted).0), choose_spec(
                old(self).highlighted,
            ).1),
            final(self).highlighted == old(self).highlighted,
            final(self).hooks@ == old(self).hooks@,
    {
        match self.highlighted {
            HooksReviewSelection::ReviewHooks => {
                self.completion = Some(ViewCompletion::Accepted);
                HooksReviewAction::OpenBrowser
            },
            HooksReviewSelection::TrustAllAndContinue => {
                self.completion = Some(ViewCompletion::Accepted);
                HooksReviewAction::TrustAll
            },
            HooksReviewSelection::ContinueWithoutTrusting => {
                self.completion = Some(ViewCompletion::Cancelled);
                HooksReviewAction::Nothing
            },
        }
    }

    /// Handles a key: arrows (and `k`/`j`) move round the options, `1`-`3`
    /// choose one, Enter chooses the highlighted one, Esc cancels. Returns
    /// the action the choice asks for.
    pub fn handle_key(&mut self, key: ReviewKey) -> (r: HooksReviewAction)
        ensures
            (final(self).highlighted, final(self).completion, r) == review_key_step(
                old(self).highlighted,
                old(self).completion,
                key,
            ),
            final(self).hooks@ == old(self).hooks@,
    {
        let code = key.code;
        if code == PromptKeyCode::Up || (code == PromptKeyCode::Char('k') && key.no_modifiers) {
            self.highlighted = match self.highlighted {
                HooksReviewSelection::ReviewHooks => HooksReviewSelection::ContinueWithoutTrusting,
                HooksReviewSelection::TrustAllAndContinue => HooksReviewSelection::ReviewHooks,
                HooksReviewSelection::ContinueWithoutTrusting => HooksReviewSelection::TrustAllAndContinue,
            };
            HooksReviewAction::Nothing
        } else if code == PromptKeyCode::Down || (code == PromptKeyCode::Char('j') && key.no_modifiers) {
            self.highlighted = match self.highlighted {
                HooksReviewSelection::ReviewHooks => HooksReviewSelection::TrustAllAndContinue,
                HooksReviewSelection::TrustAllAndContinue => HooksReviewSelection::ContinueWithoutTrusting,
                HooksReviewSelection::ContinueWithoutTrusting => HooksReviewSelection::ReviewHooks,
            };
            HooksReviewAction::Nothing
        } else if code == PromptKeyCode::Char('1') && key.no_modifiers {
            self.highlighted = HooksReviewSelection::ReviewHooks;
            self.choose_highlighted()
        } else if code == PromptKeyCode::Char('2') && key.no_modifiers {
            self.highlighted = HooksReviewSelection::TrustAllAndContinue;
            self.choose_highlighted()
        } else if code == PromptKeyCode::Char('3') && key.no_modifiers {
            self.highlighted = HooksReviewSelection::ContinueWithoutTrusting;
            self.choose_highlighted()
        } else if code == PromptKeyCode::Enter && key.no_modifiers {
            self.choose_highlighted()
        } else if code == PromptKeyCode::Esc {
            self.completion = Some(ViewCompletion::Cancelled);
            HooksReviewAction::Nothing
        } else {
            HooksReviewAction::Nothing
        }
    }

    /// Control-C cancels the prompt.
    pub fn on_ctrl_c(&mut self)
        ensures
            final(self).completion == Some(ViewCompletion::Cancelled),
            final(self).highlighted == old(self).highlighted,
            final(self).hooks@ == old(self).hooks@,
    {
        self.completion = Some(ViewCompletion::Cancelled);
    }

    pub fn is_complete(&self) -> (r: bool)
        ensures
            r == self.completion is Some,
    {
        self.completion.is_some()
    }
}

pub open spec fn option_line_spec(index: nat, label: Seq<char>, selected: bool) -> Seq<char> {
    seq![if selected { '›' } else { ' ' }, ' '] + crate::text::decimal(index + 1) + ". "@ + label
}

/// One option of the prompt: a marker for the highlighted one, then the
/// 1-based number and the label.
pub fn option_line(index: usize, label: &str, is_selected: bool) -> (r: String)
    requires
        index < u64::MAX,
    ensures
        r@ == option_line_spec(index as nat, label@, is_selected),
{
    let mut out: Vec<char> = Vec::new();
    out.push(if is_selected { '›' } else { ' ' });
    out.push(' ');
    push_decimal(&mut out, (index as u64) + 1);
    push_str(&mut out, ". ");
    push_str(&mut out, label);
    assert(out@ =~= option_line_spec(index as nat, label@, is_selected));
    chars_to_string(out.as_slice())
}

/// The choice read off the startup review list: a finished list's selected
/// row (none selected counts as continuing without trust).
pub fn selected_choice(is_complete: bool, selected_index: Option<usize>) -> (r: Option<HooksReviewSelection>)
    ensures
        !is_complete ==> r is None,
        is_complete ==> r == (match selected_index {
            Some(0) => Some(HooksReviewSelection::ReviewHooks),
            Some(1) => Some(HooksReviewSelection::TrustAllAndContinue),
            Some(2) | None => Some(HooksReviewSelection::ContinueWithoutTrusting),
            Some(_) => None,
        }),
{
    if !is_complete {
        return None;
    }
    match selected_index {
        Some(0) => Some(HooksReviewSelection::ReviewHooks),
        Some(1) => Some(HooksReviewSelection::TrustAllAndContinue),
        Some(2) | None => Some(HooksReviewSelection::ContinueWithoutTrusting),
        Some(_) => None,
    }
}

/// The line under the header of the startup review: the last trust error,
/// else a progress note while trusting all.
pub fn review_status_line(trust_all_error: Option<&str>, trusting_all: bool) -> (r: Option<String>)
    ensures
        trust_all_error is Some ==> (r matches Some(s) && s@ == trust_all_error->0@),
        trust_all_error is None && trusting_all ==> (r matches Some(s) && s@ == "Trusting hooks..."@),
        trust_all_error is None && !trusting_all ==> r is None,
{
    match trust_all_error {
        Some(e) => Some(str_to_string(e)),
        None => {
            if trusting_all {
                Some(str_to_string("Trusting hooks..."))
            } else {
                None
            }
        },
    }
}

/// How the startup review ends.
#[derive(Clone, Copy, Debug, PartialEq, Eq, Structural)]
pub enum StartupReviewOutcome {
    Continue,
    OpenHooksBrowser,
}

/// What the startup review loop hears: the end of the terminal's events, a
/// key handled by the list (with the choice the list now reports, if
/// finished), a redraw or resize, a paste, or how writing the trusts went.
#[derive(Clone, Debug, PartialEq, Eq)]
pub enum StartupReviewEvent {
    EventsEnded,
    KeyHandled(Option<HooksReviewSelection>),
    Redraw,
    Paste,
    TrustsWritten,
    TrustFailed(String),
}

/// The review's state: the last trust error and whether trusting is under way.
#[derive(Clone, Debug, PartialEq, Eq)]
pub struct StartupReviewState {
    pub trust_all_error: Option<String>,
    pub trusting_all: bool,
}

/// What the loop does after an event.
#[derive(Clone, Copy, Debug, PartialEq, Eq, Structural)]
pub struct StartupReviewStep {
    /// The review is over.
    pub outcome: Option<StartupReviewOutcome>,
    /// Draw the prompt again (with the state's status line).
    pub redraw: bool,
    /// Record trust for every hook that needs review.
    pub write_trusts: bool,
}

pub open spec fn trust_failure_message(err: Seq<char>) -> Seq<char> {
    "Failed to trust hooks: "@ + err
}

pub open spec fn startup_step_spec(
    state: (Option<Seq<char>>, bool),
    event: StartupReviewEvent,
) -> ((Option<Seq<char>>, bool), (Option<StartupReviewOutcome>, bool, bool)) {
    match event {
        StartupReviewEvent::EventsEnded => (state, (Some(StartupReviewOutcome::Continue), false, false)),
        StartupReviewEvent::KeyHandled(None) => (state, (None, true, false)),
        StartupReviewEvent::KeyHandled(Some(HooksReviewSelection::ReviewHooks)) => (
            state,
            (Some(StartupReviewOutcome::OpenHooksBrowser), false, false),
        ),
        StartupReviewEvent::KeyHandled(Some(HooksReviewSelection::ContinueWithoutTrusting)) => (
            state,
            (Some(StartupReviewOutcome::Continue), false, false),
        ),
        StartupReviewEvent::KeyHandled(Some(HooksReviewSelection::TrustAllAndContinue)) => (
            (state.0, true),
            (None, true, true),
        ),
        StartupReviewEvent::Redraw => (state, (None, true, false)),
        StartupReviewEvent::Paste => (state, (None, false, false)),
        StartupReviewEvent::TrustsWritten => (state, (Some(StartupReviewOutcome::Continue), false, false)),
        StartupReviewEvent::TrustFailed(e) => ((Some(trust_failure_message(e@)), false), (None, true, false)),
    }
}

impl StartupReviewState {
    pub fn new() -> (r: Self)
        ensures
            r.trust_all_error is None,
            !r.trusting_all,
    {
        StartupReviewState { trust_all_error: None, trusting_all: false }
    }

    /// Applies an event of the startup review loop.
    pub fn step(&mut self, event: StartupReviewEvent) -> (r: StartupReviewStep)
        ensures
            ((crate::worktree::opt_view(final(self).trust_all_error), final(self).trusting_all), (
                r.outcome,
                r.redraw,
                r.write_trusts,
            )) == startup_step_spec(
                (crate::worktree::opt_view(old(self).trust_all_error), old(self).trusting_all),
                event,
            ),
    {
        let none = StartupReviewStep { outcome: None, redraw: false, write_trusts: false };
        match event {
            StartupReviewEvent::EventsEnded | StartupReviewEvent::TrustsWritten => StartupReviewStep {
                outcome: Some(StartupReviewOutcome::Continue),
                ..none
            },
            StartupReviewEvent::KeyHandled(None) | StartupReviewEvent::Redraw => StartupReviewStep {
                redraw: true,
                ..none
            },
            StartupReviewEvent::KeyHandled(Some(HooksReviewSelection::ReviewHooks)) => StartupReviewStep {
                outcome: Some(StartupReviewOutcome::OpenHooksBrowser),
                ..none
            },
            StartupReviewEvent::KeyHandled(Some(HooksReviewSelection::ContinueWithoutTrusting)) => {
                StartupReviewStep { outcome: Some(StartupReviewOutcome::Continue), ..none }
            },
            StartupReviewEvent::KeyHandled(Some(HooksReviewSelection::TrustAllAndContinue)) => {
                self.trusting_all = true;
                StartupReviewStep { redraw: true, write_trusts: true, ..none }
            },
            StartupReviewEvent::Paste => none,
            StartupReviewEvent::TrustFailed(e) => {
                let mut out: Vec<char> = Vec::new();
                push_str(&mut out, "Failed to trust hooks: ");
                crate::text::push_chars(&mut out, crate::text::str_chars(e.as_str()).as_slice());
                self.trust_all_error = Some(chars_to_string(out.as_slice()));
                self.trusting_all = false;
                StartupReviewStep { redraw: true, ..none }
            },
        }
    }
}

/// The startup review runs only when some hook needs review.
pub fn should_run_startup_review(hooks: &[HookEntry]) -> (r: bool)
    ensures
        r == (pending_spec(hooks@).len() > 0),
{
    let updates = pending_trust_updates(hooks);
    updates.len() > 0
}

} // verus!
