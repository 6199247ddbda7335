//! Rules of the subagent status panel: agent statuses and which of them are
//! shown or animated, names derived from a task prompt, ordinals, the bounded
//! buffer of early events, the registry that routes each thread's events to
//! its agent, and when the root thread is active.

use std::collections::HashMap;
use vstd::prelude::*;

use crate::text::{
    ascii_lower, chars_to_string, is_ascii_alnum, push_str, str_chars, str_to_string, trim, words,
};

verus! {

/// What a subagent is doing.
#[derive(Clone, Debug, PartialEq, Eq)]
pub enum AgentStatus {
    PendingInit,
    Running,
    Completed(Option<String>),
    Errored(String),
    Interrupted,
    Shutdown,
    NotFound,
}

/// A status that no later event of the agent changes.
pub open spec fn terminal_spec(s: AgentStatus) -> bool {
    s is Completed || s is Errored || s is Shutdown || s is NotFound
}

pub fn is_terminal_status(status: &AgentStatus) -> (r: bool)
    ensures
        r == terminal_spec(*status),
{
    match status {
        AgentStatus::Completed(_) | AgentStatus::Errored(_) | AgentStatus::Shutdown | AgentStatus::NotFound => {
            true
        },
        _ => false,
    }
}

/// The collab-protocol status of an agent.
#[derive(Clone, Copy, Debug, PartialEq, Eq, Structural)]
pub enum CollabAgentStatus {
    PendingInit,
    Running,
    Completed,
    Errored,
    Interrupted,
    Shutdown,
    NotFound,
}

#[derive(Clone, Debug, PartialEq, Eq)]
pub struct CollabAgentState {
    pub status: CollabAgentStatus,
    pub message: Option<String>,
}

/// The agent status a collab state reports; an error without a message
/// gets an empty one.
pub fn app_server_collab_state_to_agent_status(state: &CollabAgentState) -> (r: AgentStatus)
    ensures
        match state.status {
            CollabAgentStatus::PendingInit => r is PendingInit,
            CollabAgentStatus::Running => r is Running,
            CollabAgentStatus::Completed => r matches AgentStatus::Completed(m)
                && crate::worktree::opt_view(m) == crate::worktree::opt_view(state.message),
            CollabAgentStatus::Errored => r matches AgentStatus::Errored(m) && m@ == (match state.message {
                Some(x) => x@,
                None => seq![],
            }),
            CollabAgentStatus::Interrupted => r is Interrupted,
            CollabAgentStatus::Shutdown => r is Shutdown,
            CollabAgentStatus::NotFound => r is NotFound,
        },
{
    match state.status {
        CollabAgentStatus::PendingInit => AgentStatus::PendingInit,
        CollabAgentStatus::Running => AgentStatus::Running,
        CollabAgentStatus::Completed => AgentStatus::Completed(crate::worktree::clone_opt(&state.message)),
        CollabAgentStatus::Errored => AgentStatus::Errored(
            match &state.message {
                Some(m) => m.clone(),
                None => String::new(),
            },
        ),
        CollabAgentStatus::Interrupted => AgentStatus::Interrupted,
        CollabAgentStatus::Shutdown => AgentStatus::Shutdown,
        CollabAgentStatus::NotFound => AgentStatus::NotFound,
    }
}

/// Starting or working.
pub open spec fn running_spec(s: AgentStatus) -> bool {
    s is PendingInit || s is Running
}

/// Whether the panel lists the agent: while it starts or runs.
pub fn is_visible_in_panel(is_watchdog: bool, status: &AgentStatus) -> (r: bool)
    ensures
        r == running_spec(*status),
{
    match status {
        AgentStatus::PendingInit | AgentStatus::Running => true,
        _ => false,
    }
}

/// Whether the panel counts the agent as running: a watchdog only once it
/// runs, any other agent also while it starts.
pub fn is_running_for_panel(is_watchdog: bool, status: &AgentStatus) -> (r: bool)
    ensures
        r == (if is_watchdog {
            *status is Running
        } else {
            running_spec(*status)
        }),
{
    match status {
        AgentStatus::Running => true,
        AgentStatus::PendingInit => !is_watchdog,
        _ => false,
    }
}

/// How long an update keeps an agent's row shimmering, in milliseconds.
pub const SUBAGENT_SHIMMER_WINDOW_MS: u64 = 1000;

/// Whether an agent's row shimmers: a running agent updated within the
/// shimmer window, except a watchdog that has not started.
pub fn should_shimmer(is_watchdog: bool, status: &AgentStatus, since_update_ms: u64) -> (r: bool)
    ensures
        r == (!(is_watchdog && *status is PendingInit) && running_spec(*status) && since_update_ms
            <= SUBAGENT_SHIMMER_WINDOW_MS),
{
    if is_watchdog && matches!(status, AgentStatus::PendingInit) {
        return false;
    }
    let running = match status {
        AgentStatus::PendingInit | AgentStatus::Running => true,
        _ => false,
    };
    running && since_update_ms <= SUBAGENT_SHIMMER_WINDOW_MS
}

/// The ordinal of the next agent: one more than the agents so far, capped
/// below `i32::MAX`.
pub fn next_ordinal(agent_count: usize) -> (r: i32)
    ensures
        r as int == (if agent_count < i32::MAX {
            agent_count as int + 1
        } else {
            i32::MAX as int
        }),
{
    if agent_count < 2147483647usize {
        (agent_count as i32) + 1
    } else {
        2147483647i32
    }
}

/// The first line of a prompt (split at `\n`) that is not blank, trimmed;
/// empty when there is none.
pub open spec fn first_line_spec(lines: Seq<Seq<char>>) -> Seq<char>
    decreases lines.len(),
{
    if lines.len() == 0 {
        seq![]
    } else if trim(lines[0]).len() > 0 {
        trim(lines[0])
    } else {
        first_line_spec(lines.drop_first())
    }
}

pub fn prompt_first_line(prompt: &str) -> (r: String)
    ensures
        r@ == first_line_spec(crate::text::split_on(prompt@, '\n')),
{
    let v = str_chars(prompt);
    let lines = crate::text::split_on_char(v.as_slice(), '\n');
    let ghost lv = crate::text::char_seqs(lines@);
    let mut i: usize = 0;
    assert(lv.skip(0) =~= lv);
    while i < lines.len()
        invariant
            i <= lines.len(),
            lv == crate::text::char_seqs(lines@),
            lv == crate::text::split_on(prompt@, '\n'),
            first_line_spec(lv) == first_line_spec(lv.skip(i as int)),
        decreases lines.len() - i,
    {
        let t = crate::text::trim_chars(lines[i].as_slice());
        assert(lv.skip(i as int)[0] == lv[i as int]);
        if t.len() > 0 {
            return chars_to_string(t.as_slice());
        }
        assert(lv.skip(i as int).drop_first() =~= lv.skip(i as int + 1));
        i = i + 1;
    }
    String::new()
}

pub open spec fn token_char(c: char) -> bool {
    is_ascii_alnum(c) || c == '-'
}

/// A prompt word reduced to lower-case ASCII letters, digits and hyphens.
pub open spec fn clean_token_spec(t: Seq<char>) -> Seq<char>
    decreases t.len(),
{
    if t.len() == 0 {
        seq![]
    } else {
        let rest = clean_token_spec(t.drop_last());
        let c = ascii_lower(t.last());
        if token_char(c) {
            rest.push(c)
        } else {
            rest
        }
    }
}

pub fn clean_token(token: &[char]) -> (r: Vec<char>)
    ensures
        r@ == clean_token_spec(token@),
{
    let mut out: Vec<char> = Vec::new();
    let mut i: usize = 0;
    while i < token.len()
        invariant
            i <= token.len(),
            out@ == clean_token_spec(token@.take(i as int)),
        decreases token.len() - i,
    {
        assert(token@.take(i as int + 1).drop_last() =~= token@.take(i as int));
        let c = crate::text::to_ascii_lower(token[i]);
        if ('a' <= c && c <= 'z') || ('A' <= c && c <= 'Z') || ('0' <= c && c <= '9') || c == '-' {
            out.push(c);
        }
        i = i + 1;
    }
    assert(token@.take(token.len() as int) =~= token@);
    out
}

/// Words left out of a derived name.
pub open spec fn stopwords() -> Seq<Seq<char>> {
    seq![
        "the"@,
        "a"@,
        "an"@,
        "to"@,
        "and"@,
        "or"@,
        "of"@,
        "for"@,
        "from"@,
        "in"@,
        "on"@,
        "with"@,
        "read"@,
        "file"@,
        "task"@,
    ]
}

fn is_stopword(t: &Vec<char>) -> (r: bool)
    ensures
        r == stopwords().contains(t@),
{
    let list = ["the", "a", "an", "to", "and", "or", "of", "for", "from", "in", "on", "with", "read", "file", "task"];
    let mut i: usize = 0;
    while i < 15
        invariant
            i <= 15,
            forall|k: int| 0 <= k < 15 ==> #[trigger] list@[k]@ == stopwords()[k],
            forall|k: int| 0 <= k < i ==> stopwords()[k] != t@,
        decreases 15 - i,
    {
        if crate::text::chars_eq_str(t.as_slice(), list[i]) {
            assert(stopwords()[i as int] == t@);
            return true;
        }
        i = i + 1;
    }
    assert(!stopwords().contains(t@)) by {
        if stopwords().contains(t@) {
            let k = choose|k: int| 0 <= k < stopwords().len() && stopwords()[k] == t@;
            assert(stopwords()[k] != t@);
        }
    }
    false
}

/// The first line with a leading `Task:` or `task:` dropped, trimmed.
pub open spec fn task_text(first: Seq<char>) -> Seq<char> {
    if first.len() >= 5 && (first.take(5) == "Task:"@ || first.take(5) == "task:"@) {
        trim(first.skip(5))
    } else {
        trim(first)
    }
}

/// The words a derived name is made of: up to four cleaned words of the
/// task text that are neither empty nor stopwords.
pub open spec fn name_tokens_from(ws: Seq<Seq<char>>) -> Seq<Seq<char>>
    decreases ws.len(),
{
    if ws.len() == 0 {
        seq![]
    } else {
        let rest = name_tokens_from(ws.drop_last());
        let t = clean_token_spec(ws.last());
        if rest.len() < 4 && t.len() > 0 && !stopwords().contains(t) {
            rest.push(t)
        } else {
            rest
        }
    }
}

pub open spec fn name_tokens_spec(prompt: Seq<char>) -> Seq<Seq<char>> {
    name_tokens_from(words(task_text(first_line_spec(crate::text::split_on(prompt, '\n')))))
}

pub fn subagent_name_tokens(prompt: &str) -> (r: Vec<Vec<char>>)
    ensures
        crate::text::char_seqs(r@) == name_tokens_spec(prompt@),
{
    let first = prompt_first_line(prompt);
    let fv = str_chars(first.as_str());
    let is_task = fv.len() >= 5 && (fv[0] == 'T' || fv[0] == 't') && fv[1] == 'a' && fv[2] == 's'
        && fv[3] == 'k' && fv[4] == ':';
    proof {
        reveal_strlit("Task:");
        reveal_strlit("task:");
        assert("Task:"@ =~= seq!['T', 'a', 's', 'k', ':']);
        assert("task:"@ =~= seq!['t', 'a', 's', 'k', ':']);
        if fv@.len() >= 5 {
            let h = fv@.take(5);
            assert(forall|k: int| 0 <= k < 5 ==> h[k] == fv@[k]);
            if is_task {
                if fv@[0] == 'T' {
                    assert(h =~= "Task:"@);
                } else {
                    assert(h =~= "task:"@);
                }
            }
            if h == "Task:"@ {
                assert(h[0] == 'T' && h[1] == 'a' && h[2] == 's' && h[3] == 'k' && h[4] == ':');
            }
            if h == "task:"@ {
                assert(h[0] == 't' && h[1] == 'a' && h[2] == 's' && h[3] == 'k' && h[4] == ':');
            }
        }
    }
    let stripped: Vec<char> = if is_task {
        let mut rest: Vec<char> = Vec::new();
        let mut k: usize = 5;
        while k < fv.len()
            invariant
                5 <= k <= fv.len(),
                rest@ == fv@.subrange(5, k as int),
            decreases fv.len() - k,
        {
            rest.push(fv[k]);
            assert(fv@.subrange(5, k as int + 1) =~= fv@.subrange(5, k as int).push(fv@[k as int]));
            k = k + 1;
        }
        assert(rest@ =~= fv@.skip(5));
        crate::text::trim_chars(rest.as_slice())
    } else {
        crate::text::trim_chars(fv.as_slice())
    };
    assert(stripped@ == task_text(first@));
    let ws = crate::text::split_words(stripped.as_slice());
    let ghost wv = crate::text::char_seqs(ws@);
    let mut out: Vec<Vec<char>> = Vec::new();
    let mut i: usize = 0;
    assert(wv.take(0) =~= Seq::<Seq<char>>::empty());
    while i < ws.len()
        invariant
            i <= ws.len(),
            wv == crate::text::char_seqs(ws@),
            wv == words(stripped@),
            crate::text::char_seqs(out@) == name_tokens_from(wv.take(i as int)),
            out@.len() <= 4,
        decreases ws.len() - i,
    {
        assert(wv.take(i as int + 1).drop_last() =~= wv.take(i as int));
        let t = clean_token(ws[i].as_slice());
        if out.len() < 4 && t.len() > 0 && !is_stopword(&t) {
            let ghost before = out@;
            out.push(t);
            assert(crate::text::char_seqs(out@) =~= crate::text::char_seqs(before).push(
                clean_token_spec(wv[i as int]),
            ));
        }
        i = i + 1;
    }
    assert(wv.take(ws.len() as int) =~= wv);
    out
}

/// The name of an agent whose prompt gives no words: `agent-<ordinal>`.
pub fn fallback_agent_name(ordinal: i32) -> (r: String)
    ensures
        r@ == "agent-"@ + crate::text::signed_decimal(ordinal as int),
{
    let mut out: Vec<char> = Vec::new();
    push_str(&mut out, "agent-");
    crate::text::push_signed_decimal(&mut out, ordinal as i64);
    chars_to_string(out.as_slice())
}

/// How many early events are kept for an agent not yet known.
pub const SUBAGENT_PENDING_EVENT_CAPACITY: usize = 12;

/// Appends an event to a bounded buffer, dropping the oldest beyond
/// `capacity`.
pub fn push_bounded<T>(buffer: &mut Vec<T>, item: T, capacity: usize)
    requires
        capacity > 0,
        old(buffer)@.len() <= capacity,
    ensures
        final(buffer)@ == (if old(buffer)@.len() < capacity {
            old(buffer)@.push(item)
        } else {
            old(buffer)@.push(item).skip(1)
        }),
        final(buffer)@.len() <= capacity,
{
    buffer.push(item);
    if buffer.len() > capacity {
        buffer.remove(0);
        assert(buffer@ =~= old(buffer)@.push(item).skip(1));
    }
}

/// The newest `n` items of `s`: all of them when there are no more than `n`.
pub open spec fn newest<T>(s: Seq<T>, n: nat) -> Seq<T> {
    if s.len() > n {
        s.skip(s.len() - n)
    } else {
        s
    }
}

/// Holds an event that came for an agent not yet known, so that it can be
/// replayed once the agent's spawn ends. Events of the root thread are not
/// held; of the others only the newest `SUBAGENT_PENDING_EVENT_CAPACITY`
/// stay, in arrival order.
pub fn buffer_pending<T>(pending: &mut Vec<T>, is_root: bool, msg: T)
    ensures
        is_root ==> final(pending)@ == old(pending)@,
        !is_root ==> final(pending)@ == newest(
            old(pending)@.push(msg),
            SUBAGENT_PENDING_EVENT_CAPACITY as nat,
        ),
        !is_root ==> final(pending)@.len() <= SUBAGENT_PENDING_EVENT_CAPACITY,
{
    if is_root {
        return;
    }
    pending.push(msg);
    if pending.len() > SUBAGENT_PENDING_EVENT_CAPACITY {
        let excess = pending.len() - SUBAGENT_PENDING_EVENT_CAPACITY;
        let ghost pushed = pending@;
        let kept = pending.split_off(excess);
        *pending = kept;
        assert(pending@ =~= pushed.skip(excess as int));
    }
}

/// Hands out the held events of an agent whose spawn has ended, oldest
/// first, and leaves none held.
pub fn take_pending<T>(pending: &mut Vec<T>) -> (r: Vec<T>)
    ensures
        r@ == old(pending)@,
        final(pending)@.len() == 0,
{
    let r = pending.split_off(0);
    assert(r@ =~= old(pending)@);
    r
}

/// Whether the root thread is the one shown: there is a primary thread and
/// it is the active one.
pub fn subagents_root_active(primary_thread: Option<u128>, active_thread: Option<u128>) -> (r: bool)
    ensures
        r == (primary_thread is Some && active_thread == primary_thread),
{
    match (primary_thread, active_thread) {
        (Some(p), Some(a)) => p == a,
        _ => false,
    }
}

/// What to do about the panel's animation timer.
#[derive(Clone, Copy, Debug, PartialEq, Eq, Structural)]
pub enum AnimationChange {
    Start,
    Stop,
    Keep,
}

/// The timer runs exactly while the root thread is shown and some agent
/// shimmers.
pub fn subagent_animation_change(root_active: bool, any_animating: bool, is_running: bool) -> (r:
    AnimationChange)
    ensures
        (root_active && any_animating) && !is_running ==> r == AnimationChange::Start,
        !(root_active && any_animating) && is_running ==> r == AnimationChange::Stop,
        (root_active && any_animating) == is_running ==> r == AnimationChange::Keep,
{
    let should_run = root_active && any_animating;
    if should_run && !is_running {
        AnimationChange::Start
    } else if !should_run && is_running {
        AnimationChange::Stop
    } else {
        AnimationChange::Keep
    }
}


/// An event of a subagent's thread, as the panel reads it. Texts the panel
/// shows shortened arrive as they are; an error's message and an abort's
/// reason arrive as the status will show them.
#[derive(Clone, Debug, PartialEq, Eq)]
pub enum SubagentEvent {
    TurnStarted,
    ReasoningDelta(String),
    ReasoningRawContentDelta(String),
    ReasoningRawContent(String),
    /// A finished reasoning item or a section break.
    ReasoningBoundary,
    MessageDelta(String),
    Message(String),
    TurnComplete(Option<String>),
    TurnAborted(String),
    Error(String),
    ShutdownComplete,
    Other,
}

/// What the panel tracks of one subagent's current turn.
#[derive(Clone, Debug, PartialEq, Eq)]
pub struct SubagentProgress {
    pub status: AgentStatus,
    /// Whether a turn has started since the agent was spawned.
    pub started: bool,
    pub inflight_message: String,
    pub reasoning_buffer: String,
    /// Whether the agent's end was announced in the history already.
    pub notified_terminal: bool,
}

/// What an event asks of the panel besides the new progress.
#[derive(Clone, Debug, PartialEq, Eq)]
pub struct SubagentEventEffects {
    /// Text to show, shortened, as the row's latest preview.
    pub preview: Option<String>,
    /// Reasoning text to look for the first bold summary in.
    pub reasoning_scan: Option<String>,
    /// The turn's reasoning summary is forgotten.
    pub clear_summary: bool,
    /// The turn started now for the first time.
    pub first_start: bool,
    /// The row counts as just updated.
    pub touched: bool,
    /// The history notice of the agent's end, with the new status: its
    /// summary text.
    pub notice: Option<String>,
}

pub open spec fn no_effects() -> (Option<Seq<char>>, Option<Seq<char>>, bool, bool, bool, Option<Seq<char>>) {
    (None, None, false, false, false, None)
}

pub open spec fn effects_view(e: SubagentEventEffects) -> (Option<Seq<char>>, Option<Seq<char>>, bool, bool, bool, Option<Seq<char>>) {
    (
        crate::worktree::opt_view(e.preview),
        crate::worktree::opt_view(e.reasoning_scan),
        e.clear_summary,
        e.first_start,
        e.touched,
        crate::worktree::opt_view(e.notice),
    )
}

/// The progress view: status, started, in-flight message, reasoning buffer,
/// notified.
pub open spec fn progress_view(p: SubagentProgress) -> (AgentStatus, bool, Seq<char>, Seq<char>, bool) {
    (p.status, p.started, p.inflight_message@, p.reasoning_buffer@, p.notified_terminal)
}

/// The end of the agent: the new status, and the notice unless one was
/// given already.
pub open spec fn terminal_step(
    p: (AgentStatus, bool, Seq<char>, Seq<char>, bool),
    status: AgentStatus,
    summary: Seq<char>,
) -> ((AgentStatus, bool, Seq<char>, Seq<char>, bool), (Option<Seq<char>>, Option<Seq<char>>, bool, bool, bool, Option<Seq<char>>)) {
    (
        (status, p.1, seq![], p.3, true),
        (None, None, false, false, false, if p.4 {
            None
        } else {
            Some(summary)
        }),
    )
}

/// How an event changes a subagent's progress, and what else it asks for.
pub open spec fn subagent_event_step(
    p: (AgentStatus, bool, Seq<char>, Seq<char>, bool),
    e: SubagentEvent,
) -> ((AgentStatus, bool, Seq<char>, Seq<char>, bool), (Option<Seq<char>>, Option<Seq<char>>, bool, bool, bool, Option<Seq<char>>)) {
    match e {
        SubagentEvent::TurnStarted => (
            (AgentStatus::Running, true, seq![], seq![], p.4),
            (None, None, true, !p.1, true, None),
        ),
        SubagentEvent::ReasoningDelta(d) => (
            (p.0, p.1, p.2, p.3 + d@, p.4),
            (None, Some(p.3 + d@), false, false, false, None),
        ),
        SubagentEvent::ReasoningRawContentDelta(d) => (
            (p.0, p.1, p.2, p.3 + d@, p.4),
            (None, Some(p.3 + d@), false, false, false, None),
        ),
        SubagentEvent::ReasoningRawContent(t) => (
            (p.0, p.1, p.2, seq![], p.4),
            (None, Some(p.3 + t@), false, false, false, None),
        ),
        SubagentEvent::ReasoningBoundary => ((p.0, p.1, p.2, seq![], p.4), no_effects()),
        SubagentEvent::MessageDelta(d) => (
            (p.0, p.1, p.2 + d@, p.3, p.4),
            (Some(trim(p.2 + d@)), None, false, false, false, None),
        ),
        SubagentEvent::Message(m) => (
            (p.0, p.1, seq![], p.3, p.4),
            (Some(trim(m@)), None, false, false, false, None),
        ),
        SubagentEvent::TurnComplete(last) => terminal_step(
            p,
            AgentStatus::Completed(last),
            match last {
                Some(m) => trim(m@),
                None => "completed"@,
            },
        ),
        SubagentEvent::TurnAborted(reason) => terminal_step(p, AgentStatus::Errored(reason), reason@),
        SubagentEvent::Error(summary) => terminal_step(p, AgentStatus::Errored(summary), summary@),
        SubagentEvent::ShutdownComplete => terminal_step(p, AgentStatus::Shutdown, "shutdown"@),
        SubagentEvent::Other => (p, no_effects()),
    }
}

fn concat_strings(a: &String, b: &String) -> (r: String)
    ensures
        r@ == a@ + b@,
{
    let mut v = str_chars(a.as_str());
    crate::text::push_chars(&mut v, str_chars(b.as_str()).as_slice());
    chars_to_string(v.as_slice())
}

fn trimmed(s: &String) -> (r: String)
    ensures
        r@ == trim(s@),
{
    let v = str_chars(s.as_str());
    let t = crate::text::trim_chars(v.as_slice());
    chars_to_string(t.as_slice())
}

impl SubagentProgress {
    /// A freshly spawned agent: waiting to start, nothing buffered.
    pub fn new() -> (r: Self)
        ensures
            progress_view(r) == (AgentStatus::PendingInit, false, Seq::<char>::empty(), Seq::<char>::empty(), false),
    {
        SubagentProgress {
            status: AgentStatus::PendingInit,
            started: false,
            inflight_message: String::new(),
            reasoning_buffer: String::new(),
            notified_terminal: false,
        }
    }

    fn finish(&mut self, status: AgentStatus, summary: String) -> (r: SubagentEventEffects)
        ensures
            (progress_view(*final(self)), effects_view(r)) == terminal_step(
                progress_view(*old(self)),
                status,
                summary@,
            ),
    {
        self.inflight_message = String::new();
        self.status = status;
        let notice = if self.notified_terminal {
            None
        } else {
            Some(summary)
        };
        self.notified_terminal = true;
        SubagentEventEffects {
            preview: None,
            reasoning_scan: None,
            clear_summary: false,
            first_start: false,
            touched: false,
            notice,
        }
    }

    /// Applies an event of the agent's thread.
    pub fn on_event(&mut self, event: SubagentEvent) -> (r: SubagentEventEffects)
        ensures
            (progress_view(*final(self)), effects_view(r)) == subagent_event_step(
                progress_view(*old(self)),
                event,
            ),
    {
        let none = SubagentEventEffects {
            preview: None,
            reasoning_scan: None,
            clear_summary: false,
            first_start: false,
            touched: false,
            notice: None,
        };
        match event {
            SubagentEvent::TurnStarted => {
                let first = !self.started;
                self.inflight_message = String::new();
                self.reasoning_buffer = String::new();
                self.status = AgentStatus::Running;
                self.started = true;
                SubagentEventEffects { clear_summary: true, first_start: first, touched: true, ..none }
            },
            SubagentEvent::ReasoningDelta(d) | SubagentEvent::ReasoningRawContentDelta(d) => {
                self.reasoning_buffer = concat_strings(&self.reasoning_buffer, &d);
                let scan = self.reasoning_buffer.clone();
                SubagentEventEffects { reasoning_scan: Some(scan), ..none }
            },
            SubagentEvent::ReasoningRawContent(t) => {
                let scan = concat_strings(&self.reasoning_buffer, &t);
                self.reasoning_buffer = String::new();
                SubagentEventEffects { reasoning_scan: Some(scan), ..none }
            },
            SubagentEvent::ReasoningBoundary => {
                self.reasoning_buffer = String::new();
                none
            },
            SubagentEvent::MessageDelta(d) => {
                self.inflight_message = concat_strings(&self.inflight_message, &d);
                let preview = trimmed(&self.inflight_message);
                SubagentEventEffects { preview: Some(preview), ..none }
            },
            SubagentEvent::Message(m) => {
                self.inflight_message = String::new();
                SubagentEventEffects { preview: Some(trimmed(&m)), ..none }
            },
            SubagentEvent::TurnComplete(last) => {
                let summary = match &last {
                    Some(m) => trimmed(m),
                    None => str_to_string("completed"),
                };
                self.finish(AgentStatus::Completed(last), summary)
            },
            SubagentEvent::TurnAborted(reason) => {
                let summary = reason.clone();
                self.finish(AgentStatus::Errored(reason), summary)
            },
            SubagentEvent::Error(summary) => {
                let text = summary.clone();
                self.finish(AgentStatus::Errored(summary), text)
            },
            SubagentEvent::ShutdownComplete => self.finish(AgentStatus::Shutdown, str_to_string("shutdown")),
            SubagentEvent::Other => none,
        }
    }
}

/// The text of an agent's end notice, before it is shortened for display.
pub open spec fn terminal_summary_spec(status: AgentStatus) -> Seq<char> {
    match status {
        AgentStatus::Completed(Some(m)) => trim(m@),
        AgentStatus::Completed(None) => "completed"@,
        AgentStatus::Errored(m) => trim(m@),
        AgentStatus::Interrupted => "interrupted"@,
        AgentStatus::Shutdown => "shutdown"@,
        AgentStatus::NotFound => "not found"@,
        AgentStatus::PendingInit | AgentStatus::Running => "running"@,
    }
}

pub fn terminal_summary(status: &AgentStatus) -> (r: String)
    ensures
        r@ == terminal_summary_spec(*status),
{
    match status {
        AgentStatus::Completed(Some(m)) => trimmed(m),
        AgentStatus::Completed(None) => str_to_string("completed"),
        AgentStatus::Errored(m) => trimmed(m),
        AgentStatus::Interrupted => str_to_string("interrupted"),
        AgentStatus::Shutdown => str_to_string("shutdown"),
        AgentStatus::NotFound => str_to_string("not found"),
        AgentStatus::PendingInit | AgentStatus::Running => str_to_string("running"),
    }
}

impl SubagentProgress {
    /// A status reported when the agent was closed: it replaces the current
    /// one, and an end not announced yet is announced now with its summary.
    pub fn on_close_status(&mut self, status: AgentStatus) -> (r: Option<String>)
        ensures
            final(self).status == status,
            final(self).started == old(self).started,
            final(self).inflight_message@ == old(self).inflight_message@,
            final(self).reasoning_buffer@ == old(self).reasoning_buffer@,
            final(self).notified_terminal == (old(self).notified_terminal || terminal_spec(status)),
            match r {
                Some(t) => terminal_spec(status) && !old(self).notified_terminal && t@
                    == terminal_summary_spec(status),
                None => !terminal_spec(status) || old(self).notified_terminal,
            },
    {
        let announce = is_terminal_status(&status) && !self.notified_terminal;
        let summary = if announce {
            Some(terminal_summary(&status))
        } else {
            None
        };
        if announce {
            self.notified_terminal = true;
        }
        self.status = status;
        summary
    }

    /// A status reported by a finished wait: it replaces the current one.
    pub fn on_wait_status(&mut self, status: AgentStatus)
        ensures
            final(self).status == status,
            final(self).started == old(self).started,
            final(self).inflight_message@ == old(self).inflight_message@,
            final(self).reasoning_buffer@ == old(self).reasoning_buffer@,
            final(self).notified_terminal == old(self).notified_terminal,
    {
        self.status = status;
    }
}

/// How many characters an update preview keeps.
pub const SUBAGENT_UPDATE_PREVIEW_BUDGET: usize = 160;

/// How many characters a prompt preview keeps.
pub const SUBAGENT_PROMPT_PREVIEW_BUDGET: usize = 120;

/// What a running agent's row previews, trimmed, and how many characters of
/// it to keep: the latest reasoning summary, else the message being
/// written, else the latest preview, else the prompt.
pub open spec fn running_preview_spec(
    summary: Seq<char>,
    inflight: Seq<char>,
    latest: Seq<char>,
    prompt: Seq<char>,
) -> (Seq<char>, usize) {
    if trim(summary).len() > 0 {
        (trim(summary), SUBAGENT_UPDATE_PREVIEW_BUDGET)
    } else if trim(inflight).len() > 0 {
        (trim(inflight), SUBAGENT_UPDATE_PREVIEW_BUDGET)
    } else if trim(latest).len() > 0 {
        (trim(latest), SUBAGENT_UPDATE_PREVIEW_BUDGET)
    } else {
        (trim(prompt), SUBAGENT_PROMPT_PREVIEW_BUDGET)
    }
}

pub fn running_preview(
    latest_summary: &String,
    inflight_message: &String,
    latest_preview: &String,
    prompt_preview: &String,
) -> (r: (String, usize))
    ensures
        (r.0@, r.1) == running_preview_spec(
            latest_summary@,
            inflight_message@,
            latest_preview@,
            prompt_preview@,
        ),
{
    let summary = trimmed(latest_summary);
    if summary.unicode_len() > 0 {
        return (summary, SUBAGENT_UPDATE_PREVIEW_BUDGET);
    }
    let inflight = trimmed(inflight_message);
    if inflight.unicode_len() > 0 {
        return (inflight, SUBAGENT_UPDATE_PREVIEW_BUDGET);
    }
    let latest = trimmed(latest_preview);
    if latest.unicode_len() > 0 {
        return (latest, SUBAGENT_UPDATE_PREVIEW_BUDGET);
    }
    (trimmed(prompt_preview), SUBAGENT_PROMPT_PREVIEW_BUDGET)
}

/// An agent's end is announced once: after any event that ends it, every
/// later event gives no notice.
pub proof fn lemma_terminal_notice_once(
    p: (AgentStatus, bool, Seq<char>, Seq<char>, bool),
    first: SubagentEvent,
    later: SubagentEvent,
)
    requires
        subagent_event_step(p, first).1.5 is Some,
    ensures
        subagent_event_step(subagent_event_step(p, first).0, later).1.5 is None,
        terminal_spec(subagent_event_step(p, first).0.0),
{
}


/// What the panel needs of one known agent.
#[derive(Clone, Debug, PartialEq, Eq)]
pub struct PanelAgentRow {
    pub ordinal: i32,
    pub is_watchdog: bool,
    pub status: AgentStatus,
    /// When it started running (or was spawned, if it has not started), in
    /// milliseconds on the caller's clock.
    pub started_at_ms: u64,
}

/// The panel's summary: the rows shown, in the order of their ordinals (ties
/// in the order given), how many there are, how many count as running, and
/// when the earliest of them started.
#[derive(Clone, Debug, PartialEq, Eq)]
pub struct PanelSummary {
    pub order: Vec<usize>,
    pub total_agents: i32,
    pub running_count: i32,
    pub started_at_ms: u64,
}

pub open spec fn shown(rows: Seq<PanelAgentRow>, i: int) -> bool {
    running_spec(rows[i].status)
}

/// Row `a` comes before row `b`: a smaller ordinal, or the same one given
/// earlier.
pub open spec fn row_before(rows: Seq<PanelAgentRow>, a: int, b: int) -> bool {
    rows[a].ordinal < rows[b].ordinal || (rows[a].ordinal == rows[b].ordinal && a < b)
}

pub open spec fn ordered(rows: Seq<PanelAgentRow>, order: Seq<usize>) -> bool {
    forall|x: int, y: int| 0 <= x < y < order.len() ==> row_before(rows, #[trigger] order[x] as int, #[trigger] order[y] as int)
}

/// `order` lists exactly the shown rows among the first `n`.
pub open spec fn lists_shown(rows: Seq<PanelAgentRow>, order: Seq<usize>, n: int) -> bool {
    &&& forall|x: int| 0 <= x < order.len() ==> (#[trigger] order[x]) < n && shown(rows, order[x] as int)
    &&& forall|i: int| 0 <= i < n && shown(rows, i) ==> #[trigger] order.contains(i as usize)
}

pub open spec fn count_shown_running(rows: Seq<PanelAgentRow>, n: int) -> int
    decreases n,
{
    if n <= 0 {
        0
    } else {
        count_shown_running(rows, n - 1) + if shown(rows, n - 1) && (if rows[n - 1].is_watchdog {
            rows[n - 1].status is Running
        } else {
            running_spec(rows[n - 1].status)
        }) {
            1int
        } else {
            0int
        }
    }
}

pub open spec fn count_shown(rows: Seq<PanelAgentRow>, n: int) -> int
    decreases n,
{
    if n <= 0 {
        0
    } else {
        count_shown(rows, n - 1) + if shown(rows, n - 1) {
            1int
        } else {
            0int
        }
    }
}

pub open spec fn clamp_i32(n: int) -> int {
    if n <= i32::MAX {
        n
    } else {
        i32::MAX as int
    }
}

fn insert_position(rows: &[PanelAgentRow], order: &Vec<usize>, i: usize) -> (p: usize)
    requires
        i < rows.len(),
        forall|x: int| 0 <= x < order@.len() ==> (#[trigger] order@[x]) < i,
        ordered(rows@, order@),
    ensures
        p <= order@.len(),
        forall|x: int| 0 <= x < p ==> row_before(rows@, #[trigger] order@[x] as int, i as int),
        forall|x: int| p <= x < order@.len() ==> row_before(rows@, i as int, #[trigger] order@[x] as int),
{
    let mut p: usize = 0;
    while p < order.len() && rows[order[p]].ordinal <= rows[i].ordinal
        invariant
            p <= order@.len(),
            i < rows.len(),
            forall|x: int| 0 <= x < order@.len() ==> (#[trigger] order@[x]) < i,
            forall|x: int| 0 <= x < p ==> rows@[#[trigger] order@[x] as int].ordinal <= rows@[i as int].ordinal,
        decreases order@.len() - p,
    {
        p = p + 1;
    }
    assert forall|x: int| p <= x < order@.len() implies row_before(rows@, i as int, #[trigger] order@[x] as int) by {
        if x > p {
            assert(row_before(rows@, order@[p as int] as int, order@[x] as int));
        }
    }
    p
}

/// The panel's summary, or `None` when no agent is shown.
pub fn panel_summary(rows: &[PanelAgentRow]) -> (r: Option<PanelSummary>)
    ensures
        r is None <==> count_shown(rows@, rows@.len() as int) == 0,
        r matches Some(s) ==> {
            &&& ordered(rows@, s.order@)
            &&& lists_shown(rows@, s.order@, rows@.len() as int)
            &&& s.order@.len() == count_shown(rows@, rows@.len() as int)
            &&& s.total_agents as int == clamp_i32(count_shown(rows@, rows@.len() as int))
            &&& s.running_count as int == clamp_i32(count_shown_running(rows@, rows@.len() as int))
            &&& (exists|x: int| 0 <= x < s.order@.len() && rows@[#[trigger] s.order@[x] as int].started_at_ms == s.started_at_ms)
            &&& forall|x: int| 0 <= x < s.order@.len() ==> s.started_at_ms <= rows@[#[trigger] s.order@[x] as int].started_at_ms
        },
{
    let mut order: Vec<usize> = Vec::new();
    let mut running: usize = 0;
    let mut earliest: u64 = 0;
    let mut i: usize = 0;
    while i < rows.len()
        invariant
            i <= rows.len(),
            ordered(rows@, order@),
            lists_shown(rows@, order@, i as int),
            order@.len() == count_shown(rows@, i as int),
            running as int == count_shown_running(rows@, i as int),
            running <= i,
            order@.len() <= i,
            order@.len() > 0 ==> (exists|x: int| 0 <= x < order@.len() && rows@[#[trigger] order@[x] as int].started_at_ms == earliest),
            forall|x: int| 0 <= x < order@.len() ==> earliest <= rows@[#[trigger] order@[x] as int].started_at_ms,
        decreases rows.len() - i,
    {
        let row = &rows[i];
        let is_shown = match row.status {
            AgentStatus::PendingInit | AgentStatus::Running => true,
            _ => false,
        };
        if is_shown {
            let counts = is_running_for_panel(row.is_watchdog, &row.status);
            if counts {
                running = running + 1;
            }
            let ghost old_order = order@;
            let ghost old_earliest = earliest;
            let p = insert_position(rows, &order, i);
            order.insert(p, i);
            if order.len() == 1 || row.started_at_ms < earliest {
                earliest = row.started_at_ms;
            }
            proof {
                assert(order@ == old_order.insert(p as int, i));
                assert forall|x: int, y: int| 0 <= x < y < order@.len() implies row_before(
                    rows@,
                    #[trigger] order@[x] as int,
                    #[trigger] order@[y] as int,
                ) by {
                    if y < p {
                        assert(order@[x] == old_order[x] && order@[y] == old_order[y]);
                    } else if y == p {
                        assert(order@[x] == old_order[x]);
                    } else if x < p {
                        assert(order@[x] == old_order[x] && order@[y] == old_order[y - 1]);
                        assert(row_before(rows@, old_order[x] as int, i as int));
                        assert(row_before(rows@, i as int, old_order[y - 1] as int));
                    } else if x == p {
                        assert(order@[y] == old_order[y - 1]);
                    } else {
                        assert(order@[x] == old_order[x - 1] && order@[y] == old_order[y - 1]);
                    }
                }
                assert forall|j: int| 0 <= j < i + 1 && shown(rows@, j) implies #[trigger] order@.contains(j as usize) by {
                    if j < i {
                        assert(old_order.contains(j as usize));
                        let x = choose|x: int| 0 <= x < old_order.len() && old_order[x] == j as usize;
                        if x < p {
                            assert(order@[x] == j as usize);
                        } else {
                            assert(order@[x + 1] == j as usize);
                        }
                    } else {
                        assert(order@[p as int] == i);
                    }
                }
                assert forall|x: int| 0 <= x < order@.len() implies (#[trigger] order@[x]) < i + 1 && shown(rows@, order@[x] as int) by {
                    if x < p {
                        assert(order@[x] == old_order[x]);
                    } else if x > p {
                        assert(order@[x] == old_order[x - 1]);
                    }
                }
                if old_order.len() > 0 {
                    let w = choose|x: int| 0 <= x < old_order.len() && rows@[#[trigger] old_order[x] as int].started_at_ms == old_earliest;
                    if earliest == old_earliest {
                        if w < p {
                            assert(order@[w] == old_order[w]);
                            assert(rows@[order@[w] as int].started_at_ms == earliest);
                        } else {
                            assert(order@[w + 1] == old_order[w]);
                            assert(rows@[order@[w + 1] as int].started_at_ms == earliest);
                        }
                    } else {
                        assert(rows@[order@[p as int] as int].started_at_ms == earliest);
                    }
                } else {
                    assert(rows@[order@[p as int] as int].started_at_ms == earliest);
                }
                assert forall|x: int| 0 <= x < order@.len() implies earliest <= rows@[#[trigger] order@[x] as int].started_at_ms by {
                    if x < p {
                        assert(order@[x] == old_order[x]);
                    } else if x > p {
                        assert(order@[x] == old_order[x - 1]);
                    }
                }
            }
        } else {
            proof {
                assert forall|j: int| 0 <= j < i + 1 && shown(rows@, j) implies #[trigger] order@.contains(j as usize) by {
                    assert(j < i);
                }
            }
        }
        i = i + 1;
    }
    if order.len() == 0 {
        return None;
    }
    let total: i32 = if order.len() <= 2147483647 {
        order.len() as i32
    } else {
        2147483647
    };
    let running_count: i32 = if running <= 2147483647 {
        running as i32
    } else {
        2147483647
    };
    Some(PanelSummary { order, total_agents: total, running_count, started_at_ms: earliest })
}

/// One receiver of a collab tool call: whether its thread id parses, and the
/// agent state the call reports for it, if any.
#[derive(Clone, Debug, PartialEq, Eq)]
pub struct CollabReceiver {
    pub valid_thread_id: bool,
    pub state: Option<CollabAgentState>,
}

/// What a collab tool call of the root thread does to the known agents.
#[derive(Clone, Debug, PartialEq, Eq)]
pub enum CollabCallEffect {
    /// A spawned agent: its first receiver, starting in this status.
    Spawn(AgentStatus),
    /// New statuses for the receivers at these indices.
    UpdateStatuses(Vec<(usize, AgentStatus)>),
    NoChange,
}

/// The status an agent state reports, as [`app_server_collab_state_to_agent_status`]
/// gives it, compared by its kind and text.
pub open spec fn status_matches(a: AgentStatus, st: CollabAgentState) -> bool {
    match st.status {
        CollabAgentStatus::PendingInit => a is PendingInit,
        CollabAgentStatus::Running => a is Running,
        CollabAgentStatus::Completed => a matches AgentStatus::Completed(m) && crate::worktree::opt_view(m)
            == crate::worktree::opt_view(st.message),
        CollabAgentStatus::Errored => a matches AgentStatus::Errored(m) && m@ == (match st.message {
            Some(x) => x@,
            None => seq![],
        }),
        CollabAgentStatus::Interrupted => a is Interrupted,
        CollabAgentStatus::Shutdown => a is Shutdown,
        CollabAgentStatus::NotFound => a is NotFound,
    }
}

/// The receivers whose statuses a finished call updates: those with a valid
/// thread id and a reported state, in order.
pub open spec fn updated_receivers(receivers: Seq<CollabReceiver>) -> Seq<int>
    decreases receivers.len(),
{
    if receivers.len() == 0 {
        seq![]
    } else {
        let rest = updated_receivers(receivers.drop_last());
        let r = receivers.last();
        if r.valid_thread_id && r.state is Some {
            rest.push(receivers.len() - 1)
        } else {
            rest
        }
    }
}

/// A spawn call registers its first receiver (when that has a valid thread
/// id) with the reported status, or as starting; any other call, once it is
/// no longer in progress, updates the statuses of the receivers it reports.
pub fn collab_call_effect(is_spawn: bool, in_progress: bool, receivers: &[CollabReceiver]) -> (r:
    CollabCallEffect)
    ensures
        is_spawn ==> (if receivers@.len() > 0 && receivers@[0].valid_thread_id {
            r matches CollabCallEffect::Spawn(st) && match receivers@[0].state {
                Some(s) => status_matches(st, s),
                None => st is PendingInit,
            }
        } else {
            r is NoChange
        }),
        !is_spawn && in_progress ==> r is NoChange,
        !is_spawn && !in_progress ==> (r matches CollabCallEffect::UpdateStatuses(v) && v@.len()
            == updated_receivers(receivers@).len() && forall|k: int|
            0 <= k < v@.len() ==> (#[trigger] v@[k]).0 as int == updated_receivers(receivers@)[k]
                && status_matches(v@[k].1, receivers@[updated_receivers(receivers@)[k]].state->0)),
{
    if is_spawn {
        if receivers.len() == 0 || !receivers[0].valid_thread_id {
            return CollabCallEffect::NoChange;
        }
        let status = match &receivers[0].state {
            Some(s) => app_server_collab_state_to_agent_status(s),
            None => AgentStatus::PendingInit,
        };
        return CollabCallEffect::Spawn(status);
    }
    if in_progress {
        return CollabCallEffect::NoChange;
    }
    let mut out: Vec<(usize, AgentStatus)> = Vec::new();
    let mut i: usize = 0;
    while i < receivers.len()
        invariant
            i <= receivers.len(),
            out@.len() == updated_receivers(receivers@.take(i as int)).len(),
            forall|k: int|
                0 <= k < out@.len() ==> (#[trigger] out@[k]).0 as int == updated_receivers(receivers@.take(i as int))[k]
                    && status_matches(out@[k].1, receivers@[updated_receivers(receivers@.take(i as int))[k]].state->0),
        decreases receivers.len() - i,
    {
        assert(receivers@.take(i as int + 1).drop_last() =~= receivers@.take(i as int));
        assert(receivers@.take(i as int + 1).last() == receivers@[i as int]);
        let ghost prev = updated_receivers(receivers@.take(i as int));
        let ghost before = out@;
        if receivers[i].valid_thread_id {
            match &receivers[i].state {
                Some(s) => {
                    out.push((i, app_server_collab_state_to_agent_status(s)));
                    assert forall|k: int| 0 <= k < out@.len() implies (#[trigger] out@[k]).0 as int
                        == updated_receivers(receivers@.take(i as int + 1))[k] && status_matches(
                        out@[k].1,
                        receivers@[updated_receivers(receivers@.take(i as int + 1))[k]].state->0,
                    ) by {
                        if k < before.len() {
                            assert(out@[k] == before[k]);
                        }
                    }
                },
                None => {},
            }
        }
        i = i + 1;
    }
    assert(receivers@.take(receivers.len() as int) =~= receivers@);
    CollabCallEffect::UpdateStatuses(out)
}

/// The subagents spawned from the root thread, keyed by thread id, in the
/// order they were spawned, with the events that came for threads not yet
/// known.
pub struct SubagentRegistry {
    pub root_thread: Option<u128>,
    pub order: Vec<u128>,
    pub agents: HashMap<u128, SubagentProgress>,
    pub pending: HashMap<u128, Vec<SubagentEvent>>,
}

/// The events held for a thread, oldest first.
pub open spec fn held_events(pending: Map<u128, Vec<SubagentEvent>>, thread: u128) -> Seq<SubagentEvent> {
    if pending.contains_key(thread) {
        pending[thread]@
    } else {
        seq![]
    }
}

pub open spec fn effects_views(s: Seq<SubagentEventEffects>) -> Seq<
    (Option<Seq<char>>, Option<Seq<char>>, bool, bool, bool, Option<Seq<char>>),
> {
    s.map_values(|e: SubagentEventEffects| effects_view(e))
}

/// The progress after a run of events, and what each of them asked for.
pub open spec fn replay_spec(p: (AgentStatus, bool, Seq<char>, Seq<char>, bool), events: Seq<SubagentEvent>) -> (
    (AgentStatus, bool, Seq<char>, Seq<char>, bool),
    Seq<(Option<Seq<char>>, Option<Seq<char>>, bool, bool, bool, Option<Seq<char>>)>,
)
    decreases events.len(),
{
    if events.len() == 0 {
        (p, seq![])
    } else {
        let (q, effects) = replay_spec(p, events.drop_last());
        let (q2, e) = subagent_event_step(q, events.last());
        (q2, effects.push(e))
    }
}

/// The progress of a freshly spawned agent.
pub open spec fn fresh_progress() -> (AgentStatus, bool, Seq<char>, Seq<char>, bool) {
    (AgentStatus::PendingInit, false, Seq::<char>::empty(), Seq::<char>::empty(), false)
}

fn replay_events(p: &mut SubagentProgress, events: Vec<SubagentEvent>) -> (r: Vec<SubagentEventEffects>)
    ensures
        (progress_view(*final(p)), effects_views(r@)) == replay_spec(progress_view(*old(p)), events@),
{
    let ghost all = events@;
    let ghost start = progress_view(*p);
    let n = events.len();
    let mut rest = events;
    let mut out: Vec<SubagentEventEffects> = Vec::new();
    let mut k: usize = 0;
    assert(all.take(0) =~= Seq::<SubagentEvent>::empty());
    assert(all.skip(0) =~= all);
    while rest.len() > 0
        invariant
            k + rest@.len() == all.len() == n,
            rest@ == all.skip(k as int),
            start == progress_view(*old(p)),
            all == events@,
            (progress_view(*p), effects_views(out@)) == replay_spec(start, all.take(k as int)),
        decreases rest@.len(),
    {
        let e = rest.remove(0);
        assert(e == all[k as int]);
        let eff = p.on_event(e);
        let ghost before = out@;
        out.push(eff);
        assert(all.take(k as int + 1).drop_last() =~= all.take(k as int));
        assert(effects_views(out@) =~= effects_views(before).push(effects_view(eff)));
        assert(rest@ =~= all.skip(k as int + 1));
        k = k + 1;
    }
    assert(all.take(k as int) =~= all);
    out
}

impl SubagentRegistry {
    /// No root thread, no agents, nothing held.
    pub fn new() -> (r: Self)
        ensures
            r.root_thread is None,
            r.order@.len() == 0,
            r.agents@ == Map::<u128, SubagentProgress>::empty(),
            r.pending@ == Map::<u128, Vec<SubagentEvent>>::empty(),
    {
        SubagentRegistry {
            root_thread: None,
            order: Vec::new(),
            agents: HashMap::new(),
            pending: HashMap::new(),
        }
    }

    pub fn set_root_thread(&mut self, thread: u128)
        ensures
            final(self).root_thread == Some(thread),
            final(self).order@ == old(self).order@,
            final(self).agents@ == old(self).agents@,
            final(self).pending@ == old(self).pending@,
    {
        self.root_thread = Some(thread);
    }

    /// An event of `thread`: applied to its agent when the agent is known
    /// (with what it asks for returned); otherwise held for replay, unless
    /// it is the root thread's, with only the newest
    /// `SUBAGENT_PENDING_EVENT_CAPACITY` kept.
    pub fn on_agent_event(&mut self, thread: u128, event: SubagentEvent) -> (r: Option<
        SubagentEventEffects,
    >)
        ensures
            final(self).root_thread == old(self).root_thread,
            final(self).order@ == old(self).order@,
            old(self).agents@.contains_key(thread) ==> {
                &&& r matches Some(e) && (progress_view(final(self).agents@[thread]), effects_view(e))
                    == subagent_event_step(progress_view(old(self).agents@[thread]), event)
                &&& final(self).agents@ == old(self).agents@.insert(thread, final(self).agents@[thread])
                &&& final(self).pending@ == old(self).pending@
            },
            !old(self).agents@.contains_key(thread) ==> r is None && final(self).agents@ == old(
                self,
            ).agents@,
            !old(self).agents@.contains_key(thread) && old(self).root_thread == Some(thread)
                ==> final(self).pending@ == old(self).pending@,
            !old(self).agents@.contains_key(thread) && old(self).root_thread != Some(thread) ==> {
                &&& final(self).pending@ == old(self).pending@.insert(thread, final(self).pending@[thread])
                &&& final(self).pending@[thread]@ == newest(
                    held_events(old(self).pending@, thread).push(event),
                    SUBAGENT_PENDING_EVENT_CAPACITY as nat,
                )
            },
    {
        broadcast use vstd::std_specs::hash::group_hash_axioms;

        if self.agents.contains_key(&thread) {
            let mut progress = match self.agents.remove(&thread) {
                Some(p) => p,
                None => {
                    assert(false);
                    return None;
                },
            };
            let effects = progress.on_event(event);
            self.agents.insert(thread, progress);
            assert(self.agents@ =~= old(self).agents@.insert(thread, self.agents@[thread]));
            return Some(effects);
        }
        let is_root = match self.root_thread {
            Some(root) => root == thread,
            None => false,
        };
        if is_root {
            return None;
        }
        let mut held = match self.pending.remove(&thread) {
            Some(v) => v,
            None => Vec::new(),
        };
        assert(held@ == held_events(old(self).pending@, thread));
        buffer_pending(&mut held, false, event);
        self.pending.insert(thread, held);
        assert(self.pending@ =~= old(self).pending@.insert(thread, self.pending@[thread]));
        None
    }

    /// The spawn of `thread` has ended: a new agent is registered, last in
    /// order, and the events held for it are replayed into it, oldest
    /// first; what each asks for is returned in that order. An agent
    /// already known is left as it is.
    pub fn on_spawn_end(&mut self, thread: u128) -> (r: Vec<SubagentEventEffects>)
        ensures
            final(self).root_thread == old(self).root_thread,
            old(self).agents@.contains_key(thread) ==> {
                &&& r@.len() == 0
                &&& final(self).order@ == old(self).order@
                &&& final(self).agents@ == old(self).agents@
                &&& final(self).pending@ == old(self).pending@
            },
            !old(self).agents@.contains_key(thread) ==> {
                &&& final(self).order@ == old(self).order@.push(thread)
                &&& final(self).agents@ == old(self).agents@.insert(thread, final(self).agents@[thread])
                &&& final(self).pending@ == old(self).pending@.remove(thread)
                &&& (progress_view(final(self).agents@[thread]), effects_views(r@)) == replay_spec(
                    fresh_progress(),
                    held_events(old(self).pending@, thread),
                )
            },
    {
        broadcast use vstd::std_specs::hash::group_hash_axioms;

        if self.agents.contains_key(&thread) {
            return Vec::new();
        }
        self.order.push(thread);
        let mut progress = SubagentProgress::new();
        let held = match self.pending.remove(&thread) {
            Some(v) => v,
            None => Vec::new(),
        };
        assert(held@ == held_events(old(self).pending@, thread));
        let effects = replay_events(&mut progress, held);
        self.agents.insert(thread, progress);
        assert(self.agents@ =~= old(self).agents@.insert(thread, self.agents@[thread]));
        assert(self.pending@ =~= old(self).pending@.remove(thread));
        effects
    }
}

} // verus!
