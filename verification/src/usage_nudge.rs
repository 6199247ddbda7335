//! The proactive usage-limit prompt: it is shown at most once a session, and
//! rate limits are refetched once each time a window crosses 75% or 90%.

use vstd::prelude::*;

use crate::text::{chars_to_string, push_decimal, push_str};

verus! {

pub const CURRENT_USAGE_LIMIT_NUDGE_URL: &'static str = "https://chatgpt.com/codex/settings/usage";

pub const WORKSPACE_OWNER_USAGE_LIMIT_NUDGE_URL: &'static str = "https://chatgpt.com/admin/billing";

pub const UPGRADE_USAGE_LIMIT_NUDGE_URL: &'static str = "https://chatgpt.com/explore/pro";

/// What the backend suggests at a usage threshold.
#[derive(Clone, Copy, Debug, PartialEq, Eq, Structural)]
pub enum UsageLimitNudgeAction {
    AddCredits,
    Upgrade,
}

/// The backend's suggestion to act before the usage limit is reached.
#[derive(Clone, Copy, Debug, PartialEq, Eq, Structural)]
pub struct UsageLimitNudge {
    pub threshold: u8,
    pub action: UsageLimitNudgeAction,
}

/// One rate-limit window as reported live.
#[derive(Clone, Copy, Debug, PartialEq, Eq, Structural)]
pub struct RateLimitWindow {
    pub used_percent: i32,
    pub window_duration_mins: Option<i64>,
    pub resets_at: Option<i64>,
}

#[derive(Clone, Copy, Debug, PartialEq, Eq, Structural)]
pub enum UsageNudgePrefetchWindow {
    Primary,
    Secondary,
}

/// A rate-limit window, told apart by kind, length and reset time.
#[derive(Clone, Copy, Debug, PartialEq, Eq, Structural)]
pub struct UsageNudgePrefetchKey {
    pub window: UsageNudgePrefetchWindow,
    pub window_duration_mins: Option<i64>,
    pub resets_at: Option<i64>,
}

/// A usage threshold that triggers a refetch; `Percent90` is the higher.
#[derive(Clone, Copy, Debug, PartialEq, Eq, Structural)]
pub enum UsageNudgePrefetchThreshold {
    Percent75,
    Percent90,
}

pub open spec fn threshold_rank(t: UsageNudgePrefetchThreshold) -> int {
    match t {
        UsageNudgePrefetchThreshold::Percent75 => 75,
        UsageNudgePrefetchThreshold::Percent90 => 90,
    }
}

pub open spec fn threshold_for(used_percent: i32) -> Option<UsageNudgePrefetchThreshold> {
    if used_percent >= 90 {
        Some(UsageNudgePrefetchThreshold::Percent90)
    } else if used_percent >= 75 {
        Some(UsageNudgePrefetchThreshold::Percent75)
    } else {
        None
    }
}

impl UsageNudgePrefetchThreshold {
    /// The highest threshold that `used_percent` has reached, if any.
    pub fn from_used_percent(used_percent: i32) -> (r: Option<Self>)
        ensures
            r == threshold_for(used_percent),
    {
        if used_percent >= 90 {
            Some(UsageNudgePrefetchThreshold::Percent90)
        } else if used_percent >= 75 {
            Some(UsageNudgePrefetchThreshold::Percent75)
        } else {
            None
        }
    }

    fn at_least(self, other: Self) -> (r: bool)
        ensures
            r == (threshold_rank(self) >= threshold_rank(other)),
    {
        match (self, other) {
            (UsageNudgePrefetchThreshold::Percent75, UsageNudgePrefetchThreshold::Percent90) => false,
            _ => true,
        }
    }
}

pub type PrefetchEntry = (UsageNudgePrefetchKey, UsageNudgePrefetchThreshold);

/// The index of the first entry for `key` at or after `i`, or -1.
pub open spec fn entry_index_from(entries: Seq<PrefetchEntry>, key: UsageNudgePrefetchKey, i: int) -> int
    decreases entries.len() - i,
{
    if i < 0 || i >= entries.len() {
        -1
    } else if entries[i].0 == key {
        i
    } else {
        entry_index_from(entries, key, i + 1)
    }
}

pub open spec fn entry_index(entries: Seq<PrefetchEntry>, key: UsageNudgePrefetchKey) -> int {
    entry_index_from(entries, key, 0)
}

/// The watermarks after a live window update, and whether it crossed a
/// threshold not yet refetched for in that window. A window below 75% leaves
/// its watermark alone, so that a stale or sparse update cannot re-arm it.
pub open spec fn prefetch_step(
    entries: Seq<PrefetchEntry>,
    kind: UsageNudgePrefetchWindow,
    window: Option<RateLimitWindow>,
) -> (Seq<PrefetchEntry>, bool) {
    match window {
        None => (entries, false),
        Some(w) => match threshold_for(w.used_percent) {
            None => (entries, false),
            Some(t) => {
                let key = UsageNudgePrefetchKey {
                    window: kind,
                    window_duration_mins: w.window_duration_mins,
                    resets_at: w.resets_at,
                };
                let i = entry_index(entries, key);
                if i < 0 {
                    (entries.push((key, t)), true)
                } else if threshold_rank(entries[i].1) >= threshold_rank(t) {
                    (entries, false)
                } else {
                    (entries.update(i, (key, t)), true)
                }
            },
        },
    }
}

/// The watermarks after both windows of an update, and whether to refetch.
pub open spec fn prefetch_spec(
    entries: Seq<PrefetchEntry>,
    primary: Option<RateLimitWindow>,
    secondary: Option<RateLimitWindow>,
) -> (Seq<PrefetchEntry>, bool) {
    let (e1, f1) = prefetch_step(entries, UsageNudgePrefetchWindow::Primary, primary);
    let (e2, f2) = prefetch_step(e1, UsageNudgePrefetchWindow::Secondary, secondary);
    (e2, f1 || f2)
}

/// No two watermarks for the same window.
pub open spec fn keys_distinct(entries: Seq<PrefetchEntry>) -> bool {
    forall|i: int, j: int| 0 <= i < j < entries.len() ==> #[trigger] entries[i].0 != #[trigger] entries[j].0
}

/// The prompt state of a chat session.
pub struct CurrentUsageLimitNudgePromptState {
    pub active: bool,
    pub pending: Option<UsageLimitNudge>,
    pub has_shown: bool,
    pub last_prefetches: Vec<PrefetchEntry>,
}

impl CurrentUsageLimitNudgePromptState {
    pub open spec fn wf(&self) -> bool {
        keys_distinct(self.last_prefetches@)
    }

    pub fn new() -> (r: Self)
        ensures
            r.wf(),
            !r.active,
            r.pending is None,
            !r.has_shown,
            r.last_prefetches@.len() == 0,
    {
        CurrentUsageLimitNudgePromptState {
            active: false,
            pending: None,
            has_shown: false,
            last_prefetches: Vec::new(),
        }
    }

    /// Takes the nudge of the latest snapshot: the state is active while
    /// there is one, and it waits to be shown unless a nudge was shown
    /// already this session.
    pub fn update(&mut self, nudge: Option<UsageLimitNudge>)
        ensures
            final(self).active == nudge is Some,
            final(self).pending == (if old(self).has_shown {
                None
            } else {
                nudge
            }),
            final(self).has_shown == old(self).has_shown,
            final(self).last_prefetches@ == old(self).last_prefetches@,
    {
        self.active = nudge.is_some();
        self.pending = if self.has_shown {
            None
        } else {
            nudge
        };
    }

    /// Hands out the waiting nudge, if any, and marks the session as having
    /// shown one.
    pub fn take_pending(&mut self) -> (r: Option<UsageLimitNudge>)
        ensures
            r == old(self).pending,
            final(self).pending is None,
            final(self).has_shown == (old(self).has_shown || old(self).pending is Some),
            final(self).active == old(self).active,
            final(self).last_prefetches@ == old(self).last_prefetches@,
    {
        match self.pending {
            Some(nudge) => {
                self.pending = None;
                self.has_shown = true;
                Some(nudge)
            },
            None => None,
        }
    }

    pub fn is_active(&self) -> (r: bool)
        ensures
            r == self.active,
    {
        self.active
    }

    pub fn has_pending(&self) -> (r: bool)
        ensures
            r == self.pending is Some,
    {
        self.pending.is_some()
    }

    fn find_entry(&self, key: UsageNudgePrefetchKey) -> (r: Option<usize>)
        ensures
            match r {
                Some(i) => i as int == entry_index(self.last_prefetches@, key) && i < self.last_prefetches@.len(),
                None => entry_index(self.last_prefetches@, key) == -1,
            },
    {
        let mut i: usize = 0;
        while i < self.last_prefetches.len()
            invariant
                i <= self.last_prefetches.len(),
                entry_index(self.last_prefetches@, key) == entry_index_from(
                    self.last_prefetches@,
                    key,
                    i as int,
                ),
            decreases self.last_prefetches.len() - i,
        {
            if self.last_prefetches[i].0 == key {
                return Some(i);
            }
            i = i + 1;
        }
        None
    }

    fn prefetch_window(&mut self, kind: UsageNudgePrefetchWindow, window: Option<RateLimitWindow>) -> (r:
        bool)
        requires
            old(self).wf(),
        ensures
            final(self).wf(),
            (final(self).last_prefetches@, r) == prefetch_step(old(self).last_prefetches@, kind, window),
            final(self).active == old(self).active,
            final(self).pending == old(self).pending,
            final(self).has_shown == old(self).has_shown,
    {
        let w = match window {
            Some(w) => w,
            None => return false,
        };
        let t = match UsageNudgePrefetchThreshold::from_used_percent(w.used_percent) {
            Some(t) => t,
            None => return false,
        };
        let key = UsageNudgePrefetchKey {
            window: kind,
            window_duration_mins: w.window_duration_mins,
            resets_at: w.resets_at,
        };
        match self.find_entry(key) {
            Some(i) => {
                let last = self.last_prefetches[i].1;
                if last.at_least(t) {
                    return false;
                }
                proof {
                    lemma_entry_index_found(self.last_prefetches@, key, 0);
                }
                self.last_prefetches.set(i, (key, t));
                true
            },
            None => {
                proof {
                    let e = self.last_prefetches@;
                    assert forall|j: int| 0 <= j < e.len() implies e[j].0 != key by {
                        lemma_entry_index_absent(e, key, 0, j);
                    }
                }
                self.last_prefetches.push((key, t));
                true
            },
        }
    }

    /// Records a live rate-limit update and says whether to refetch the
    /// snapshot (so that the backend can attach a nudge): once per window
    /// each time its usage reaches a threshold above the highest one already
    /// refetched for in that window.
    pub fn should_prefetch(
        &mut self,
        primary: Option<RateLimitWindow>,
        secondary: Option<RateLimitWindow>,
    ) -> (r: bool)
        requires
            old(self).wf(),
        ensures
            final(self).wf(),
            (final(self).last_prefetches@, r) == prefetch_spec(
                old(self).last_prefetches@,
                primary,
                secondary,
            ),
            final(self).active == old(self).active,
            final(self).pending == old(self).pending,
            final(self).has_shown == old(self).has_shown,
    {
        let a = self.prefetch_window(UsageNudgePrefetchWindow::Primary, primary);
        let b = self.prefetch_window(UsageNudgePrefetchWindow::Secondary, secondary);
        a || b
    }
}

proof fn lemma_entry_index_found(e: Seq<PrefetchEntry>, key: UsageNudgePrefetchKey, i: int)
    requires
        0 <= i,
    ensures
        entry_index_from(e, key, i) == -1 || (i <= entry_index_from(e, key, i) < e.len()
            && e[entry_index_from(e, key, i)].0 == key),
    decreases e.len() - i,
{
    if i < e.len() && e[i].0 != key {
        lemma_entry_index_found(e, key, i + 1);
    }
}

proof fn lemma_entry_index_absent(e: Seq<PrefetchEntry>, key: UsageNudgePrefetchKey, i: int, j: int)
    requires
        0 <= i <= j < e.len(),
        entry_index_from(e, key, i) == -1,
    ensures
        e[j].0 != key,
    decreases j - i,
{
    if i < j {
        lemma_entry_index_absent(e, key, i + 1, j);
    }
}


proof fn lemma_index_after_push(e: Seq<PrefetchEntry>, x: PrefetchEntry, k: UsageNudgePrefetchKey, i: int)
    requires
        0 <= i,
    ensures
        entry_index_from(e.push(x), k, i) == (if entry_index_from(e, k, i) >= 0 {
            entry_index_from(e, k, i)
        } else if x.0 == k && i <= e.len() {
            e.len() as int
        } else {
            -1
        }),
    decreases e.len() + 1 - i,
{
    reveal_with_fuel(entry_index_from, 2);
    if i < e.len() {
        assert(e.push(x)[i] == e[i]);
        if e[i].0 != k {
            lemma_index_after_push(e, x, k, i + 1);
        }
    } else if i == e.len() {
        assert(e.push(x)[i] == x);
    }
}

proof fn lemma_index_after_update(
    e: Seq<PrefetchEntry>,
    j: int,
    y: PrefetchEntry,
    k: UsageNudgePrefetchKey,
    i: int,
)
    requires
        0 <= i,
        0 <= j < e.len(),
        e[j].0 == y.0,
    ensures
        entry_index_from(e.update(j, y), k, i) == entry_index_from(e, k, i),
    decreases e.len() - i,
{
    if i < e.len() && e.update(j, y)[i].0 != k {
        lemma_index_after_update(e, j, y, k, i + 1);
    }
}

/// After a step for `kind`, the watermark of the stepped window has reached
/// the window's threshold, and the other windows' entries are where they were.
proof fn lemma_step_records(
    e: Seq<PrefetchEntry>,
    kind: UsageNudgePrefetchWindow,
    window: Option<RateLimitWindow>,
    other: UsageNudgePrefetchKey,
)
    requires
        keys_distinct(e),
    ensures
        keys_distinct(prefetch_step(e, kind, window).0),
        other.window != kind ==> entry_index(prefetch_step(e, kind, window).0, other) == entry_index(
            e,
            other,
        ),
        other.window != kind && entry_index(e, other) >= 0 ==> prefetch_step(e, kind, window).0[entry_index(
            e,
            other,
        )] == e[entry_index(e, other)],
        window matches Some(w) ==> (threshold_for(w.used_percent) matches Some(t) ==> {
            let key = UsageNudgePrefetchKey {
                window: kind,
                window_duration_mins: w.window_duration_mins,
                resets_at: w.resets_at,
            };
            let e2 = prefetch_step(e, kind, window).0;
            let i = entry_index(e2, key);
            0 <= i < e2.len() && threshold_rank(e2[i].1) >= threshold_rank(t)
        }),
{
    lemma_entry_index_found(e, other, 0);
    match window {
        None => {},
        Some(w) => match threshold_for(w.used_percent) {
            None => {},
            Some(t) => {
                let key = UsageNudgePrefetchKey {
                    window: kind,
                    window_duration_mins: w.window_duration_mins,
                    resets_at: w.resets_at,
                };
                let i = entry_index(e, key);
                lemma_entry_index_found(e, key, 0);
                if i < 0 {
                    lemma_index_after_push(e, (key, t), other, 0);
                    lemma_index_after_push(e, (key, t), key, 0);
                    assert forall|a: int, b: int| 0 <= a < b < e.push((key, t)).len() implies #[trigger] e.push(
                        (key, t),
                    )[a].0 != #[trigger] e.push((key, t))[b].0 by {
                        if b == e.len() {
                            lemma_entry_index_absent(e, key, 0, a);
                        }
                    }
                } else if threshold_rank(e[i].1) >= threshold_rank(t) {
                } else {
                    lemma_index_after_update(e, i, (key, t), other, 0);
                    lemma_index_after_update(e, i, (key, t), key, 0);
                    assert forall|a: int, b: int| 0 <= a < b < e.len() implies #[trigger] e.update(i, (key, t))[a].0
                        != #[trigger] e.update(i, (key, t))[b].0 by {
                        assert(e[a].0 != e[b].0);
                    }
                }
            },
        },
    }
}

/// The same live update seen twice asks for a refetch at most once: after
/// `should_prefetch` has recorded it, recording it again changes nothing and
/// returns `false`.
pub proof fn lemma_prefetch_idempotent(
    entries: Seq<PrefetchEntry>,
    primary: Option<RateLimitWindow>,
    secondary: Option<RateLimitWindow>,
)
    requires
        keys_distinct(entries),
    ensures
        prefetch_spec(prefetch_spec(entries, primary, secondary).0, primary, secondary) == (
            prefetch_spec(entries, primary, secondary).0,
            false,
        ),
{
    let e1 = prefetch_step(entries, UsageNudgePrefetchWindow::Primary, primary).0;
    let e2 = prefetch_step(e1, UsageNudgePrefetchWindow::Secondary, secondary).0;
    let dummy = UsageNudgePrefetchKey {
        window: UsageNudgePrefetchWindow::Primary,
        window_duration_mins: None,
        resets_at: None,
    };
    lemma_step_records(entries, UsageNudgePrefetchWindow::Primary, primary, dummy);
    match primary {
        Some(w) => match threshold_for(w.used_percent) {
            Some(t) => {
                let kp = UsageNudgePrefetchKey {
                    window: UsageNudgePrefetchWindow::Primary,
                    window_duration_mins: w.window_duration_mins,
                    resets_at: w.resets_at,
                };
                lemma_step_records(e1, UsageNudgePrefetchWindow::Secondary, secondary, kp);
                assert(prefetch_step(e2, UsageNudgePrefetchWindow::Primary, primary) == (e2, false));
            },
            None => {
                lemma_step_records(e1, UsageNudgePrefetchWindow::Secondary, secondary, dummy);
            },
        },
        None => {
            lemma_step_records(e1, UsageNudgePrefetchWindow::Secondary, secondary, dummy);
        },
    }
    let ks = UsageNudgePrefetchKey {
        window: UsageNudgePrefetchWindow::Secondary,
        window_duration_mins: None,
        resets_at: None,
    };
    lemma_step_records(e2, UsageNudgePrefetchWindow::Primary, primary, ks);
    match secondary {
        Some(w) => match threshold_for(w.used_percent) {
            Some(t) => {
                let kss = UsageNudgePrefetchKey {
                    window: UsageNudgePrefetchWindow::Secondary,
                    window_duration_mins: w.window_duration_mins,
                    resets_at: w.resets_at,
                };
                lemma_step_records(e1, UsageNudgePrefetchWindow::Secondary, secondary, kss);
                lemma_step_records(e2, UsageNudgePrefetchWindow::Primary, primary, kss);
            },
            None => {},
        },
        None => {},
    }
}

/// The threshold last refetched for a window, if any.
pub open spec fn recorded(entries: Seq<PrefetchEntry>, key: UsageNudgePrefetchKey) -> Option<
    UsageNudgePrefetchThreshold,
> {
    let i = entry_index(entries, key);
    if 0 <= i < entries.len() {
        Some(entries[i].1)
    } else {
        None
    }
}

pub open spec fn window_key(kind: UsageNudgePrefetchWindow, w: RateLimitWindow) -> UsageNudgePrefetchKey {
    UsageNudgePrefetchKey {
        window: kind,
        window_duration_mins: w.window_duration_mins,
        resets_at: w.resets_at,
    }
}

/// The threshold a live update of `kind` reaches in the window `key`: none
/// when the update is about another window.
pub open spec fn reached(
    kind: UsageNudgePrefetchWindow,
    window: Option<RateLimitWindow>,
    key: UsageNudgePrefetchKey,
) -> Option<UsageNudgePrefetchThreshold> {
    match window {
        Some(w) => if window_key(kind, w) == key {
            threshold_for(w.used_percent)
        } else {
            None
        },
        None => None,
    }
}

/// A watermark raised to a threshold reached: the higher of the two.
pub open spec fn raise(
    m: Option<UsageNudgePrefetchThreshold>,
    t: Option<UsageNudgePrefetchThreshold>,
) -> Option<UsageNudgePrefetchThreshold> {
    match (m, t) {
        (_, None) => m,
        (None, Some(t)) => Some(t),
        (Some(m), Some(t)) => if threshold_rank(m) >= threshold_rank(t) {
            Some(m)
        } else {
            Some(t)
        },
    }
}

/// Whether a live window has reached a threshold above the one last
/// refetched for it.
pub open spec fn crosses(
    entries: Seq<PrefetchEntry>,
    kind: UsageNudgePrefetchWindow,
    window: Option<RateLimitWindow>,
) -> bool {
    match window {
        None => false,
        Some(w) => match threshold_for(w.used_percent) {
            None => false,
            Some(t) => match recorded(entries, window_key(kind, w)) {
                None => true,
                Some(m) => threshold_rank(t) > threshold_rank(m),
            },
        },
    }
}

proof fn lemma_step_raises(
    e: Seq<PrefetchEntry>,
    kind: UsageNudgePrefetchWindow,
    window: Option<RateLimitWindow>,
    key: UsageNudgePrefetchKey,
)
    requires
        keys_distinct(e),
    ensures
        prefetch_step(e, kind, window).1 == crosses(e, kind, window),
        recorded(prefetch_step(e, kind, window).0, key) == raise(recorded(e, key), reached(kind, window, key)),
{
    lemma_entry_index_found(e, key, 0);
    match window {
        None => {},
        Some(w) => match threshold_for(w.used_percent) {
            None => {},
            Some(t) => {
                let k0 = window_key(kind, w);
                let i = entry_index(e, k0);
                lemma_entry_index_found(e, k0, 0);
                let j = entry_index(e, key);
                if i < 0 {
                    lemma_index_after_push(e, (k0, t), key, 0);
                    if j >= 0 {
                        assert(e.push((k0, t))[j] == e[j]);
                    }
                } else if threshold_rank(e[i].1) >= threshold_rank(t) {
                } else {
                    lemma_index_after_update(e, i, (k0, t), key, 0);
                    if j >= 0 && j != i {
                        assert(e.update(i, (k0, t))[j] == e[j]);
                        assert(key != k0);
                    }
                }
            },
        },
    }
}

/// What a live update does to the refetch watermarks: it asks for a refetch
/// exactly when some window reached a threshold above the one last refetched
/// for it, and afterwards each window's watermark is the higher of what it
/// was and what the update reached; windows the update is not about keep
/// theirs.
pub proof fn lemma_prefetch_thresholds(
    entries: Seq<PrefetchEntry>,
    primary: Option<RateLimitWindow>,
    secondary: Option<RateLimitWindow>,
    key: UsageNudgePrefetchKey,
)
    requires
        keys_distinct(entries),
    ensures
        prefetch_spec(entries, primary, secondary).1 == (crosses(
            entries,
            UsageNudgePrefetchWindow::Primary,
            primary,
        ) || crosses(entries, UsageNudgePrefetchWindow::Secondary, secondary)),
        recorded(prefetch_spec(entries, primary, secondary).0, key) == raise(
            raise(recorded(entries, key), reached(UsageNudgePrefetchWindow::Primary, primary, key)),
            reached(UsageNudgePrefetchWindow::Secondary, secondary, key),
        ),
        keys_distinct(prefetch_spec(entries, primary, secondary).0),
{
    let e1 = prefetch_step(entries, UsageNudgePrefetchWindow::Primary, primary).0;
    lemma_step_records(entries, UsageNudgePrefetchWindow::Primary, primary, key);
    lemma_step_raises(entries, UsageNudgePrefetchWindow::Primary, primary, key);
    lemma_step_raises(e1, UsageNudgePrefetchWindow::Secondary, secondary, key);
    lemma_step_records(e1, UsageNudgePrefetchWindow::Secondary, secondary, key);
    match secondary {
        Some(w) => {
            let ks = window_key(UsageNudgePrefetchWindow::Secondary, w);
            lemma_step_raises(entries, UsageNudgePrefetchWindow::Primary, primary, ks);
            assert(recorded(e1, ks) == recorded(entries, ks));
        },
        None => {},
    }
}

pub open spec fn action_label(a: UsageLimitNudgeAction) -> Seq<char> {
    match a {
        UsageLimitNudgeAction::AddCredits => "Add credits"@,
        UsageLimitNudgeAction::Upgrade => "Upgrade"@,
    }
}

pub open spec fn subtitle_spec(nudge: UsageLimitNudge) -> Seq<char> {
    "You're at "@ + crate::text::decimal(nudge.threshold as nat) + "% of your Codex usage limit. "@
        + action_label(nudge.action) + " now to keep going?"@
}

/// The line under the prompt's title.
pub fn prompt_subtitle(nudge: &UsageLimitNudge) -> (r: String)
    ensures
        r@ == subtitle_spec(*nudge),
{
    let mut out: Vec<char> = Vec::new();
    push_str(&mut out, "You're at ");
    push_decimal(&mut out, nudge.threshold as u64);
    push_str(&mut out, "% of your Codex usage limit. ");
    match nudge.action {
        UsageLimitNudgeAction::AddCredits => push_str(&mut out, "Add credits"),
        UsageLimitNudgeAction::Upgrade => push_str(&mut out, "Upgrade"),
    }
    push_str(&mut out, " now to keep going?");
    chars_to_string(out.as_slice())
}

/// Where the prompt's button leads: the upgrade page for an upgrade, the
/// workspace billing page for credits on a workspace account, the usage
/// settings otherwise.
pub fn prompt_url(nudge: &UsageLimitNudge, workspace_account: bool) -> (r: &'static str)
    ensures
        nudge.action == UsageLimitNudgeAction::Upgrade ==> r@ == UPGRADE_USAGE_LIMIT_NUDGE_URL@,
        nudge.action == UsageLimitNudgeAction::AddCredits && workspace_account ==> r@
            == WORKSPACE_OWNER_USAGE_LIMIT_NUDGE_URL@,
        nudge.action == UsageLimitNudgeAction::AddCredits && !workspace_account ==> r@
            == CURRENT_USAGE_LIMIT_NUDGE_URL@,
{
    match nudge.action {
        UsageLimitNudgeAction::Upgrade => UPGRADE_USAGE_LIMIT_NUDGE_URL,
        UsageLimitNudgeAction::AddCredits => {
            if workspace_account {
                WORKSPACE_OWNER_USAGE_LIMIT_NUDGE_URL
            } else {
                CURRENT_USAGE_LIMIT_NUDGE_URL
            }
        },
    }
}

} // verus!
