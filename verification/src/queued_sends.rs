//! Queued sends paused by a usage limit: the two queues (rejected steers and
//! follow-up messages) with their history records, and what reviewing,
//! editing, dropping and resuming them does.

use vstd::prelude::*;

use crate::text::{chars_to_string, decimal, push_decimal, push_str, str_to_string};
use crate::worktree::opt_view;

verus! {

/// Which queue a paused input sits in.
#[derive(Clone, Copy, Debug, PartialEq, Eq, Structural)]
pub enum PausedQueuedInputKind {
    Steering,
    FollowUp,
}

/// The queued input being edited in the composer.
#[derive(Clone, Copy, Debug, PartialEq, Eq, Structural)]
pub struct PausedQueuedSendEdit {
    pub kind: PausedQueuedInputKind,
    pub index: usize,
}

/// The paused queues. Each message has a history record at the same index
/// (`R`), which says how the message is restored for editing.
pub struct PausedQueues<M, R> {
    pub steers: Vec<M>,
    pub steer_records: Vec<R>,
    pub follow_ups: Vec<M>,
    pub follow_up_records: Vec<R>,
    pub paused: bool,
    pub edit: Option<PausedQueuedSendEdit>,
}

impl<M, R> PausedQueues<M, R> {
    pub open spec fn queue(&self, kind: PausedQueuedInputKind) -> Seq<M> {
        match kind {
            PausedQueuedInputKind::Steering => self.steers@,
            PausedQueuedInputKind::FollowUp => self.follow_ups@,
        }
    }

    pub open spec fn records(&self, kind: PausedQueuedInputKind) -> Seq<R> {
        match kind {
            PausedQueuedInputKind::Steering => self.steer_records@,
            PausedQueuedInputKind::FollowUp => self.follow_up_records@,
        }
    }

    /// Every queued message has its history record.
    pub open spec fn wf(&self) -> bool {
        &&& self.steers@.len() == self.steer_records@.len()
        &&& self.follow_ups@.len() == self.follow_up_records@.len()
    }

    pub open spec fn has_queued_spec(&self) -> bool {
        self.steers@.len() > 0 || self.follow_ups@.len() > 0
    }

    /// Nothing queued, nothing paused, nothing being edited.
    pub fn new() -> (r: Self)
        ensures
            r.wf(),
            r.steers@.len() == 0,
            r.steer_records@.len() == 0,
            r.follow_ups@.len() == 0,
            r.follow_up_records@.len() == 0,
            !r.paused,
            r.edit is None,
    {
        PausedQueues {
            steers: Vec::new(),
            steer_records: Vec::new(),
            follow_ups: Vec::new(),
            follow_up_records: Vec::new(),
            paused: false,
            edit: None,
        }
    }

    /// Whether any input is queued.
    pub fn has_queued(&self) -> (r: bool)
        ensures
            r == self.has_queued_spec(),
    {
        self.steers.len() > 0 || self.follow_ups.len() > 0
    }

    /// A usage-limit error pauses the queues, when something is queued.
    pub fn pause_after_limit_error(&mut self)
        ensures
            final(self).paused == (old(self).paused || old(self).has_queued_spec()),
            final(self).steers@ == old(self).steers@,
            final(self).follow_ups@ == old(self).follow_ups@,
            final(self).steer_records@ == old(self).steer_records@,
            final(self).follow_up_records@ == old(self).follow_up_records@,
            final(self).edit == old(self).edit,
    {
        if self.has_queued() {
            self.paused = true;
        }
    }

    /// Resuming unpauses and forgets any edit in progress.
    pub fn resume(&mut self)
        ensures
            !final(self).paused,
            final(self).edit is None,
            final(self).steers@ == old(self).steers@,
            final(self).follow_ups@ == old(self).follow_ups@,
            final(self).steer_records@ == old(self).steer_records@,
            final(self).follow_up_records@ == old(self).follow_up_records@,
    {
        self.paused = false;
        self.edit = None;
    }

    /// Starts editing the input at `index` of `kind`, if there is one: it
    /// becomes the edit in progress, and the message is handed back to be
    /// restored into the composer.
    pub fn begin_edit(&mut self, kind: PausedQueuedInputKind, index: usize) -> (r: bool)
        ensures
            r == (index < old(self).queue(kind).len()),
            r ==> final(self).edit == Some(PausedQueuedSendEdit { kind, index }),
            !r ==> final(self).edit == old(self).edit,
            final(self).paused == old(self).paused,
            final(self).steers@ == old(self).steers@,
            final(self).follow_ups@ == old(self).follow_ups@,
            final(self).steer_records@ == old(self).steer_records@,
            final(self).follow_up_records@ == old(self).follow_up_records@,
    {
        let len = match kind {
            PausedQueuedInputKind::Steering => self.steers.len(),
            PausedQueuedInputKind::FollowUp => self.follow_ups.len(),
        };
        if index < len {
            self.edit = Some(PausedQueuedSendEdit { kind, index });
            true
        } else {
            false
        }
    }

    /// The queued message at `index` of `kind`, if any.
    pub fn queued_message(&self, kind: PausedQueuedInputKind, index: usize) -> (r: Option<&M>)
        ensures
            index < self.queue(kind).len() ==> r == Some(&self.queue(kind)[index as int]),
            index >= self.queue(kind).len() ==> r is None,
    {
        match kind {
            PausedQueuedInputKind::Steering => {
                if index < self.steers.len() {
                    Some(&self.steers[index])
                } else {
                    None
                }
            },
            PausedQueuedInputKind::FollowUp => {
                if index < self.follow_ups.len() {
                    Some(&self.follow_ups[index])
                } else {
                    None
                }
            },
        }
    }

    /// Saves an edited input back where it came from (or at the end of its
    /// queue, should that place be gone), with a plain-text history record.
    /// Returns whether an edit was in progress; the edit ends either way.
    pub fn save_edit(&mut self, message: M, text_record: R) -> (r: bool)
        requires
            old(self).wf(),
        ensures
            r == old(self).edit is Some,
            final(self).edit is None,
            final(self).paused == old(self).paused,
            final(self).wf(),
            match old(self).edit {
                None => final(self).steers@ == old(self).steers@ && final(self).follow_ups@ == old(
                    self,
                ).follow_ups@ && final(self).steer_records@ == old(self).steer_records@
                    && final(self).follow_up_records@ == old(self).follow_up_records@,
                Some(e) => {
                    let k = e.kind;
                    let i = e.index as int;
                    &&& (i < old(self).queue(k).len() ==> final(self).queue(k) == old(self).queue(
                        k,
                    ).update(i, message) && final(self).records(k) == old(self).records(k).update(
                        i,
                        text_record,
                    ))
                    &&& (i >= old(self).queue(k).len() ==> final(self).queue(k) == old(self).queue(
                        k,
                    ).push(message) && final(self).records(k) == old(self).records(k).push(
                        text_record,
                    ))
                    &&& (k == PausedQueuedInputKind::Steering ==> final(self).follow_ups@ == old(
                        self,
                    ).follow_ups@ && final(self).follow_up_records@ == old(self).follow_up_records@)
                    &&& (k == PausedQueuedInputKind::FollowUp ==> final(self).steers@ == old(
                        self,
                    ).steers@ && final(self).steer_records@ == old(self).steer_records@)
                },
            },
    {
        let edit = match self.edit {
            Some(e) => e,
            None => return false,
        };
        self.edit = None;
        match edit.kind {
            PausedQueuedInputKind::Steering => {
                if edit.index < self.steers.len() {
                    self.steers.set(edit.index, message);
                    self.steer_records.set(edit.index, text_record);
                } else {
                    self.steers.push(message);
                    self.steer_records.push(text_record);
                }
            },
            PausedQueuedInputKind::FollowUp => {
                if edit.index < self.follow_ups.len() {
                    self.follow_ups.set(edit.index, message);
                    self.follow_up_records.set(edit.index, text_record);
                } else {
                    self.follow_ups.push(message);
                    self.follow_up_records.push(text_record);
                }
            },
        }
        true
    }

    /// Drops the input at `index` of `kind` and its history record; returns
    /// whether there was one.
    pub fn drop_queued(&mut self, kind: PausedQueuedInputKind, index: usize) -> (r: bool)
        requires
            old(self).wf(),
        ensures
            r == (index < old(self).queue(kind).len()),
            r ==> final(self).queue(kind) == old(self).queue(kind).remove(index as int)
                && final(self).records(kind) == old(self).records(kind).remove(index as int),
            !r ==> final(self).queue(kind) == old(self).queue(kind) && final(self).records(kind)
                == old(self).records(kind),
            kind == PausedQueuedInputKind::Steering ==> final(self).follow_ups@ == old(
                self,
            ).follow_ups@ && final(self).follow_up_records@ == old(self).follow_up_records@,
            kind == PausedQueuedInputKind::FollowUp ==> final(self).steers@ == old(self).steers@
                && final(self).steer_records@ == old(self).steer_records@,
            final(self).wf(),
            final(self).paused == old(self).paused,
            final(self).edit == old(self).edit,
    {
        match kind {
            PausedQueuedInputKind::Steering => {
                if index < self.steers.len() {
                    self.steers.remove(index);
                    self.steer_records.remove(index);
                    true
                } else {
                    false
                }
            },
            PausedQueuedInputKind::FollowUp => {
                if index < self.follow_ups.len() {
                    self.follow_ups.remove(index);
                    self.follow_up_records.remove(index);
                    true
                } else {
                    false
                }
            },
        }
    }

    /// Drops every queued input and any edit in progress.
    pub fn drop_all(&mut self)
        ensures
            final(self).wf(),
            final(self).steers@.len() == 0,
            final(self).steer_records@.len() == 0,
            final(self).follow_ups@.len() == 0,
            final(self).follow_up_records@.len() == 0,
            final(self).edit is None,
            final(self).paused == old(self).paused,
    {
        self.steers.clear();
        self.steer_records.clear();
        self.follow_ups.clear();
        self.follow_up_records.clear();
        self.edit = None;
    }

    /// The review list: every steer, then every follow-up, each with its
    /// queue index and its 1-based position in the list.
    pub fn review_entries(&self) -> (r: Vec<(PausedQueuedInputKind, usize, usize)>)
        requires
            self.steers@.len() + self.follow_ups@.len() < usize::MAX,
        ensures
            r@.len() == self.steers@.len() + self.follow_ups@.len(),
            forall|i: int|
                0 <= i < self.steers@.len() ==> #[trigger] r@[i] == (
                    PausedQueuedInputKind::Steering,
                    i as usize,
                    (i + 1) as usize,
                ),
            forall|j: int|
                0 <= j < self.follow_ups@.len() ==> #[trigger] r@[self.steers@.len() + j] == (
                    PausedQueuedInputKind::FollowUp,
                    j as usize,
                    (self.steers@.len() + j + 1) as usize,
                ),
    {
        let mut out: Vec<(PausedQueuedInputKind, usize, usize)> = Vec::new();
        let n = self.steers.len();
        let m = self.follow_ups.len();
        let mut i: usize = 0;
        while i < n
            invariant
                i <= n == self.steers@.len(),
                n + m < usize::MAX,
                out@.len() == i,
                forall|k: int|
                    0 <= k < i ==> #[trigger] out@[k] == (
                        PausedQueuedInputKind::Steering,
                        k as usize,
                        (k + 1) as usize,
                    ),
            decreases n - i,
        {
            out.push((PausedQueuedInputKind::Steering, i, i + 1));
            i = i + 1;
        }
        let mut j: usize = 0;
        while j < m
            invariant
                j <= m == self.follow_ups@.len(),
                n == self.steers@.len(),
                n + m < usize::MAX,
                out@.len() == n + j,
                forall|k: int|
                    0 <= k < n ==> #[trigger] out@[k] == (
                        PausedQueuedInputKind::Steering,
                        k as usize,
                        (k + 1) as usize,
                    ),
                forall|k: int|
                    0 <= k < j ==> #[trigger] out@[n + k] == (
                        PausedQueuedInputKind::FollowUp,
                        k as usize,
                        (n + k + 1) as usize,
                    ),
            decreases m - j,
        {
            out.push((PausedQueuedInputKind::FollowUp, j, n + j + 1));
            j = j + 1;
        }
        out
    }
}

/// What choosing a row of the review list does.
#[derive(Clone, Copy, Debug, PartialEq, Eq, Structural)]
pub enum ReviewAction {
    /// A header or spacer: nothing.
    Nothing,
    /// Opens the actions for one queued input.
    OpenActions(PausedQueuedInputKind, usize),
    /// Resumes sending every queued input.
    ResumeAll,
    /// Drops every queued input.
    DropAll,
}

/// A row of the review list.
#[derive(Clone, Debug)]
pub struct ReviewItem {
    pub name: String,
    pub description: Option<String>,
    pub is_disabled: bool,
    pub dismiss_on_select: bool,
    pub action: ReviewAction,
}

/// A row's name, description, whether it is disabled, whether choosing it
/// closes the list, and its action.
pub open spec fn item_view(item: ReviewItem) -> (Seq<char>, Option<Seq<char>>, bool, bool, ReviewAction) {
    (item.name@, opt_view(item.description), item.is_disabled, item.dismiss_on_select, item.action)
}

pub open spec fn review_header(name: Seq<char>) -> (Seq<char>, Option<Seq<char>>, bool, bool, ReviewAction) {
    (name, None, true, false, ReviewAction::Nothing)
}

/// The row for the queued input at position `k` (0-based) of the list:
/// steers first, then follow-ups, each in queue order.
pub open spec fn review_input_row(steers: nat, k: int, preview: Seq<char>) -> (
    Seq<char>,
    Option<Seq<char>>,
    bool,
    bool,
    ReviewAction,
) {
    (
        "Input "@ + decimal((k + 1) as nat),
        Some(preview),
        false,
        false,
        if k < steers {
            ReviewAction::OpenActions(PausedQueuedInputKind::Steering, k as usize)
        } else {
            ReviewAction::OpenActions(PausedQueuedInputKind::FollowUp, (k - steers) as usize)
        },
    )
}

fn header_item(name: &str) -> (r: ReviewItem)
    ensures
        item_view(r) == review_header(name@),
{
    ReviewItem {
        name: str_to_string(name),
        description: None,
        is_disabled: true,
        dismiss_on_select: false,
        action: ReviewAction::Nothing,
    }
}

fn queue_action_item(name: &str, description: &str, action: ReviewAction) -> (r: ReviewItem)
    ensures
        item_view(r) == (name@, Some(description@), false, true, action),
{
    ReviewItem {
        name: str_to_string(name),
        description: Some(str_to_string(description)),
        is_disabled: false,
        dismiss_on_select: true,
        action,
    }
}

impl<M, R> PausedQueues<M, R> {
    /// The rows of the review list: a "Queued inputs" header, one row per
    /// queued input (named `Input <position>`, described by its preview,
    /// opening its actions), a spacer, a "Queue actions" header, and the rows
    /// that resume or drop everything. `previews` holds each input's preview
    /// in list order.
    pub fn review_items(&self, previews: &[String]) -> (r: Vec<ReviewItem>)
        requires
            previews@.len() == self.steers@.len() + self.follow_ups@.len(),
            self.steers@.len() + self.follow_ups@.len() + 5 < usize::MAX,
        ensures
            r@.len() == previews@.len() + 5,
            item_view(r@[0]) == review_header("Queued inputs"@),
            forall|k: int|
                0 <= k < previews@.len() ==> item_view(#[trigger] r@[k + 1]) == review_input_row(
                    self.steers@.len(),
                    k,
                    previews@[k]@,
                ),
            item_view(r@[previews@.len() as int + 1]) == review_header(Seq::empty()),
            item_view(r@[previews@.len() as int + 2]) == review_header("Queue actions"@),
            item_view(r@[previews@.len() as int + 3]) == (
                "Resume all queued inputs"@,
                Some("Continue sending remaining queued inputs."@),
                false,
                true,
                ReviewAction::ResumeAll,
            ),
            item_view(r@[previews@.len() as int + 4]) == (
                "Drop all queued inputs"@,
                Some("Clear every queued input without sending them."@),
                false,
                true,
                ReviewAction::DropAll,
            ),
    {
        let entries = self.review_entries();
        let n = previews.len();
        let ns = self.steers.len();
        let mut out: Vec<ReviewItem> = Vec::new();
        out.push(header_item("Queued inputs"));
        let mut k: usize = 0;
        while k < n
            invariant
                k <= n == previews@.len() == entries@.len(),
                ns == self.steers@.len(),
                n + 5 < usize::MAX,
                out@.len() == k + 1,
                item_view(out@[0]) == review_header("Queued inputs"@),
                forall|i: int| 0 <= i < ns ==> #[trigger] entries@[i] == (
                    PausedQueuedInputKind::Steering,
                    i as usize,
                    (i + 1) as usize,
                ),
                forall|j: int| 0 <= j < n - ns ==> #[trigger] entries@[ns + j] == (
                    PausedQueuedInputKind::FollowUp,
                    j as usize,
                    (ns + j + 1) as usize,
                ),
                forall|i: int|
                    0 <= i < k ==> item_view(#[trigger] out@[i + 1]) == review_input_row(
                        ns as nat,
                        i,
                        previews@[i]@,
                    ),
            decreases n - k,
        {
            let (kind, index, position) = entries[k];
            proof {
                if k < ns {
                    assert(entries@[k as int] == (PausedQueuedInputKind::Steering, k, (k + 1) as usize));
                } else {
                    assert(entries@[ns + (k - ns)] == (
                        PausedQueuedInputKind::FollowUp,
                        (k - ns) as usize,
                        (k + 1) as usize,
                    ));
                }
            }
            let mut name: Vec<char> = Vec::new();
            push_str(&mut name, "Input ");
            push_decimal(&mut name, position as u64);
            out.push(
                ReviewItem {
                    name: chars_to_string(name.as_slice()),
                    description: Some(previews[k].clone()),
                    is_disabled: false,
                    dismiss_on_select: false,
                    action: ReviewAction::OpenActions(kind, index),
                },
            );
            k = k + 1;
        }
        out.push(header_item(""));
        out.push(header_item("Queue actions"));
        out.push(
            queue_action_item(
                "Resume all queued inputs",
                "Continue sending remaining queued inputs.",
                ReviewAction::ResumeAll,
            ),
        );
        out.push(
            queue_action_item(
                "Drop all queued inputs",
                "Clear every queued input without sending them.",
                ReviewAction::DropAll,
            ),
        );
        proof {
            reveal_strlit("");
        }
        out
    }
}

/// Whether to ask about resuming: the queues are paused with input queued,
/// no turn is pending or running, the composer is empty and no popup is up.
pub fn should_prompt_to_resume_queued_sends(
    paused: bool,
    has_queued: bool,
    turn_pending_or_running: bool,
    composer_empty: bool,
    no_modal_or_popup: bool,
) -> (r: bool)
    ensures
        r == (paused && has_queued && !turn_pending_or_running && composer_empty && no_modal_or_popup),
{
    paused && has_queued && !turn_pending_or_running && composer_empty && no_modal_or_popup
}

} // verus!
