//! The `/worktree` slash command: its arguments, what each form asks for, and
//! the small labels the worktree picker shows.

use vstd::prelude::*;
use vstd::string::*;

use crate::text::{
    char_seqs, chars_eq_str, chars_to_string, push_chars, push_str, split_words, str_chars,
    str_to_string, words, words_from,
};
use crate::worktree::{opt_view, DirtyPolicy, DirtyState, WorktreeInfo, WorktreeSource};
use crate::worktree_git::{matching_indices, matching_worktrees};

verus! {

/// What a `/worktree` command asks the app to do.
#[derive(Clone, Debug, PartialEq, Eq)]
pub enum WorktreeSlashAction {
    OpenPicker,
    Create { branch: String, base_ref: Option<String>, dirty_policy: Option<DirtyPolicy> },
    Switch { target: String },
    ShowPath { target: String },
    Remove { target: String, force: bool, delete_branch: bool },
}

/// The same action over character sequences, for contracts.
pub enum SlashView {
    OpenPicker,
    Create { branch: Seq<char>, base_ref: Option<Seq<char>>, dirty_policy: Option<DirtyPolicy> },
    Switch { target: Seq<char> },
    ShowPath { target: Seq<char> },
    Remove { target: Seq<char>, force: bool, delete_branch: bool },
}

pub open spec fn slash_view(a: WorktreeSlashAction) -> SlashView {
    match a {
        WorktreeSlashAction::OpenPicker => SlashView::OpenPicker,
        WorktreeSlashAction::Create { branch, base_ref, dirty_policy } => SlashView::Create {
            branch: branch@,
            base_ref: opt_view(base_ref),
            dirty_policy,
        },
        WorktreeSlashAction::Switch { target } => SlashView::Switch { target: target@ },
        WorktreeSlashAction::ShowPath { target } => SlashView::ShowPath { target: target@ },
        WorktreeSlashAction::Remove { target, force, delete_branch } => SlashView::Remove {
            target: target@,
            force,
            delete_branch,
        },
    }
}

pub open spec fn worktree_usage() -> Seq<char> {
    "Usage: /worktree [list|new <branch>|switch <branch>|path <branch>|remove <branch>]"@
}

pub open spec fn new_usage() -> Seq<char> {
    "Usage: /worktree new <branch> [--base <ref>] [--dirty <mode>]"@
}

pub open spec fn base_usage() -> Seq<char> {
    "Usage: /worktree new <branch> --base <ref>"@
}

pub open spec fn dirty_usage() -> Seq<char> {
    "Usage: /worktree new <branch> --dirty <mode>"@
}

pub open spec fn remove_usage() -> Seq<char> {
    "Usage: /worktree remove <branch-or-name> [--force] [--delete-branch]"@
}

pub open spec fn dirty_mode_error() -> Seq<char> {
    "Dirty mode must be one of: fail, ignore, copy-tracked, copy-all."@
}

pub open spec fn target_usage(command: Seq<char>) -> Seq<char> {
    "Usage: /worktree "@ + command + " <branch-or-name>"@
}

pub open spec fn unknown_new_option(flag: Seq<char>) -> Seq<char> {
    "Unknown /worktree new option '"@ + flag + "'."@
}

pub open spec fn unknown_remove_option(flag: Seq<char>) -> Seq<char> {
    "Unknown /worktree remove option '"@ + flag + "'."@
}

/// The dirty modes the command accepts.
pub open spec fn dirty_policy_spec(value: Seq<char>) -> Result<DirtyPolicy, Seq<char>> {
    if value == "fail"@ {
        Ok(DirtyPolicy::Fail)
    } else if value == "ignore"@ {
        Ok(DirtyPolicy::Ignore)
    } else if value == "copy-tracked"@ {
        Ok(DirtyPolicy::CopyTracked)
    } else if value == "copy-all"@ {
        Ok(DirtyPolicy::CopyAll)
    } else {
        Err(dirty_mode_error())
    }
}

pub fn parse_dirty_policy(value: &[char]) -> (r: Result<DirtyPolicy, String>)
    ensures
        match (r, dirty_policy_spec(value@)) {
            (Ok(a), Ok(b)) => a == b,
            (Err(a), Err(b)) => a@ == b,
            _ => false,
        },
{
    if chars_eq_str(value, "fail") {
        Ok(DirtyPolicy::Fail)
    } else if chars_eq_str(value, "ignore") {
        Ok(DirtyPolicy::Ignore)
    } else if chars_eq_str(value, "copy-tracked") {
        Ok(DirtyPolicy::CopyTracked)
    } else if chars_eq_str(value, "copy-all") {
        Ok(DirtyPolicy::CopyAll)
    } else {
        Err(str_to_string("Dirty mode must be one of: fail, ignore, copy-tracked, copy-all."))
    }
}

/// The options after `new <branch>` from token `i` on, with the base and the
/// dirty mode seen so far; a later option overrides an earlier one.
pub open spec fn new_options(
    t: Seq<Seq<char>>,
    i: int,
    base: Option<Seq<char>>,
    dirty: Option<DirtyPolicy>,
) -> Result<(Option<Seq<char>>, Option<DirtyPolicy>), Seq<char>>
    decreases t.len() - i,
{
    if i < 0 || i >= t.len() {
        Ok((base, dirty))
    } else if t[i] == "--base"@ {
        if i + 1 >= t.len() {
            Err(base_usage())
        } else {
            new_options(t, i + 2, Some(t[i + 1]), dirty)
        }
    } else if t[i] == "--dirty"@ {
        if i + 1 >= t.len() {
            Err(dirty_usage())
        } else {
            match dirty_policy_spec(t[i + 1]) {
                Ok(p) => new_options(t, i + 2, base, Some(p)),
                Err(e) => Err(e),
            }
        }
    } else {
        Err(unknown_new_option(t[i]))
    }
}

/// The options after `remove <target>` from token `i` on.
pub open spec fn remove_options(t: Seq<Seq<char>>, i: int, force: bool, delete_branch: bool) -> Result<
    (bool, bool),
    Seq<char>,
>
    decreases t.len() - i,
{
    if i < 0 || i >= t.len() {
        Ok((force, delete_branch))
    } else if t[i] == "--force"@ {
        remove_options(t, i + 1, true, delete_branch)
    } else if t[i] == "--delete-branch"@ {
        remove_options(t, i + 1, force, true)
    } else {
        Err(unknown_remove_option(t[i]))
    }
}

/// What a `/worktree` command line asks for, from its whitespace-separated words.
pub open spec fn slash_spec(t: Seq<Seq<char>>) -> Result<SlashView, Seq<char>> {
    if t.len() == 0 || t[0] == "list"@ {
        Ok(SlashView::OpenPicker)
    } else if t[0] == "new"@ {
        if t.len() < 2 {
            Err(new_usage())
        } else {
            match new_options(t, 2, None, None) {
                Ok((base, dirty)) => Ok(
                    SlashView::Create { branch: t[1], base_ref: base, dirty_policy: dirty },
                ),
                Err(e) => Err(e),
            }
        }
    } else if t[0] == "switch"@ || t[0] == "move"@ || t[0] == "path"@ {
        if t.len() != 2 {
            Err(target_usage(t[0]))
        } else if t[0] == "path"@ {
            Ok(SlashView::ShowPath { target: t[1] })
        } else {
            Ok(SlashView::Switch { target: t[1] })
        }
    } else if t[0] == "remove"@ {
        if t.len() < 2 {
            Err(remove_usage())
        } else {
            match remove_options(t, 2, false, false) {
                Ok((force, delete_branch)) => Ok(
                    SlashView::Remove { target: t[1], force, delete_branch },
                ),
                Err(e) => Err(e),
            }
        }
    } else {
        Err(worktree_usage())
    }
}

proof fn lemma_words_over_word(a: Seq<char>, b: Seq<char>, cur: Seq<char>)
    requires
        forall|i: int| 0 <= i < a.len() ==> !crate::text::is_ws(#[trigger] a[i]),
    ensures
        words_from(a + b, cur) == words_from(b, cur + a),
    decreases a.len(),
{
    if a.len() == 0 {
        assert(a + b =~= b);
        assert(cur + a =~= cur);
    } else {
        assert((a + b)[0] == a[0]);
        assert((a + b).drop_first() =~= a.drop_first() + b);
        lemma_words_over_word(a.drop_first(), b, cur.push(a[0]));
        assert(cur.push(a[0]) + a.drop_first() =~= cur + a);
    }
}

/// The words of `<command> <target>`, for a command and a target without
/// whitespace.
proof fn lemma_two_words(command: Seq<char>, t: Seq<char>)
    requires
        command.len() > 0,
        t.len() > 0,
        forall|i: int| 0 <= i < command.len() ==> !crate::text::is_ws(#[trigger] command[i]),
        forall|i: int| 0 <= i < t.len() ==> !crate::text::is_ws(#[trigger] t[i]),
    ensures
        words(command + seq![' '] + t) == seq![command, t],
{
    let rest = seq![' '] + t;
    assert(command + seq![' '] + t =~= command + rest);
    lemma_words_over_word(command, rest, seq![]);
    assert(Seq::<char>::empty() + command =~= command);
    assert(rest[0] == ' ');
    assert(rest.drop_first() =~= t);
    assert(words_from(rest, command) == seq![command] + words_from(t, seq![]));
    assert(t + Seq::<char>::empty() =~= t);
    lemma_words_over_word(t, Seq::<char>::empty(), seq![]);
    assert(Seq::<char>::empty() + t =~= t);
    assert(words_from(Seq::<char>::empty(), t) == seq![t]);
}

/// `switch <target>` and `move <target>` switch to the target, and
/// `path <target>` shows its path, for every target word.
pub proof fn lemma_switch_move_and_path(t: Seq<char>)
    requires
        t.len() > 0,
        forall|i: int| 0 <= i < t.len() ==> !crate::text::is_ws(#[trigger] t[i]),
    ensures
        slash_spec(words("switch"@ + seq![' '] + t)) == Ok::<SlashView, Seq<char>>(
            SlashView::Switch { target: t },
        ),
        slash_spec(words("move"@ + seq![' '] + t)) == Ok::<SlashView, Seq<char>>(
            SlashView::Switch { target: t },
        ),
        slash_spec(words("path"@ + seq![' '] + t)) == Ok::<SlashView, Seq<char>>(
            SlashView::ShowPath { target: t },
        ),
{
    reveal_strlit("switch");
    reveal_strlit("move");
    reveal_strlit("path");
    reveal_strlit("list");
    reveal_strlit("new");
    lemma_two_words("switch"@, t);
    lemma_two_words("move"@, t);
    lemma_two_words("path"@, t);
    assert("switch"@ != "list"@ && "switch"@ != "new"@ && "switch"@ != "path"@);
    assert("move"@ != "list"@ && "move"@ != "new"@ && "move"@ != "path"@);
    assert("path"@ != "list"@ && "path"@ != "new"@);
}

/// Only `path <target>` shows a path: any words that parse to `ShowPath`
/// are exactly `path` and that target.
pub proof fn lemma_only_path_shows_path(t: Seq<Seq<char>>)
    ensures
        slash_spec(t) matches Ok(SlashView::ShowPath { target }) ==> t == seq!["path"@, target],
{
    match slash_spec(t) {
        Ok(SlashView::ShowPath { target }) => {
            assert(t.len() == 2);
            assert(t =~= seq!["path"@, target]);
        },
        _ => {},
    }
}

fn message_with(prefix: &str, middle: &[char], suffix: &str) -> (r: String)
    ensures
        r@ == prefix@ + middle@ + suffix@,
{
    let mut m: Vec<char> = Vec::new();
    push_str(&mut m, prefix);
    push_chars(&mut m, middle);
    push_str(&mut m, suffix);
    chars_to_string(m.as_slice())
}

fn parse_new(t: &Vec<Vec<char>>) -> (r: Result<WorktreeSlashAction, String>)
    requires
        t@.len() >= 1,
    ensures
        match (r, if char_seqs(t@).len() < 2 {
            Err(new_usage())
        } else {
            match new_options(char_seqs(t@), 2, None, None) {
                Ok((base, dirty)) => Ok(
                    SlashView::Create {
                        branch: char_seqs(t@)[1],
                        base_ref: base,
                        dirty_policy: dirty,
                    },
                ),
                Err(e) => Err(e),
            }
        }) {
            (Ok(a), Ok(b)) => slash_view(a) == b,
            (Err(a), Err(b)) => a@ == b,
            _ => false,
        },
{
    let ghost tv = char_seqs(t@);
    if t.len() < 2 {
        return Err(str_to_string("Usage: /worktree new <branch> [--base <ref>] [--dirty <mode>]"));
    }
    let mut base_ref: Option<String> = None;
    let mut dirty_policy: Option<DirtyPolicy> = None;
    let mut i: usize = 2;
    while i < t.len()
        invariant
            2 <= i <= t.len(),
            tv == char_seqs(t@),
            new_options(tv, 2, None, None) == new_options(tv, i as int, opt_view(base_ref), dirty_policy),
        decreases t.len() - i,
    {
        let flag = &t[i];
        assert(tv[i as int] == flag@);
        if chars_eq_str(flag.as_slice(), "--base") {
            if i + 1 >= t.len() {
                return Err(str_to_string("Usage: /worktree new <branch> --base <ref>"));
            }
            assert(tv[i + 1] == t@[i + 1]@);
            base_ref = Some(chars_to_string(t[i + 1].as_slice()));
            i = i + 2;
        } else if chars_eq_str(flag.as_slice(), "--dirty") {
            if i + 1 >= t.len() {
                return Err(str_to_string("Usage: /worktree new <branch> --dirty <mode>"));
            }
            assert(tv[i + 1] == t@[i + 1]@);
            match parse_dirty_policy(t[i + 1].as_slice()) {
                Ok(p) => {
                    dirty_policy = Some(p);
                },
                Err(e) => {
                    return Err(e);
                },
            }
            i = i + 2;
        } else {
            return Err(message_with("Unknown /worktree new option '", flag.as_slice(), "'."));
        }
    }
    assert(tv[1] == t@[1]@);
    Ok(WorktreeSlashAction::Create {
        branch: chars_to_string(t[1].as_slice()),
        base_ref,
        dirty_policy,
    })
}

fn parse_remove(t: &Vec<Vec<char>>) -> (r: Result<WorktreeSlashAction, String>)
    requires
        t@.len() >= 1,
    ensures
        match (r, if char_seqs(t@).len() < 2 {
            Err(remove_usage())
        } else {
            match remove_options(char_seqs(t@), 2, false, false) {
                Ok((force, delete_branch)) => Ok(
                    SlashView::Remove { target: char_seqs(t@)[1], force, delete_branch },
                ),
                Err(e) => Err(e),
            }
        }) {
            (Ok(a), Ok(b)) => slash_view(a) == b,
            (Err(a), Err(b)) => a@ == b,
            _ => false,
        },
{
    let ghost tv = char_seqs(t@);
    if t.len() < 2 {
        return Err(
            str_to_string("Usage: /worktree remove <branch-or-name> [--force] [--delete-branch]"),
        );
    }
    let mut force = false;
    let mut delete_branch = false;
    let mut i: usize = 2;
    while i < t.len()
        invariant
            2 <= i <= t.len(),
            tv == char_seqs(t@),
            remove_options(tv, 2, false, false) == remove_options(tv, i as int, force, delete_branch),
        decreases t.len() - i,
    {
        let flag = &t[i];
        assert(tv[i as int] == flag@);
        if chars_eq_str(flag.as_slice(), "--force") {
            force = true;
        } else if chars_eq_str(flag.as_slice(), "--delete-branch") {
            delete_branch = true;
        } else {
            return Err(message_with("Unknown /worktree remove option '", flag.as_slice(), "'."));
        }
        i = i + 1;
    }
    assert(tv[1] == t@[1]@);
    Ok(WorktreeSlashAction::Remove { target: chars_to_string(t[1].as_slice()), force, delete_branch })
}

/// Reads a `/worktree` command's arguments.
pub fn parse_worktree_slash_args(args: &str) -> (r: Result<WorktreeSlashAction, String>)
    ensures
        match (r, slash_spec(words(args@))) {
            (Ok(a), Ok(b)) => slash_view(a) == b,
            (Err(a), Err(b)) => a@ == b,
            _ => false,
        },
{
    let chars = str_chars(args);
    let t = split_words(chars.as_slice());
    let ghost tv = char_seqs(t@);
    assert(tv == words(args@));
    if t.len() == 0 {
        return Ok(WorktreeSlashAction::OpenPicker);
    }
    let command = &t[0];
    assert(tv[0] == command@);
    if chars_eq_str(command.as_slice(), "list") {
        Ok(WorktreeSlashAction::OpenPicker)
    } else if chars_eq_str(command.as_slice(), "new") {
        parse_new(&t)
    } else if chars_eq_str(command.as_slice(), "switch") || chars_eq_str(command.as_slice(), "move")
        || chars_eq_str(command.as_slice(), "path") {
        if t.len() != 2 {
            return Err(message_with("Usage: /worktree ", command.as_slice(), " <branch-or-name>"));
        }
        assert(tv[1] == t@[1]@);
        let target = chars_to_string(t[1].as_slice());
        if chars_eq_str(command.as_slice(), "path") {
            Ok(WorktreeSlashAction::ShowPath { target })
        } else {
            Ok(WorktreeSlashAction::Switch { target })
        }
    } else if chars_eq_str(command.as_slice(), "remove") {
        parse_remove(&t)
    } else {
        Err(
            str_to_string(
                "Usage: /worktree [list|new <branch>|switch <branch>|path <branch>|remove <branch>]",
            ),
        )
    }
}

pub open spec fn source_label_spec(source: WorktreeSource) -> Seq<char> {
    match source {
        WorktreeSource::Cli => "cli"@,
        WorktreeSource::App => "app"@,
        WorktreeSource::Legacy => "legacy"@,
        WorktreeSource::Git => "git"@,
    }
}

/// How the picker names a worktree's source.
pub fn source_label(source: WorktreeSource) -> (r: &'static str)
    ensures
        r@ == source_label_spec(source),
{
    match source {
        WorktreeSource::Cli => "cli",
        WorktreeSource::App => "app",
        WorktreeSource::Legacy => "legacy",
        WorktreeSource::Git => "git",
    }
}

pub open spec fn no_worktree_error(target: Seq<char>) -> Seq<char> {
    "No worktree found matching '"@ + target + "'."@
}

pub open spec fn many_worktrees_error(target: Seq<char>) -> Seq<char> {
    "Multiple worktrees match '"@ + target + "'; use a more specific name."@
}

/// The one worktree that answers to `target` (by branch, name or slug), as its
/// index in `entries`.
pub fn find_worktree(entries: &[WorktreeInfo], target: &str) -> (r: Result<usize, String>)
    ensures
        match r {
            Ok(i) => matching_indices(entries@, target@, entries@.len() as int) == seq![i as int],
            Err(e) => {
                let m = matching_indices(entries@, target@, entries@.len() as int);
                (m.len() == 0 && e@ == no_worktree_error(target@)) || (m.len() > 1 && e@
                    == many_worktrees_error(target@))
            },
        },
{
    let m = matching_worktrees(entries, target);
    let ghost mv = m@.map_values(|i: usize| i as int);
    assert(mv.len() == m@.len());
    if m.len() == 1 {
        assert(mv =~= seq![m@[0] as int]);
        return Ok(m[0]);
    }
    let tv = str_chars(target);
    if m.len() == 0 {
        Err(message_with("No worktree found matching '", tv.as_slice(), "'."))
    } else {
        Err(message_with("Multiple worktrees match '", tv.as_slice(), "'; use a more specific name."))
    }
}

/// The worktree label shown in the status line.
#[derive(Clone, Debug, PartialEq, Eq)]
pub struct WorktreeLabel {
    pub name: String,
    pub branch: Option<String>,
    pub repo_name: String,
    pub dirty: bool,
}

impl WorktreeLabel {
    /// `<branch or name> · <clean|dirty> · <repo>`.
    pub fn summary(&self) -> (r: String)
        ensures
            r@ == (match self.branch {
                Some(b) => b@,
                None => self.name@,
            }) + " · "@ + (if self.dirty {
                "dirty"@
            } else {
                "clean"@
            }) + " · "@ + self.repo_name@,
    {
        let mut out: Vec<char> = Vec::new();
        match &self.branch {
            Some(b) => push_str(&mut out, b.as_str()),
            None => push_str(&mut out, self.name.as_str()),
        }
        push_str(&mut out, " · ");
        if self.dirty {
            push_str(&mut out, "dirty");
        } else {
            push_str(&mut out, "clean");
        }
        push_str(&mut out, " · ");
        push_str(&mut out, self.repo_name.as_str());
        chars_to_string(out.as_slice())
    }
}

/// The label for a resolved worktree.
pub fn label_for_worktree(info: &WorktreeInfo) -> (r: WorktreeLabel)
    ensures
        r.name@ == info.name@,
        opt_view(r.branch) == opt_view(info.branch),
        r.repo_name@ == info.repo_name@,
        r.dirty == info.dirty.dirty(),
{
    WorktreeLabel {
        name: info.name.clone(),
        branch: crate::worktree::clone_opt(&info.branch),
        repo_name: info.repo_name.clone(),
        dirty: info.dirty.is_dirty(),
    }
}

/// The picker's one-line description of a worktree: `<clean|dirty> · <source> · <path>`.
pub fn picker_description(dirty: &DirtyState, source: WorktreeSource, workspace_cwd: &str) -> (r:
    String)
    ensures
        r@ == (if dirty.dirty() {
            "dirty"@
        } else {
            "clean"@
        }) + " · "@ + (match source {
            WorktreeSource::Cli => "cli"@,
            WorktreeSource::App => "app"@,
            WorktreeSource::Legacy => "legacy"@,
            WorktreeSource::Git => "git"@,
        }) + " · "@ + workspace_cwd@,
{
    let mut out: Vec<char> = Vec::new();
    if dirty.is_dirty() {
        push_str(&mut out, "dirty");
    } else {
        push_str(&mut out, "clean");
    }
    push_str(&mut out, " · ");
    push_str(&mut out, source_label(source));
    push_str(&mut out, " · ");
    push_str(&mut out, workspace_cwd);
    chars_to_string(out.as_slice())
}

} // verus!
