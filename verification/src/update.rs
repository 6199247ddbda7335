//! Self-update: which command updates this install, what blocks an update,
//! when an update notice is due, and the prompt that asks about it.

use vstd::prelude::*;

use crate::text::{chars_to_string, join_chars, join_with, push_str, str_chars, str_to_string};


use crate::worktree_paths::{join_path, path_components, path_join, path_starts_with_exec};

verus! {

/// How this copy of Codex was installed, as far as updating is concerned.
#[derive(Clone, Copy, Debug, PartialEq, Eq, Structural)]
pub enum StandalonePlatform {
    Unix,
    Windows,
}

#[derive(Clone, Copy, Debug, PartialEq, Eq, Structural)]
pub enum InstallContext {
    Npm,
    Bun,
    Brew,
    Standalone { platform: StandalonePlatform },
    Other,
}

/// Update action the CLI should perform after the TUI exits.
#[derive(Clone, Copy, Debug, PartialEq, Eq, Structural)]
pub enum UpdateAction {
    /// Update via `npm install -g @openai/codex@latest`.
    NpmGlobalLatest,
    /// Update via `bun install -g @openai/codex@latest`.
    BunGlobalLatest,
    /// Update via `brew upgrade codex`.
    BrewUpgrade,
    /// Update via `curl -fsSL https://chatgpt.com/codex/install.sh | sh`.
    StandaloneUnix,
    /// Update via `irm https://chatgpt.com/codex/install.ps1|iex`.
    StandaloneWindows,
}

pub open spec fn action_for_context(context: InstallContext) -> Option<UpdateAction> {
    match context {
        InstallContext::Npm => Some(UpdateAction::NpmGlobalLatest),
        InstallContext::Bun => Some(UpdateAction::BunGlobalLatest),
        InstallContext::Brew => Some(UpdateAction::BrewUpgrade),
        InstallContext::Standalone { platform } => Some(
            match platform {
                StandalonePlatform::Unix => UpdateAction::StandaloneUnix,
                StandalonePlatform::Windows => UpdateAction::StandaloneWindows,
            },
        ),
        InstallContext::Other => None,
    }
}

/// The program that runs an update.
pub open spec fn action_program(action: UpdateAction) -> Seq<char> {
    match action {
        UpdateAction::NpmGlobalLatest => "npm"@,
        UpdateAction::BunGlobalLatest => "bun"@,
        UpdateAction::BrewUpgrade => "brew"@,
        UpdateAction::StandaloneUnix => "sh"@,
        UpdateAction::StandaloneWindows => "powershell"@,
    }
}

/// The arguments handed to [`action_program`].
pub open spec fn action_args(action: UpdateAction) -> Seq<Seq<char>> {
    match action {
        UpdateAction::NpmGlobalLatest => seq!["install"@, "-g"@, "@openai/codex@latest"@],
        UpdateAction::BunGlobalLatest => seq!["install"@, "-g"@, "@openai/codex@latest"@],
        UpdateAction::BrewUpgrade => seq!["upgrade"@, "codex"@],
        UpdateAction::StandaloneUnix => seq![
            "-c"@,
            "curl -fsSL https://chatgpt.com/codex/install.sh | sh"@,
        ],
        UpdateAction::StandaloneWindows => seq![
            "-c"@,
            "irm https://chatgpt.com/codex/install.ps1|iex"@,
        ],
    }
}

pub open spec fn str_views(v: Seq<&str>) -> Seq<Seq<char>> {
    v.map_values(|s: &str| s@)
}

/// The shell words of an update: its program, then its arguments.
pub open spec fn command_words(action: UpdateAction) -> Seq<Seq<char>> {
    seq![action_program(action)] + action_args(action)
}

/// Whether some word holds a nul character.
pub open spec fn holds_nul(words: Seq<Seq<char>>) -> bool {
    exists|i: int, j: int| 0 <= i < words.len() && 0 <= j < words[i].len() && words[i][j] == '\0'
}

/// What `shlex::try_join` produces from `words` when none of them holds a nul
/// character: each word shell-quoted as needed, separated by single spaces.
pub uninterp spec fn shlex_join(words: Seq<Seq<char>>) -> Seq<char>;

/// `shlex::try_join`: fails exactly when some word holds a nul character
/// (the only error its default quoter has); otherwise gives the joined words,
/// named [`shlex_join`] here.
#[verifier::external_body]
fn shlex_try_join(words: &Vec<&str>) -> (r: Option<String>)
    ensures
        r is Some <==> !holds_nul(str_views(words@)),
        r is Some ==> r->0@ == shlex_join(str_views(words@)),
{
    shlex::try_join(words.iter().copied()).ok()
}

pub open spec fn command_str_spec(action: UpdateAction) -> Seq<char> {
    shlex_join(command_words(action))
}

impl UpdateAction {
    /// The update action for an install context; none where Codex cannot
    /// update itself.
    pub fn from_install_context(context: &InstallContext) -> (r: Option<Self>)
        ensures
            r == action_for_context(*context),
    {
        match context {
            InstallContext::Npm => Some(UpdateAction::NpmGlobalLatest),
            InstallContext::Bun => Some(UpdateAction::BunGlobalLatest),
            InstallContext::Brew => Some(UpdateAction::BrewUpgrade),
            InstallContext::Standalone { platform } => Some(
                match platform {
                    StandalonePlatform::Unix => UpdateAction::StandaloneUnix,
                    StandalonePlatform::Windows => UpdateAction::StandaloneWindows,
                },
            ),
            InstallContext::Other => None,
        }
    }

    /// Returns the list of command-line arguments for invoking the update.
    pub fn command_args(self) -> (r: (&'static str, &'static [&'static str]))
        ensures
            r.0@ == action_program(self),
            str_views(r.1@) == action_args(self),
    {
        let r: (&'static str, &'static [&'static str]) = match self {
            UpdateAction::NpmGlobalLatest => ("npm", &["install", "-g", "@openai/codex@latest"]),
            UpdateAction::BunGlobalLatest => ("bun", &["install", "-g", "@openai/codex@latest"]),
            UpdateAction::BrewUpgrade => ("brew", &["upgrade", "codex"]),
            UpdateAction::StandaloneUnix => (
                "sh",
                &["-c", "curl -fsSL https://chatgpt.com/codex/install.sh | sh"],
            ),
            UpdateAction::StandaloneWindows => (
                "powershell",
                &["-c", "irm https://chatgpt.com/codex/install.ps1|iex"],
            ),
        };
        assert(str_views(r.1@) =~= action_args(self));
        r
    }
}


/// The words of a shell command as a vector.
fn words_of(command: &'static str, args: &'static [&'static str]) -> (r: Vec<&'static str>)
    ensures
        str_views(r@) == seq![command@] + str_views(args@),
{
    let mut words: Vec<&'static str> = Vec::new();
    words.push(command);
    let mut i: usize = 0;
    while i < args.len()
        invariant
            i <= args.len(),
            str_views(words@) == seq![command@] + str_views(args@.take(i as int)),
        decreases args.len() - i,
    {
        let ghost before = words@;
        words.push(args[i]);
        assert(args@.take(i as int + 1) =~= args@.take(i as int).push(args@[i as int]));
        assert(str_views(words@) =~= str_views(before).push(args@[i as int]@));
        assert(str_views(args@.take(i as int + 1)) =~= str_views(args@.take(i as int)).push(
            args@[i as int]@,
        ));
        assert(str_views(words@) =~= seq![command@] + str_views(args@.take(i as int + 1)));
        i = i + 1;
    }
    assert(args@.take(args.len() as int) =~= args@);
    words
}

impl UpdateAction {
    /// Returns string representation of the command-line arguments for
    /// invoking the update: the words shell-quoted and joined, or, should
    /// quoting fail, the program and its arguments joined by spaces.
    pub fn command_str(self) -> (r: String)
        ensures
            !holds_nul(command_words(self)) ==> r@ == shlex_join(command_words(self)),
            holds_nul(command_words(self)) ==> r@ == action_program(self) + " "@ + join_with(
                action_args(self),
                " "@,
            ),
    {
        let (command, args) = self.command_args();
        let words = words_of(command, args);
        assert(str_views(words@) =~= command_words(self));
        match shlex_try_join(&words) {
            Some(joined) => joined,
            None => {
                let mut parts: Vec<Vec<char>> = Vec::new();
                let mut i: usize = 0;
                while i < args.len()
                    invariant
                        i <= args.len(),
                        crate::text::char_seqs(parts@) == str_views(args@.take(i as int)),
                    decreases args.len() - i,
                {
                    let ghost before = parts@;
                    parts.push(str_chars(args[i]));
                    assert(args@.take(i as int + 1) =~= args@.take(i as int).push(args@[i as int]));
                    assert(crate::text::char_seqs(parts@) =~= crate::text::char_seqs(before).push(
                        args@[i as int]@,
                    ));
                    assert(str_views(args@.take(i as int + 1)) =~= str_views(args@.take(i as int)).push(
                        args@[i as int]@,
                    ));
                    assert(crate::text::char_seqs(parts@) =~= str_views(args@.take(i as int + 1)));
                    i = i + 1;
                }
                assert(args@.take(args.len() as int) =~= args@);
                let joined = join_chars(parts.as_slice(), " ");
                let mut out = str_chars(command);
                push_str(&mut out, " ");
                crate::text::push_chars(&mut out, joined.as_slice());
                chars_to_string(out.as_slice())
            },
        }
    }
}

/// Why an available update cannot run from here.
#[derive(Clone, Debug, PartialEq, Eq)]
pub enum UpdateBlocker {
    NpmGlobalRootMismatch { running_package_root: String, npm_package_root: String },
}

pub open spec fn remediation_lines_spec(running: Seq<char>, npm: Seq<char>) -> Seq<Seq<char>> {
    seq![
        "You are running Codex from:"@,
        "  "@ + running,
        "but `npm install -g @openai/codex@latest` would update:"@,
        "  "@ + npm,
        "Fix your shell PATH or remove the stale Codex install, then restart Codex."@,
    ]
}

pub open spec fn blocker_message_spec(running: Seq<char>, npm: Seq<char>) -> Seq<char> {
    "You are running Codex from "@ + running + ", but `npm install -g @openai/codex@latest` would update "@
        + npm + ". Fix your shell PATH or remove the stale Codex install, then restart Codex."@
}

fn indented(text: &String) -> (r: String)
    ensures
        r@ == "  "@ + text@,
{
    let mut out: Vec<char> = Vec::new();
    push_str(&mut out, "  ");
    crate::text::push_chars(&mut out, str_chars(text.as_str()).as_slice());
    chars_to_string(out.as_slice())
}

impl UpdateBlocker {
    /// The lines that explain the blocker and how to clear it.
    pub fn remediation_lines(&self) -> (r: Vec<String>)
        ensures
            match *self {
                UpdateBlocker::NpmGlobalRootMismatch { running_package_root, npm_package_root } =>
                    crate::text::string_seqs(r@) == remediation_lines_spec(
                    running_package_root@,
                    npm_package_root@,
                ),
            },
    {
        match self {
            UpdateBlocker::NpmGlobalRootMismatch { running_package_root, npm_package_root } => {
                let mut lines: Vec<String> = Vec::new();
                lines.push(str_to_string("You are running Codex from:"));
                lines.push(indented(running_package_root));
                lines.push(str_to_string("but `npm install -g @openai/codex@latest` would update:"));
                lines.push(indented(npm_package_root));
                lines.push(
                    str_to_string(
                        "Fix your shell PATH or remove the stale Codex install, then restart Codex.",
                    ),
                );
                assert(crate::text::string_seqs(lines@) =~= remediation_lines_spec(
                    running_package_root@,
                    npm_package_root@,
                ));
                lines
            },
        }
    }

    /// The blocker as one sentence.
    pub fn message(&self) -> (r: String)
        ensures
            match *self {
                UpdateBlocker::NpmGlobalRootMismatch { running_package_root, npm_package_root } =>
                    r@ == blocker_message_spec(running_package_root@, npm_package_root@),
            },
    {
        match self {
            UpdateBlocker::NpmGlobalRootMismatch { running_package_root, npm_package_root } => {
                let mut out: Vec<char> = Vec::new();
                push_str(&mut out, "You are running Codex from ");
                crate::text::push_chars(&mut out, str_chars(running_package_root.as_str()).as_slice());
                push_str(&mut out, ", but `npm install -g @openai/codex@latest` would update ");
                crate::text::push_chars(&mut out, str_chars(npm_package_root.as_str()).as_slice());
                push_str(
                    &mut out,
                    ". Fix your shell PATH or remove the stale Codex install, then restart Codex.",
                );
                chars_to_string(out.as_slice())
            },
        }
    }
}

/// Whether an update can run, and if not, why.
#[derive(Clone, Debug, PartialEq, Eq)]
pub enum UpdateActionStatus {
    Ready(UpdateAction),
    Blocked(UpdateBlocker),
    Unavailable,
}

/// Where `npm install -g` puts the package under a global root.
pub open spec fn npm_package_root_spec(npm_global_root: Seq<char>) -> Seq<char> {
    join_path(join_path(npm_global_root, "@openai"@), "codex"@)
}

/// Two paths with the same components, as `Path`'s `==` compares them.
pub open spec fn same_path(a: Seq<char>, b: Seq<char>) -> bool {
    path_components(a) == path_components(b)
}

pub fn paths_equal(a: &str, b: &str) -> (r: bool)
    ensures
        r == same_path(a@, b@),
{
    let ab = path_starts_with_exec(a, b);
    let ba = path_starts_with_exec(b, a);
    proof {
        let ac = path_components(a@);
        let bc = path_components(b@);
        if ab && ba {
            assert(ac.len() == bc.len());
            assert(ac.take(bc.len() as int) =~= ac);
        }
        if same_path(a@, b@) {
            assert(ac.take(bc.len() as int) =~= ac);
        }
    }
    ab && ba
}

pub open spec fn mismatch_spec(running: Seq<char>, npm_global_root: Seq<char>) -> Option<
    (Seq<char>, Seq<char>),
> {
    let npm = npm_package_root_spec(npm_global_root);
    if same_path(running, npm) {
        None
    } else {
        Some((running, npm))
    }
}

/// The blocker when the npm global install that `npm install -g` would
/// update is not the package this Codex runs from.
pub fn mismatch_from_npm_roots(running_package_root: &str, npm_global_root: &str) -> (r: Option<
    UpdateBlocker,
>)
    ensures
        match mismatch_spec(running_package_root@, npm_global_root@) {
            None => r is None,
            Some((running, npm)) => r matches Some(
                UpdateBlocker::NpmGlobalRootMismatch { running_package_root: a, npm_package_root: b },
            ) && a@ == running && b@ == npm,
        },
{
    let scoped = path_join(npm_global_root, "@openai");
    let npm_package_root = path_join(scoped.as_str(), "codex");
    if paths_equal(running_package_root, npm_package_root.as_str()) {
        None
    } else {
        Some(
            UpdateBlocker::NpmGlobalRootMismatch {
                running_package_root: str_to_string(running_package_root),
                npm_package_root,
            },
        )
    }
}

/// The mismatch between the two roots, where both could be resolved.
pub open spec fn roots_mismatch(roots: Option<(&str, &str)>) -> Option<(Seq<char>, Seq<char>)> {
    match roots {
        None => None,
        Some((running, npm_root)) => mismatch_spec(running@, npm_root@),
    }
}

/// The blocker for an action, given the package root this Codex runs from
/// and the npm global root, where both could be resolved.
pub fn update_blocker(action: UpdateAction, roots: Option<(&str, &str)>) -> (r: Option<UpdateBlocker>)
    ensures
        action != UpdateAction::NpmGlobalLatest ==> r is None,
        action == UpdateAction::NpmGlobalLatest ==> match roots_mismatch(roots) {
            None => r is None,
            Some((a, b)) => r matches Some(
                UpdateBlocker::NpmGlobalRootMismatch { running_package_root: x, npm_package_root: y },
            ) && x@ == a && y@ == b,
        },
{
    match action {
        UpdateAction::NpmGlobalLatest => match roots {
            Some((running, npm_root)) => mismatch_from_npm_roots(running, npm_root),
            None => None,
        },
        _ => None,
    }
}

/// The update status for an install context: unavailable where Codex cannot
/// update itself, blocked where [`update_blocker`] finds a blocker, and ready
/// otherwise.
pub fn update_action_status(context: &InstallContext, roots: Option<(&str, &str)>) -> (r:
    UpdateActionStatus)
    ensures
        action_for_context(*context) is None ==> r is Unavailable,
        action_for_context(*context) matches Some(a) ==> (match r {
            UpdateActionStatus::Ready(b) => b == a && !(a == UpdateAction::NpmGlobalLatest
                && roots_mismatch(roots) is Some),
            UpdateActionStatus::Blocked(UpdateBlocker::NpmGlobalRootMismatch {
                running_package_root: x,
                npm_package_root: y,
            }) => a == UpdateAction::NpmGlobalLatest && roots_mismatch(roots) == Some((x@, y@)),
            UpdateActionStatus::Unavailable => false,
        }),
{
    match UpdateAction::from_install_context(context) {
        None => UpdateActionStatus::Unavailable,
        Some(action) => match update_blocker(action, roots) {
            Some(blocker) => UpdateActionStatus::Blocked(blocker),
            None => UpdateActionStatus::Ready(action),
        },
    }
}

} // verus!
