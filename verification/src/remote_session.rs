//! Remote sessions in a Modal sandbox: the `/modal` arguments, the script
//! that starts the app server there, and the small path and URL rules the
//! session setup follows.

use vstd::prelude::*;

use crate::text::{chars_to_string, push_chars, push_decimal, push_str, str_chars, str_to_string};
use crate::update::holds_nul;
use crate::worktree::opt_view;
use crate::worktree_paths::{parent_of, path_parent};

verus! {

pub const DEFAULT_REMOTE_CWD: &'static str = "/workspace";

pub const APP_SERVER_PORT: u32 = 4222;

pub const APP_SERVER_TOKEN_PATH: &'static str = "/tmp/codex-app-server-token";

pub const APP_SERVER_PID_PATH: &'static str = "/tmp/codex-app-server.pid";

pub const APP_SERVER_LOG_PATH: &'static str = "/tmp/codex-app-server.log";

#[derive(Clone, Copy, Debug, PartialEq, Eq, Structural)]
pub enum RemoteProvider {
    Modal,
}

impl RemoteProvider {
    pub fn as_str(self) -> (r: &'static str)
        ensures
            r@ == "modal"@,
    {
        match self {
            RemoteProvider::Modal => "modal",
        }
    }
}

/// How the remote working directory gets its files.
#[derive(Clone, Copy, Debug, PartialEq, Eq, Structural)]
pub enum RemoteWorkspaceMode {
    /// Use what is already at the remote path.
    UseRemotePath,
    /// Copy the local working directory there.
    CopyCwd,
    /// Clone the local repository's origin there.
    GitClone,
}

/// A parsed `/modal` request.
#[derive(Clone, Debug, PartialEq, Eq)]
pub struct RemoteSessionRequest {
    pub provider: RemoteProvider,
    pub sandbox_id: Option<String>,
    pub remote_cwd: String,
    pub workspace_mode: RemoteWorkspaceMode,
    pub local_cwd: String,
}

/// Where a started remote app server listens.
#[derive(Clone, Debug, PartialEq, Eq)]
pub struct RemoteSessionEndpoint {
    pub websocket_url: String,
    pub auth_token: String,
    pub remote_cwd: String,
    pub sandbox_id: String,
}

/// A sandbox this session started or attached to.
#[derive(Clone, Debug, PartialEq, Eq)]
pub struct RemoteSandboxSession {
    pub provider: RemoteProvider,
    pub sandbox_id: String,
}

/// Why `/modal` arguments were refused.
#[derive(Clone, Debug, PartialEq, Eq)]
pub enum RemoteSessionParseError {
    UnmatchedQuote,
    UnknownOption { option: String },
    DuplicateTarget,
    ConflictingWorkspaceModes,
    RelativeRemotePath,
    EmptyTarget,
}

/// The same errors over character sequences, for contracts.
pub enum ParseErrorView {
    UnmatchedQuote,
    UnknownOption(Seq<char>),
    DuplicateTarget,
    ConflictingWorkspaceModes,
    RelativeRemotePath,
    EmptyTarget,
}

pub open spec fn error_view(e: RemoteSessionParseError) -> ParseErrorView {
    match e {
        RemoteSessionParseError::UnmatchedQuote => ParseErrorView::UnmatchedQuote,
        RemoteSessionParseError::UnknownOption { option } => ParseErrorView::UnknownOption(option@),
        RemoteSessionParseError::DuplicateTarget => ParseErrorView::DuplicateTarget,
        RemoteSessionParseError::ConflictingWorkspaceModes => ParseErrorView::ConflictingWorkspaceModes,
        RemoteSessionParseError::RelativeRemotePath => ParseErrorView::RelativeRemotePath,
        RemoteSessionParseError::EmptyTarget => ParseErrorView::EmptyTarget,
    }
}

pub open spec fn error_message_spec(e: ParseErrorView) -> Seq<char> {
    match e {
        ParseErrorView::UnmatchedQuote => "Could not parse /modal arguments: unmatched quote."@,
        ParseErrorView::UnknownOption(o) => "Unknown /modal option `"@ + o + "`."@,
        ParseErrorView::DuplicateTarget => "Only one Modal sandbox target may be supplied."@,
        ParseErrorView::ConflictingWorkspaceModes => "`--copy-cwd` and `--git-clone` cannot be used together."@,
        ParseErrorView::RelativeRemotePath => "Modal workdir must be absolute."@,
        ParseErrorView::EmptyTarget => "Modal sandbox target cannot be empty."@,
    }
}

impl RemoteSessionParseError {
    /// The message shown for the error.
    pub fn message(&self) -> (r: String)
        ensures
            r@ == error_message_spec(error_view(*self)),
    {
        match self {
            RemoteSessionParseError::UnmatchedQuote => str_to_string(
                "Could not parse /modal arguments: unmatched quote.",
            ),
            RemoteSessionParseError::UnknownOption { option } => {
                let mut out: Vec<char> = Vec::new();
                push_str(&mut out, "Unknown /modal option `");
                push_chars(&mut out, str_chars(option.as_str()).as_slice());
                push_str(&mut out, "`.");
                chars_to_string(out.as_slice())
            },
            RemoteSessionParseError::DuplicateTarget => str_to_string(
                "Only one Modal sandbox target may be supplied.",
            ),
            RemoteSessionParseError::ConflictingWorkspaceModes => str_to_string(
                "`--copy-cwd` and `--git-clone` cannot be used together.",
            ),
            RemoteSessionParseError::RelativeRemotePath => str_to_string(
                "Modal workdir must be absolute.",
            ),
            RemoteSessionParseError::EmptyTarget => str_to_string(
                "Modal sandbox target cannot be empty.",
            ),
        }
    }
}

/// A sandbox target: which sandbox, and which directory in it.
#[derive(Clone, Debug, PartialEq, Eq)]
pub struct RemoteTarget {
    pub sandbox_id: Option<String>,
    pub remote_cwd: Option<String>,
}

pub open spec fn target_view(t: RemoteTarget) -> (Option<Seq<char>>, Option<Seq<char>>) {
    (opt_view(t.sandbox_id), opt_view(t.remote_cwd))
}

/// The index of the first `c` in `s`, or -1.
pub open spec fn first_index_of(s: Seq<char>, c: char) -> int
    decreases s.len(),
{
    if s.len() == 0 {
        -1
    } else if s[0] == c {
        0
    } else {
        let rest = first_index_of(s.drop_first(), c);
        if rest < 0 {
            -1
        } else {
            rest + 1
        }
    }
}

/// A target is `<sandbox-id>`, `<sandbox-id>:<abs-path>`, `:<abs-path>` or
/// `<abs-path>`; an empty part is left out, and the path must be absolute.
pub open spec fn target_spec(raw: Seq<char>) -> Result<(Option<Seq<char>>, Option<Seq<char>>), ParseErrorView> {
    if raw.len() == 0 || raw == seq![':'] {
        Err(ParseErrorView::EmptyTarget)
    } else if raw[0] == '/' {
        Ok((None, Some(raw)))
    } else {
        let i = first_index_of(raw, ':');
        if i < 0 {
            Ok((Some(raw), None))
        } else {
            let id = raw.take(i);
            let cwd = raw.skip(i + 1);
            let sandbox_id = if id.len() == 0 {
                None
            } else {
                Some(id)
            };
            if cwd.len() == 0 {
                Ok((sandbox_id, None))
            } else if cwd[0] != '/' {
                Err(ParseErrorView::RelativeRemotePath)
            } else {
                Ok((sandbox_id, Some(cwd)))
            }
        }
    }
}

proof fn lemma_first_index(s: Seq<char>, c: char)
    ensures
        -1 <= first_index_of(s, c) < s.len(),
        first_index_of(s, c) >= 0 ==> s[first_index_of(s, c)] == c,
        forall|k: int| 0 <= k < s.len() && (first_index_of(s, c) < 0 || k < first_index_of(s, c)) ==> s[k] != c,
    decreases s.len(),
{
    if s.len() > 0 && s[0] != c {
        lemma_first_index(s.drop_first(), c);
        assert forall|k: int| 0 <= k < s.len() && (first_index_of(s, c) < 0 || k < first_index_of(s, c)) implies s[k] != c by {
            if k > 0 {
                assert(s[k] == s.drop_first()[k - 1]);
            }
        }
    }
}

fn copy_chars(v: &Vec<char>, a: usize, b: usize) -> (r: String)
    requires
        a <= b <= v.len(),
    ensures
        r@ == v@.subrange(a as int, b as int),
{
    let mut out: Vec<char> = Vec::new();
    let mut i = a;
    while i < b
        invariant
            a <= i <= b <= v.len(),
            out@ == v@.subrange(a as int, i as int),
        decreases b - i,
    {
        out.push(v[i]);
        assert(v@.subrange(a as int, i as int + 1) =~= v@.subrange(a as int, i as int).push(v@[i as int]));
        i = i + 1;
    }
    chars_to_string(out.as_slice())
}

pub fn parse_remote_target(raw: &str) -> (r: Result<RemoteTarget, RemoteSessionParseError>)
    ensures
        match (r, target_spec(raw@)) {
            (Ok(t), Ok(v)) => target_view(t) == v,
            (Err(e), Err(v)) => error_view(e) == v,
            _ => false,
        },
{
    let v = str_chars(raw);
    let n = v.len();
    if n == 0 || (n == 1 && v[0] == ':') {
        proof {
            if n == 1 {
                assert(raw@ =~= seq![':']);
            }
        }
        return Err(RemoteSessionParseError::EmptyTarget);
    }
    assert(raw@ != seq![':']);
    if v[0] == '/' {
        return Ok(RemoteTarget { sandbox_id: None, remote_cwd: Some(str_to_string(raw)) });
    }
    let mut i: usize = 0;
    while i < n && v[i] != ':'
        invariant
            i <= n == v@.len(),
            forall|k: int| 0 <= k < i ==> v@[k] != ':',
        decreases n - i,
    {
        i = i + 1;
    }
    proof {
        lemma_first_index(v@, ':');
        let f = first_index_of(v@, ':');
        if i < n {
            assert(f >= 0 && f == i as int) by {
                if f < 0 || f > i {
                    assert(v@[i as int] != ':');
                }
            }
        } else {
            assert(f < 0) by {
                if f >= 0 {
                    assert(v@[f] != ':');
                }
            }
        }
    }
    if i == n {
        return Ok(RemoteTarget { sandbox_id: Some(str_to_string(raw)), remote_cwd: None });
    }
    let sandbox_id = if i == 0 {
        None
    } else {
        let id = copy_chars(&v, 0, i);
        assert(id@ =~= v@.take(i as int));
        Some(id)
    };
    if i + 1 == n {
        return Ok(RemoteTarget { sandbox_id, remote_cwd: None });
    }
    if v[i + 1] != '/' {
        return Err(RemoteSessionParseError::RelativeRemotePath);
    }
    let cwd = copy_chars(&v, i + 1, n);
    assert(cwd@ =~= v@.skip(i + 1));
    Ok(RemoteTarget { sandbox_id, remote_cwd: Some(cwd) })
}

/// The workspace mode after a mode flag: a second, different mode conflicts.
pub open spec fn mode_step(current: RemoteWorkspaceMode, next: RemoteWorkspaceMode) -> Result<
    RemoteWorkspaceMode,
    ParseErrorView,
> {
    if current != RemoteWorkspaceMode::UseRemotePath && current != next {
        Err(ParseErrorView::ConflictingWorkspaceModes)
    } else {
        Ok(next)
    }
}

pub fn set_workspace_mode(current: &mut RemoteWorkspaceMode, next: RemoteWorkspaceMode) -> (r: Result<
    (),
    RemoteSessionParseError,
>)
    ensures
        match mode_step(*old(current), next) {
            Ok(m) => r is Ok && *final(current) == m,
            Err(e) => (r matches Err(x) && error_view(x) == e) && *final(current) == *old(current),
        },
{
    if *current != RemoteWorkspaceMode::UseRemotePath && *current != next {
        return Err(RemoteSessionParseError::ConflictingWorkspaceModes);
    }
    *current = next;
    Ok(())
}

pub type TokensState = (Option<(Option<Seq<char>>, Option<Seq<char>>)>, RemoteWorkspaceMode);

/// The parse state after one more argument.
pub open spec fn token_step(state: TokensState, token: Seq<char>) -> Result<TokensState, ParseErrorView> {
    let (target, mode) = state;
    if token == "--copy-cwd"@ {
        match mode_step(mode, RemoteWorkspaceMode::CopyCwd) {
            Ok(m) => Ok((target, m)),
            Err(e) => Err(e),
        }
    } else if token == "--git-clone"@ {
        match mode_step(mode, RemoteWorkspaceMode::GitClone) {
            Ok(m) => Ok((target, m)),
            Err(e) => Err(e),
        }
    } else if token.len() > 0 && token[0] == '-' {
        Err(ParseErrorView::UnknownOption(token))
    } else if target is Some {
        Err(ParseErrorView::DuplicateTarget)
    } else {
        match target_spec(token) {
            Ok(t) => Ok((Some(t), mode)),
            Err(e) => Err(e),
        }
    }
}

/// The parse state after the arguments, or the first error.
pub open spec fn tokens_spec(tokens: Seq<Seq<char>>) -> Result<TokensState, ParseErrorView>
    decreases tokens.len(),
{
    if tokens.len() == 0 {
        Ok((None, RemoteWorkspaceMode::UseRemotePath))
    } else {
        match tokens_spec(tokens.drop_last()) {
            Ok(s) => token_step(s, tokens.last()),
            Err(e) => Err(e),
        }
    }
}

fn starts_with_dash(s: &str) -> (r: bool)
    ensures
        r == (s@.len() > 0 && s@[0] == '-'),
{
    let v = str_chars(s);
    v.len() > 0 && v[0] == '-'
}

/// Once an argument is refused, the later ones do not matter.
proof fn lemma_tokens_err(ts: Seq<Seq<char>>, k: int)
    requires
        0 <= k <= ts.len(),
        tokens_spec(ts.take(k)) is Err,
    ensures
        tokens_spec(ts) == tokens_spec(ts.take(k)),
    decreases ts.len() - k,
{
    if k < ts.len() {
        assert(ts.drop_last().take(k) =~= ts.take(k));
        lemma_tokens_err(ts.drop_last(), k);
    } else {
        assert(ts.take(k) =~= ts);
    }
}

/// The request the arguments describe: the default remote directory
/// `/workspace` unless a target names one.
pub open spec fn request_matches(r: RemoteSessionRequest, state: TokensState, local_cwd: Seq<char>) -> bool {
    let (target, mode) = state;
    let (id, cwd) = match target {
        Some(t) => t,
        None => (None, None),
    };
    &&& r.provider == RemoteProvider::Modal
    &&& opt_view(r.sandbox_id) == id
    &&& r.remote_cwd@ == (match cwd {
        Some(c) => c,
        None => DEFAULT_REMOTE_CWD@,
    })
    &&& r.workspace_mode == mode
    &&& r.local_cwd@ == local_cwd
}

/// Parses `/modal` arguments already split into shell words.
pub fn parse_modal_tokens(tokens: &Vec<String>, local_cwd: String) -> (r: Result<
    RemoteSessionRequest,
    RemoteSessionParseError,
>)
    ensures
        match (r, tokens_spec(crate::text::string_seqs(tokens@))) {
            (Ok(req), Ok(s)) => request_matches(req, s, local_cwd@),
            (Err(e), Err(v)) => error_view(e) == v,
            _ => false,
        },
{
    let ghost ts = crate::text::string_seqs(tokens@);
    let mut target: Option<RemoteTarget> = None;
    let mut mode = RemoteWorkspaceMode::UseRemotePath;
    let mut i: usize = 0;
    assert(ts.take(0) =~= Seq::<Seq<char>>::empty());
    while i < tokens.len()
        invariant
            i <= tokens.len(),
            ts == crate::text::string_seqs(tokens@),
            tokens_spec(ts.take(i as int)) == Ok::<TokensState, ParseErrorView>(
                (
                    match target {
                        Some(t) => Some(target_view(t)),
                        None => None,
                    },
                    mode,
                ),
            ),
        decreases tokens.len() - i,
    {
        assert(ts.take(i as int + 1).drop_last() =~= ts.take(i as int));
        let token = tokens[i].as_str();
        assert(ts[i as int] == token@);
        if crate::text::str_eq(token, "--copy-cwd") {
            match set_workspace_mode(&mut mode, RemoteWorkspaceMode::CopyCwd) {
                Ok(()) => {},
                Err(e) => {
                    proof {
                        lemma_tokens_err(ts, i as int + 1);
                    }
                    return Err(e);
                },
            }
        } else if crate::text::str_eq(token, "--git-clone") {
            match set_workspace_mode(&mut mode, RemoteWorkspaceMode::GitClone) {
                Ok(()) => {},
                Err(e) => {
                    proof {
                        lemma_tokens_err(ts, i as int + 1);
                    }
                    return Err(e);
                },
            }
        } else if starts_with_dash(token) {
            proof {
                lemma_tokens_err(ts, i as int + 1);
            }
            return Err(RemoteSessionParseError::UnknownOption { option: str_to_string(token) });
        } else {
            if target.is_some() {
                proof {
                    lemma_tokens_err(ts, i as int + 1);
                }
                return Err(RemoteSessionParseError::DuplicateTarget);
            }
            match parse_remote_target(token) {
                Ok(t) => {
                    target = Some(t);
                },
                Err(e) => {
                    proof {
                        lemma_tokens_err(ts, i as int + 1);
                    }
                    return Err(e);
                },
            }
        }
        i = i + 1;
    }
    assert(ts.take(tokens.len() as int) =~= ts);
    let (sandbox_id, remote_cwd) = match target {
        Some(t) => (t.sandbox_id, t.remote_cwd),
        None => (None, None),
    };
    let remote_cwd = match remote_cwd {
        Some(c) => c,
        None => str_to_string(DEFAULT_REMOTE_CWD),
    };
    Ok(
        RemoteSessionRequest {
            provider: RemoteProvider::Modal,
            sandbox_id,
            remote_cwd,
            workspace_mode: mode,
            local_cwd,
        },
    )
}

/// How `shlex::split` splits a line into shell words; none when a quote is
/// left open.
pub uninterp spec fn shlex_words(line: Seq<char>) -> Option<Seq<Seq<char>>>;

/// `shlex::split`: the words of `line` as POSIX shell splitting gives them,
/// or none (an unmatched quote or a trailing backslash); named
/// [`shlex_words`] here.
#[verifier::external_body]
fn shlex_split(line: &str) -> (r: Option<Vec<String>>)
    ensures
        match r {
            Some(v) => shlex_words(line@) == Some(crate::text::string_seqs(v@)),
            None => shlex_words(line@) is None,
        },
{
    shlex::split(line)
}

/// Parses the arguments of `/modal`: shell words, the mode flags
/// `--copy-cwd` and `--git-clone`, and at most one sandbox target.
pub fn parse_modal_session_request(args: &str, local_cwd: String) -> (r: Result<
    RemoteSessionRequest,
    RemoteSessionParseError,
>)
    ensures
        shlex_words(args@) is None ==> r == Err::<RemoteSessionRequest, RemoteSessionParseError>(
            RemoteSessionParseError::UnmatchedQuote,
        ),
        shlex_words(args@) matches Some(ws) ==> match (r, tokens_spec(ws)) {
            (Ok(req), Ok(s)) => request_matches(req, s, local_cwd@),
            (Err(e), Err(v)) => error_view(e) == v,
            _ => false,
        },
{
    match shlex_split(args) {
        Some(tokens) => parse_modal_tokens(&tokens, local_cwd),
        None => Err(RemoteSessionParseError::UnmatchedQuote),
    }
}


/// How `shlex::try_quote` quotes a word without a nul character.
pub uninterp spec fn shlex_quote(word: Seq<char>) -> Seq<char>;

/// `shlex::try_quote`: fails exactly when the word holds a nul character
/// (its default quoter's only error); otherwise gives the quoted word, named
/// [`shlex_quote`] here.
#[verifier::external_body]
fn shlex_try_quote(word: &str) -> (r: Option<String>)
    ensures
        r is Some <==> !holds_nul(seq![word@]),
        r is Some ==> r->0@ == shlex_quote(word@),
{
    shlex::try_quote(word).ok().map(|q| q.into_owned())
}

/// A word quoted for the remote shell; `''` should quoting fail.
pub open spec fn shell_quote_spec(word: Seq<char>) -> Seq<char> {
    if holds_nul(seq![word]) {
        "''"@
    } else {
        shlex_quote(word)
    }
}

pub fn shell_quote(value: &str) -> (r: String)
    ensures
        r@ == shell_quote_spec(value@),
{
    match shlex_try_quote(value) {
        Some(q) => q,
        None => str_to_string("''"),
    }
}

/// The script that starts the app server in the sandbox: it enters the
/// remote directory, writes the capability token where only the server reads
/// it, starts `codex app-server` on port 4222 with capability-token auth in
/// the background, and fails with the server's log if it died at once.
pub open spec fn start_script_spec(cwd: Seq<char>, token: Seq<char>) -> Seq<char> {
    let c = shell_quote_spec(cwd);
    let t = shell_quote_spec(token);
    let tp = shell_quote_spec(APP_SERVER_TOKEN_PATH@);
    let pp = shell_quote_spec(APP_SERVER_PID_PATH@);
    let lp = shell_quote_spec(APP_SERVER_LOG_PATH@);
    "set -eu\nmkdir -p "@ + c + "\ncd "@ + c + "\numask 077\nprintf %s "@ + t + " > "@ + tp
        + "\nnohup codex app-server --listen ws://0.0.0.0:4222 --ws-auth capability-token --ws-token-file "@
        + tp + " > "@ + lp + " 2>&1 < /dev/null &\npid=$!\nprintf %s \"$pid\" > "@ + pp
        + "\nsleep 1\nif ! kill -0 \"$pid\" 2>/dev/null; then\n  cat "@ + lp
        + " >&2 || true\n  exit 1\nfi\n"@
}

pub fn app_server_start_script(remote_cwd: &str, auth_token: &str) -> (r: String)
    ensures
        r@ == start_script_spec(remote_cwd@, auth_token@),
{
    let c = str_chars(shell_quote(remote_cwd).as_str());
    let t = str_chars(shell_quote(auth_token).as_str());
    let tp = str_chars(shell_quote(APP_SERVER_TOKEN_PATH).as_str());
    let pp = str_chars(shell_quote(APP_SERVER_PID_PATH).as_str());
    let lp = str_chars(shell_quote(APP_SERVER_LOG_PATH).as_str());
    let mut out: Vec<char> = Vec::new();
    push_str(&mut out, "set -eu\nmkdir -p ");
    push_chars(&mut out, c.as_slice());
    push_str(&mut out, "\ncd ");
    push_chars(&mut out, c.as_slice());
    push_str(&mut out, "\numask 077\nprintf %s ");
    push_chars(&mut out, t.as_slice());
    push_str(&mut out, " > ");
    push_chars(&mut out, tp.as_slice());
    push_str(
        &mut out,
        "\nnohup codex app-server --listen ws://0.0.0.0:4222 --ws-auth capability-token --ws-token-file ",
    );
    push_chars(&mut out, tp.as_slice());
    push_str(&mut out, " > ");
    push_chars(&mut out, lp.as_slice());
    push_str(&mut out, " 2>&1 < /dev/null &\npid=$!\nprintf %s \"$pid\" > ");
    push_chars(&mut out, pp.as_slice());
    push_str(&mut out, "\nsleep 1\nif ! kill -0 \"$pid\" 2>/dev/null; then\n  cat ");
    push_chars(&mut out, lp.as_slice());
    push_str(&mut out, " >&2 || true\n  exit 1\nfi\n");
    chars_to_string(out.as_slice())
}

pub open spec fn websocket_url_spec(host: Seq<char>, port: u32) -> Seq<char> {
    "ws://"@ + host + ":"@ + crate::text::decimal(port as nat)
}

pub open spec fn missing_endpoint_error(container_port: u32) -> Seq<char> {
    "Modal tunnel for port "@ + crate::text::decimal(container_port as nat)
        + " did not include an unencrypted endpoint"@
}

/// The websocket URL of a sandbox tunnel: its unencrypted endpoint, which
/// the tunnel must have.
pub fn websocket_url_from_tunnel(
    container_port: u32,
    unencrypted_host: Option<&str>,
    unencrypted_port: Option<u32>,
) -> (r: Result<String, String>)
    ensures
        match (unencrypted_host, unencrypted_port) {
            (Some(h), Some(p)) => r matches Ok(u) && u@ == websocket_url_spec(h@, p),
            _ => r matches Err(e) && e@ == missing_endpoint_error(container_port),
        },
{
    match (unencrypted_host, unencrypted_port) {
        (Some(host), Some(port)) => {
            let mut out: Vec<char> = Vec::new();
            push_str(&mut out, "ws://");
            push_chars(&mut out, str_chars(host).as_slice());
            push_str(&mut out, ":");
            push_decimal(&mut out, port as u64);
            Ok(chars_to_string(out.as_slice()))
        },
        _ => {
            let mut out: Vec<char> = Vec::new();
            push_str(&mut out, "Modal tunnel for port ");
            push_decimal(&mut out, container_port as u64);
            push_str(&mut out, " did not include an unencrypted endpoint");
            Err(chars_to_string(out.as_slice()))
        },
    }
}

/// The parent directory of a remote path; `/` where it has none (or an
/// empty one).
pub open spec fn remote_parent_spec(path: Seq<char>) -> Seq<char> {
    match parent_of(path) {
        Some(p) => if p.len() == 0 {
            "/"@
        } else {
            p
        },
        None => "/"@,
    }
}

pub fn remote_parent(path: &str) -> (r: String)
    ensures
        r@ == remote_parent_spec(path@),
{
    match path_parent(path) {
        Some(p) => {
            if p.as_str().unicode_len() == 0 {
                str_to_string("/")
            } else {
                p
            }
        },
        None => str_to_string("/"),
    }
}

/// `root` without trailing `/`, then `/` and the relative path.
pub fn join_remote_path(root: &str, relative_path: &str) -> (r: String)
    ensures
        r@ == crate::text::strip_end_char(root@, '/') + "/"@ + relative_path@,
{
    let v = str_chars(root);
    let mut j = v.len();
    assert(v@.take(j as int) =~= v@);
    while j > 0 && v[j - 1] == '/'
        invariant
            j <= v.len(),
            crate::text::strip_end_char(v@, '/') == crate::text::strip_end_char(v@.take(j as int), '/'),
        decreases j,
    {
        assert(v@.take(j as int).drop_last() =~= v@.take(j - 1));
        j = j - 1;
    }
    proof {
        if j > 0 {
            assert(v@.take(j as int).last() != '/');
        }
    }
    let head = copy_chars(&v, 0, j);
    assert(head@ =~= v@.take(j as int));
    let mut out = str_chars(head.as_str());
    push_str(&mut out, "/");
    push_chars(&mut out, str_chars(relative_path).as_slice());
    chars_to_string(out.as_slice())
}

/// Whether leaving should first ask about terminating the remote sandbox:
/// when shutting down first, with a sandbox session, and no such question
/// already pending.
pub fn should_prompt_remote_sandbox_termination(
    shutdown_first: bool,
    has_remote_session: bool,
    exit_prompt_pending: bool,
) -> (r: bool)
    ensures
        r == (shutdown_first && has_remote_session && !exit_prompt_pending),
{
    shutdown_first && has_remote_session && !exit_prompt_pending
}

/// Directories that a workspace copy leaves out below its root: `.git`,
/// `target`, `.codex` and `.jj`.
pub open spec fn skipped_dir_name(name: Seq<char>) -> bool {
    name == ".git"@ || name == "target"@ || name == ".codex"@ || name == ".jj"@
}

pub fn should_skip_workspace_entry(depth: usize, is_dir: bool, file_name: Option<&str>) -> (r: bool)
    ensures
        r == (depth > 0 && is_dir && match file_name {
            Some(n) => skipped_dir_name(n@),
            None => false,
        }),
{
    if depth == 0 || !is_dir {
        return false;
    }
    match file_name {
        Some(n) => crate::text::str_eq(n, ".git") || crate::text::str_eq(n, "target")
            || crate::text::str_eq(n, ".codex") || crate::text::str_eq(n, ".jj"),
        None => false,
    }
}

/// The note shown while attaching to a sandbox: a title and the remote
/// working directory.
pub fn attaching_message(remote_cwd: &str) -> (r: (String, String))
    ensures
        r.0@ == "Attaching to Modal session..."@,
        r.1@ == "Remote working directory: "@ + remote_cwd@,
{
    let mut detail: Vec<char> = Vec::new();
    push_str(&mut detail, "Remote working directory: ");
    push_chars(&mut detail, str_chars(remote_cwd).as_slice());
    (str_to_string("Attaching to Modal session..."), chars_to_string(detail.as_slice()))
}

/// The note shown once attached: the sandbox, then the app server's address
/// and the remote working directory.
pub fn connected_message(sandbox_id: &str, websocket_url: &str, remote_cwd: &str) -> (r: (String, String))
    ensures
        r.0@ == "Connected to Modal sandbox "@ + sandbox_id@ + "."@,
        r.1@ == "App server: "@ + websocket_url@ + " | cwd: "@ + remote_cwd@,
{
    let mut title: Vec<char> = Vec::new();
    push_str(&mut title, "Connected to Modal sandbox ");
    push_chars(&mut title, str_chars(sandbox_id).as_slice());
    push_str(&mut title, ".");
    let mut detail: Vec<char> = Vec::new();
    push_str(&mut detail, "App server: ");
    push_chars(&mut detail, str_chars(websocket_url).as_slice());
    push_str(&mut detail, " | cwd: ");
    push_chars(&mut detail, str_chars(remote_cwd).as_slice());
    (chars_to_string(title.as_slice()), chars_to_string(detail.as_slice()))
}

/// The most files `--copy-cwd` uploads.
pub const MAX_COPY_FILES: usize = 10_000;

/// The most bytes `--copy-cwd` uploads: 512 MiB.
pub const MAX_COPY_BYTES: u64 = 536_870_912;

/// A copy stops with an error once it would hold more files than the limit
/// (`files_so_far` already taken) or more bytes (`total_bytes` with the next
/// file counted).
pub fn copy_limit_exceeded(files_so_far: usize, total_bytes: u64) -> (r: bool)
    ensures
        r == (files_so_far >= MAX_COPY_FILES || total_bytes > MAX_COPY_BYTES),
{
    files_so_far >= MAX_COPY_FILES || total_bytes > MAX_COPY_BYTES
}

pub open spec fn copy_too_large_spec() -> Seq<char> {
    "cwd copy is too large for /modal --copy-cwd (limit: 10000 files or 512 MiB)"@
}

pub fn copy_too_large_message() -> (r: String)
    ensures
        r@ == copy_too_large_spec(),
{
    str_to_string("cwd copy is too large for /modal --copy-cwd (limit: 10000 files or 512 MiB)")
}

pub open spec fn unsupported_path_error(p: Seq<char>) -> Seq<char> {
    "unsupported workspace path `"@ + p + "`"@
}

/// A workspace path as uploaded: its named components joined by `/`; a path
/// with a root, a leading `.` or a `..` component is refused.
pub open spec fn upload_path_spec(p: Seq<char>) -> Result<Seq<char>, Seq<char>> {
    let pieces = crate::text::split_on(p, '/');
    let parts = crate::worktree_paths::named_parts(pieces);
    if (p.len() > 0 && p[0] == '/') || pieces[0] == seq!['.'] || parts.contains(".."@) {
        Err(unsupported_path_error(p))
    } else {
        Ok(crate::text::join_with(parts, "/"@))
    }
}

pub fn upload_path(path: &str) -> (r: Result<String, String>)
    ensures
        match (r, upload_path_spec(path@)) {
            (Ok(a), Ok(b)) => a@ == b,
            (Err(a), Err(b)) => a@ == b,
            _ => false,
        },
{
    let v = str_chars(path);
    let pieces = crate::text::split_on_char(v.as_slice(), '/');
    let ghost pv = crate::text::char_seqs(pieces@);
    proof {
        crate::text::lemma_split_nonempty(path@, '/');
    }
    let comps = crate::worktree_paths::components_of_path(v.as_slice());
    let ghost cv = crate::text::char_seqs(comps@);
    let rooted = v.len() > 0 && v[0] == '/';
    let leading_dot = pieces[0].len() == 1 && pieces[0][0] == '.';
    assert(leading_dot == (pv[0] == seq!['.'])) by {
        assert(pv[0] == pieces@[0]@);
        if pv[0].len() == 1 && pv[0][0] == '.' {
            assert(pv[0] =~= seq!['.']);
        }
    }
    if rooted || leading_dot {
        let mut out: Vec<char> = Vec::new();
        push_str(&mut out, "unsupported workspace path `");
        push_chars(&mut out, v.as_slice());
        push_str(&mut out, "`");
        return Err(chars_to_string(out.as_slice()));
    }
    // Without a root or a leading `.`, the components are the named parts.
    proof {
        if crate::worktree_paths::starts_with_cur_dir(path@) {
            crate::worktree_paths::lemma_cur_dir_first_piece(path@);
        }
    }
    assert(cv =~= crate::worktree_paths::named_parts(pv));
    let mut k: usize = 0;
    while k < comps.len()
        invariant
            k <= comps.len(),
            cv == crate::text::char_seqs(comps@),
            cv == crate::worktree_paths::named_parts(pv),
            pv == crate::text::split_on(path@, '/'),
            v@ == path@,
            !(path@.len() > 0 && path@[0] == '/'),
            pv[0] != seq!['.'],
            forall|m: int| 0 <= m < k ==> cv[m] != ".."@,
        decreases comps.len() - k,
    {
        assert(cv[k as int] == comps@[k as int]@);
        if crate::text::chars_eq_str(comps[k].as_slice(), "..") {
            assert(cv.contains(".."@));
            let mut out: Vec<char> = Vec::new();
            push_str(&mut out, "unsupported workspace path `");
            push_chars(&mut out, v.as_slice());
            push_str(&mut out, "`");
            return Err(chars_to_string(out.as_slice()));
        }
        k = k + 1;
    }
    assert(!cv.contains(".."@));
    let joined = crate::text::join_chars(comps.as_slice(), "/");
    Ok(chars_to_string(joined.as_slice()))
}

} // verus!
