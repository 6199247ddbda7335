//! The sandbox policy as the Windows spawn path sees it: which policies can
//! be sandboxed, when network access is cut off, and which working directory
//! a sandboxed command starts in.

use vstd::prelude::*;

use crate::sandbox_paths::{unc_spec, verbatim_marker};
use crate::text::str_to_string;

verus! {

/// How much a sandboxed command may do.
#[derive(Clone, Debug, PartialEq, Eq)]
pub enum SandboxPolicy {
    /// No sandbox at all.
    DangerFullAccess,
    /// Read everything, write nothing.
    ReadOnly { network_access: bool },
    /// Sandboxing is done by something outside Codex.
    ExternalSandbox { network_access: bool },
    /// Write to the workspace and the listed roots.
    WorkspaceWrite {
        writable_roots: Vec<String>,
        network_access: bool,
        exclude_tmpdir_env_var: bool,
        exclude_slash_tmp: bool,
    },
}

pub open spec fn full_network_spec(p: SandboxPolicy) -> bool {
    match p {
        SandboxPolicy::DangerFullAccess => true,
        SandboxPolicy::ReadOnly { network_access } => network_access,
        SandboxPolicy::ExternalSandbox { network_access } => network_access,
        SandboxPolicy::WorkspaceWrite { network_access, .. } => network_access,
    }
}

impl SandboxPolicy {
    /// The default workspace-write policy: no extra roots, no network, and
    /// the temporary directories writable.
    pub fn new_workspace_write_policy() -> (r: Self)
        ensures
            r matches SandboxPolicy::WorkspaceWrite {
                writable_roots,
                network_access,
                exclude_tmpdir_env_var,
                exclude_slash_tmp,
            } && writable_roots@.len() == 0 && !network_access && !exclude_tmpdir_env_var
                && !exclude_slash_tmp,
    {
        SandboxPolicy::WorkspaceWrite {
            writable_roots: Vec::new(),
            network_access: false,
            exclude_tmpdir_env_var: false,
            exclude_slash_tmp: false,
        }
    }

    pub fn has_full_network_access(&self) -> (r: bool)
        ensures
            r == full_network_spec(*self),
    {
        match self {
            SandboxPolicy::DangerFullAccess => true,
            SandboxPolicy::ReadOnly { network_access } => *network_access,
            SandboxPolicy::ExternalSandbox { network_access } => *network_access,
            SandboxPolicy::WorkspaceWrite { network_access, .. } => *network_access,
        }
    }
}

/// Whether the spawn environment is rewritten to cut off the network: for
/// every policy without full network access.
pub fn should_apply_network_block(policy: &SandboxPolicy) -> (r: bool)
    ensures
        r == !full_network_spec(*policy),
{
    !policy.has_full_network_access()
}

pub open spec fn unsupported_policy_error() -> Seq<char> {
    "DangerFullAccess and ExternalSandbox are not supported for sandboxing"@
}

/// Checks that a policy can be enforced by this sandbox, and says whether it
/// is a workspace-write policy.
pub fn check_spawn_policy(policy: &SandboxPolicy) -> (r: Result<bool, String>)
    ensures
        (policy is DangerFullAccess || policy is ExternalSandbox) ==> (r matches Err(e) && e@
            == unsupported_policy_error()),
        policy is ReadOnly ==> r == Ok::<bool, String>(false),
        policy is WorkspaceWrite ==> r == Ok::<bool, String>(true),
{
    match policy {
        SandboxPolicy::DangerFullAccess | SandboxPolicy::ExternalSandbox { .. } => Err(
            str_to_string("DangerFullAccess and ExternalSandbox are not supported for sandboxing"),
        ),
        SandboxPolicy::ReadOnly { .. } => Ok(false),
        SandboxPolicy::WorkspaceWrite { .. } => Ok(true),
    }
}

/// A path with a `\\?\` prefix dropped, where that is safe.
pub open spec fn simplified_from(p: Seq<char>, r: Seq<char>) -> bool {
    r == p || (verbatim_marker(p) && r == p.skip(4))
}

/// `dunce::simplified`: the path itself, or, where the path is a verbatim
/// disk path that legacy programs can take without its `\\?\` prefix, the
/// path with those four characters dropped. Which of the two depends on the
/// host (elsewhere than on Windows it is always the path itself), so nothing
/// more is stated.
#[verifier::external_body]
fn dunce_simplified(path: &str) -> (r: String)
    ensures
        simplified_from(path@, r@),
{
    dunce::simplified(std::path::Path::new(path)).to_string_lossy().into_owned()
}

/// The working directory to hand to a sandboxed process: the simplified
/// form of `path` when that is a UNC path, else the simplified canonical
/// form (`simplified_canonical`) when that is one, else the simplified path.
/// Only on a Windows host (`windows_host`) is any path a UNC path.
pub fn choose_spawn_cwd(simplified_path: String, simplified_canonical: Option<String>, windows_host: bool) -> (r:
    String)
    ensures
        (windows_host && unc_spec(simplified_path@)) ==> r == simplified_path,
        !(windows_host && unc_spec(simplified_path@)) ==> match simplified_canonical {
            Some(c) => if windows_host && unc_spec(c@) {
                r == c
            } else {
                r == simplified_path
            },
            None => r == simplified_path,
        },
{
    if crate::sandbox_paths::path_uses_unc_prefix(simplified_path.as_str(), windows_host) {
        return simplified_path;
    }
    match simplified_canonical {
        Some(c) => {
            if crate::sandbox_paths::path_uses_unc_prefix(c.as_str(), windows_host) {
                c
            } else {
                simplified_path
            }
        },
        None => simplified_path,
    }
}

/// Normalizes a working directory for a sandboxed process, given its
/// canonical form where it could be resolved (`canonical`): a UNC form is
/// kept, as [`choose_spawn_cwd`] says, of the simplified path or, failing
/// that, of the simplified canonical form. Off Windows the result is the
/// simplified path.
pub fn normalize_spawn_cwd(path: &str, canonical: Option<&str>, windows_host: bool) -> (r: String)
    ensures
        exists|s: Seq<char>| #![trigger simplified_from(path@, s)]
            simplified_from(path@, s) && ((windows_host && unc_spec(s)) ==> r@ == s) && (!(
            windows_host && unc_spec(s)) ==> (r@ == s || (canonical is Some && windows_host
                && unc_spec(r@) && simplified_from(canonical->0@, r@)))),
        !windows_host ==> exists|s: Seq<char>| #![trigger simplified_from(path@, s)]
            simplified_from(path@, s) && r@ == s,
{
    let simplified = dunce_simplified(path);
    let ghost s = simplified@;
    let canonical_simplified = match canonical {
        Some(c) => Some(dunce_simplified(c)),
        None => None,
    };
    let r = choose_spawn_cwd(simplified, canonical_simplified, windows_host);
    assert(simplified_from(path@, s));
    r
}

} // verus!
