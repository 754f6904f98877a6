//! The Rope tool executor: the policy check of the one-off and file-sitter
//! modes. In file-sitter mode, writes to the session file itself need no
//! approval.

use vstd::prelude::*;
use crate::kit::{call_mode, call_mode_spec, gate, gate_spec, Gate};
use crate::policy::{Policy, PolicyMode};
use crate::tools::lookup::opt_view;
use crate::tools::{kind_of, tool_kind, ToolKind};
use crate::util::{path_components, paths_equal, resolve_path, resolved_path};

verus! {

/// The executor of the Rope harness. `session_file` is the session file of
/// file-sitter mode, absent in one-off mode; `terminal` the configured
/// terminal emulator command.
#[derive(Debug, Clone)]
pub struct RopeExecutor {
    pub terminal: Option<String>,
    pub session_file: Option<String>,
    pub policy: Policy,
}

/// The call of `name` writes the session file: a write whose path, resolved
/// from `current_dir` (with `home` as the home directory), has the session
/// file's components (`Path == Path`).
pub open spec fn writes_session_file(
    session_file: Option<Seq<char>>,
    name: Seq<char>,
    target: Option<Seq<char>>,
    current_dir: Seq<char>,
    home: Option<Seq<char>>,
) -> bool {
    &&& kind_of(name) == ToolKind::Write
    &&& target is Some
    &&& session_file is Some
    &&& {
        let resolved = resolved_path(current_dir, target->0, home);
        path_components(resolved) == path_components(session_file->0)
    }
}

/// The mode of a call under the Rope executor: `Yes` for a write of the
/// session file, the policy's mode otherwise.
pub open spec fn rope_mode(
    policy: Policy,
    session_file: Option<Seq<char>>,
    name: Seq<char>,
    target: Option<Seq<char>>,
    current_dir: Seq<char>,
    home: Option<Seq<char>>,
    inside_base: bool,
) -> PolicyMode {
    if writes_session_file(session_file, name, target, current_dir, home) {
        PolicyMode::Yes
    } else {
        call_mode_spec(policy, name, target, inside_base)
    }
}

/// The texts of an optional string.
pub open spec fn opt_string_view(o: Option<String>) -> Option<Seq<char>> {
    match o {
        Some(s) => Some(s@),
        None => None,
    }
}

impl RopeExecutor {
    /// The mode of a call of `name`: `target` is the lookup target or write
    /// path read from its arguments (absent when they could not be read),
    /// `inside_base` whether it lies inside the workspace `current_dir`, and
    /// `home` the home directory when known.
    pub fn call_mode(
        &self,
        name: &str,
        target: Option<&str>,
        current_dir: &str,
        home: Option<&str>,
        inside_base: bool,
    ) -> (m: PolicyMode)
        ensures
            m == rope_mode(
                self.policy,
                opt_string_view(self.session_file),
                name@,
                opt_view(target),
                current_dir@,
                opt_view(home),
                inside_base,
            ),
    {
        if let (ToolKind::Write, Some(t), Some(sf)) = (tool_kind(name), target, &self.session_file) {
            let resolved = resolve_path(current_dir, t, home);
            if paths_equal(resolved.as_str(), sf.as_str()) {
                return PolicyMode::Yes;
            }
        }
        call_mode(&self.policy, name, target, inside_base)
    }

    /// What becomes of a call of `name`, with the arguments as for `call_mode`.
    pub fn gate_call(
        &self,
        name: &str,
        target: Option<&str>,
        current_dir: &str,
        home: Option<&str>,
        inside_base: bool,
    ) -> (g: Gate)
        ensures
            g == gate_spec(
                rope_mode(
                    self.policy,
                    opt_string_view(self.session_file),
                    name@,
                    opt_view(target),
                    current_dir@,
                    opt_view(home),
                    inside_base,
                ),
                name@,
            ),
    {
        let m = self.call_mode(name, target, current_dir, home, inside_base);
        gate(m, name)
    }
}

/// Writing the session file by the very path it was opened with is never
/// asked about nor refused, whatever the policy.
pub proof fn law_session_file_writes_run(
    policy: Policy,
    session_file: Seq<char>,
    current_dir: Seq<char>,
    home: Option<Seq<char>>,
    inside_base: bool,
)
    requires
        session_file.len() > 0 && session_file[0] == '/',
    ensures
        gate_spec(
            rope_mode(
                policy,
                Some(session_file),
                "write"@,
                Some(session_file),
                current_dir,
                home,
                inside_base,
            ),
            "write"@,
        ) == Gate::Run,
{
    reveal_strlit("write");
    reveal_strlit("lookup");
    assert("write"@.len() != "lookup"@.len());
    assert(kind_of("write"@) == ToolKind::Write);
    crate::util::lemma_absolute_resolves_to_itself(current_dir, session_file, home);
}

/// Without a session file the Rope executor gates exactly as the policy
/// does.
pub proof fn law_one_off_mode_follows_policy(
    policy: Policy,
    name: Seq<char>,
    target: Option<Seq<char>>,
    current_dir: Seq<char>,
    home: Option<Seq<char>>,
    inside_base: bool,
)
    ensures
        rope_mode(policy, None, name, target, current_dir, home, inside_base) == call_mode_spec(
            policy,
            name,
            target,
            inside_base,
        ),
{
}

} // verus!
