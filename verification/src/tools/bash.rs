//! The `bash` tool: what it reports of a finished command. Running the
//! command is the caller's part.

use vstd::prelude::*;
use crate::ToolDefinition;
use crate::text::{dec_int, push_dec_i64, push_str, string_from_chars};
use crate::util::{truncate_text, truncated};

verus! {

broadcast use vstd::string::group_string_axioms;

/// Arguments of the `bash` tool.
#[derive(Debug, Clone)]
pub struct BashArgs {
    /// The shell command to run.
    pub command: String,
}

/// `d` is the definition of the `bash` tool.
pub open spec fn is_bash_definition(d: ToolDefinition) -> bool {
    &&& d.name@ == "bash"@
    &&& d.description@
        == "Execute a command in a bash shell. Returns stdout, stderr, and exit status code. Runs in a non-interactive one-off context."@
    &&& d.parameters@
        == "{\"type\":\"object\",\"properties\":{\"command\":{\"type\":\"string\",\"description\":\"The shell command to run.\"}},\"required\":[\"command\"]}"@
}

/// The definition of the `bash` tool.
pub fn definition() -> (d: ToolDefinition)
    ensures
        is_bash_definition(d),
{
    ToolDefinition {
        name: "bash".to_owned(),
        description: "Execute a command in a bash shell. Returns stdout, stderr, and exit status code. Runs in a non-interactive one-off context.".to_owned(),
        parameters: "{\"type\":\"object\",\"properties\":{\"command\":{\"type\":\"string\",\"description\":\"The shell command to run.\"}},\"required\":[\"command\"]}".to_owned(),
    }
}

/// A command's output as the tool shows it: at most 10 head and 100 tail
/// lines, 1200 head and 12000 tail characters.
pub open spec fn shown_output(s: Seq<char>) -> Seq<char> {
    truncated(s, 10, 100, 1200, 12000)
}

/// The exit status shown: the process's code, or -1 when it had none (it was
/// killed by a signal).
pub open spec fn shown_status(code: Option<i32>) -> int {
    match code {
        Some(c) => c as int,
        None => -1,
    }
}

/// The report of a finished command.
pub open spec fn bash_report(code: Option<i32>, stdout: Seq<char>, stderr: Seq<char>) -> Seq<char> {
    "<bash_result status_code=\""@ + dec_int(shown_status(code)) + "\">\n<stdout>\n"@
        + shown_output(stdout) + "\n</stdout>\n<stderr>\n"@ + shown_output(stderr)
        + "\n</stderr>\n</bash_result>"@
}

/// The report of a command that exited with `code` and printed `stdout` and
/// `stderr`.
pub fn format_bash_result(code: Option<i32>, stdout: &str, stderr: &str) -> (r: String)
    ensures
        r@ == bash_report(code, stdout@, stderr@),
{
    let status: i64 = match code {
        Some(c) => c as i64,
        None => -1,
    };
    let out = truncate_text(stdout, 10, 100, 1200, 12000);
    let err = truncate_text(stderr, 10, 100, 1200, 12000);
    let mut v: Vec<char> = Vec::new();
    push_str(&mut v, "<bash_result status_code=\"");
    push_dec_i64(&mut v, status);
    push_str(&mut v, "\">\n<stdout>\n");
    push_str(&mut v, out.as_str());
    push_str(&mut v, "\n</stdout>\n<stderr>\n");
    push_str(&mut v, err.as_str());
    push_str(&mut v, "\n</stderr>\n</bash_result>");
    string_from_chars(v.as_slice())
}

} // verus!
