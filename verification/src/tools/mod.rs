//! The tools the library affords: `lookup`, `write` and `bash`, and how a
//! tool call is routed and answered.

pub mod bash;
pub mod lookup;
pub mod write;

use vstd::prelude::*;
use crate::{BondageError, Message, ToolDefinition, error_text};
use crate::text::{push_str, string_from_chars};

verus! {

broadcast use vstd::string::group_string_axioms;

/// The tools the library knows.
#[derive(Debug, Clone, Copy, PartialEq, Eq, Structural)]
pub enum ToolKind {
    Lookup,
    Write,
    Bash,
    Unknown,
}

/// The tool a call names.
pub open spec fn kind_of(name: Seq<char>) -> ToolKind {
    if name == "lookup"@ {
        ToolKind::Lookup
    } else if name == "write"@ {
        ToolKind::Write
    } else if name == "bash"@ {
        ToolKind::Bash
    } else {
        ToolKind::Unknown
    }
}

/// The tool named `name`.
pub fn tool_kind(name: &str) -> (k: ToolKind)
    ensures
        k == kind_of(name@),
{
    let n = crate::text::chars_of(name);
    if crate::text::is_exactly(&n, "lookup") {
        ToolKind::Lookup
    } else if crate::text::is_exactly(&n, "write") {
        ToolKind::Write
    } else if crate::text::is_exactly(&n, "bash") {
        ToolKind::Bash
    } else {
        ToolKind::Unknown
    }
}

/// The error for a call of a tool the library does not know.
pub fn unknown_tool_error(name: &str) -> (e: BondageError)
    ensures
        (e matches BondageError::Tool(d) && d@ == "Unknown tool: "@ + name@),
{
    let mut v: Vec<char> = Vec::new();
    push_str(&mut v, "Unknown tool: ");
    push_str(&mut v, name);
    BondageError::Tool(string_from_chars(v.as_slice()))
}

/// The history entry that answers the call `id` of the tool `name` with
/// `result`: its text on success, the error's description on failure.
pub fn tool_response(id: &str, name: &str, result: Result<String, BondageError>) -> (m: Message)
    ensures
        match result {
            Ok(c) => (m matches Message::ToolResponse { id: i, name: n, content, is_error }
                && i@ == id@ && n@ == name@ && content == c && !is_error),
            Err(e) => (m matches Message::ToolResponse { id: i, name: n, content, is_error }
                && i@ == id@ && n@ == name@ && content@ == error_text(e) && is_error),
        },
{
    match result {
        Ok(content) => Message::ToolResponse {
            id: id.to_owned(),
            name: name.to_owned(),
            content,
            is_error: false,
        },
        Err(e) => Message::ToolResponse {
            id: id.to_owned(),
            name: name.to_owned(),
            content: e.describe(),
            is_error: true,
        },
    }
}

/// The definitions of all the tools, in the order `lookup`, `write`, `bash`.
pub fn get_standard_tools() -> (ts: Vec<ToolDefinition>)
    ensures
        ts@.len() == 3,
        lookup::is_lookup_definition(ts@[0]),
        write::is_write_definition(ts@[1]),
        bash::is_bash_definition(ts@[2]),
{
    let mut ts: Vec<ToolDefinition> = Vec::new();
    ts.push(lookup::definition());
    ts.push(write::definition());
    ts.push(bash::definition());
    ts
}

} // verus!
