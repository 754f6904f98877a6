//! Bondage: a stateless binding between an LLM engine, its message history and
//! a small set of local tools. The library holds the decisions: how a history
//! maps to chat entries, how tool calls are gated by policy, what each tool
//! reports, and how an agent turn proceeds. Engines, disks, terminals and the
//! network stay with the caller, who hands the library plain values.

pub mod text;
pub mod prompt_file_injector;
pub mod util;
pub mod order;
pub mod chat;
pub mod policy;
pub mod config;
pub mod tools;
pub mod kit;
pub mod rope;
pub mod cli;

use vstd::prelude::*;

verus! {

/// One entry of the stateless message history.
#[derive(Debug, Clone, PartialEq)]
pub enum Message {
    System(String),
    User(String),
    ModelText(String),
    /// A tool call requested by the model; `arguments` is its JSON payload.
    ModelToolRequest { id: String, name: String, arguments: String },
    ToolResponse { id: String, name: String, content: String, is_error: bool },
    /// A model-level generation failure (e.g. a content block).
    Error(String),
}

/// The text of a message, field by field.
pub enum MessageView {
    System(Seq<char>),
    User(Seq<char>),
    ModelText(Seq<char>),
    ModelToolRequest { id: Seq<char>, name: Seq<char>, arguments: Seq<char> },
    ToolResponse { id: Seq<char>, name: Seq<char>, content: Seq<char>, is_error: bool },
    Error(Seq<char>),
}

impl View for Message {
    type V = MessageView;

    open spec fn view(&self) -> MessageView {
        match self {
            Message::System(t) => MessageView::System(t@),
            Message::User(t) => MessageView::User(t@),
            Message::ModelText(t) => MessageView::ModelText(t@),
            Message::ModelToolRequest { id, name, arguments } => MessageView::ModelToolRequest {
                id: id@,
                name: name@,
                arguments: arguments@,
            },
            Message::ToolResponse { id, name, content, is_error } => MessageView::ToolResponse {
                id: id@,
                name: name@,
                content: content@,
                is_error: *is_error,
            },
            Message::Error(t) => MessageView::Error(t@),
        }
    }
}

/// The views of a sequence of messages.
pub open spec fn messages_view(ms: Seq<Message>) -> Seq<MessageView> {
    ms.map_values(|m: Message| m@)
}

/// A tool the model may call. `parameters` is the JSON Schema of its
/// arguments, as JSON text.
#[derive(Debug, Clone)]
pub struct ToolDefinition {
    pub name: String,
    pub description: String,
    pub parameters: String,
}

/// Failures of a step.
#[derive(Debug)]
pub enum BondageError {
    Engine(String),
    Tool(String),
    Io(String),
    Serialization(String),
}

/// The text that describes an error: its kind, then its detail.
pub open spec fn error_text(e: BondageError) -> Seq<char> {
    match e {
        BondageError::Engine(d) => "LLM Engine Error: "@ + d@,
        BondageError::Tool(d) => "Tool Execution Error: "@ + d@,
        BondageError::Io(d) => "I/O Error: "@ + d@,
        BondageError::Serialization(d) => "Serialization Error: "@ + d@,
    }
}

impl BondageError {
    /// The text that describes this error.
    pub fn describe(&self) -> (r: String)
        ensures
            r@ == error_text(*self),
    {
        match self {
            BondageError::Engine(d) => "LLM Engine Error: ".to_string().concat(d.as_str()),
            BondageError::Tool(d) => "Tool Execution Error: ".to_string().concat(d.as_str()),
            BondageError::Io(d) => "I/O Error: ".to_string().concat(d.as_str()),
            BondageError::Serialization(d) => "Serialization Error: ".to_string().concat(
                d.as_str(),
            ),
        }
    }
}

} // verus!
