//! The Bondage command line: a one-shot agent that asks before each tool
//! call, or runs every call at once in YOLO mode.

use vstd::prelude::*;
use crate::text::{chars_of, texts};

verus! {

broadcast use vstd::string::group_string_axioms;

/// The arguments of the Bondage command line.
#[derive(Debug, Clone)]
pub struct AgentArgs {
    /// The configuration named by the last `-c`/`--config`; a last `-c`
    /// with no value after it names none.
    pub config: Option<String>,
    /// `-y`/`--yolo` was given: tool calls run without asking.
    pub yolo: bool,
    /// The other arguments, which make up the prompt.
    pub positional: Vec<String>,
}

/// The arguments of the Bondage command line, as texts.
pub struct AgentArgsView {
    pub config: Option<Seq<char>>,
    pub yolo: bool,
    pub positional: Seq<Seq<char>>,
}

impl View for AgentArgs {
    type V = AgentArgsView;

    open spec fn view(&self) -> AgentArgsView {
        AgentArgsView {
            config: match self.config {
                Some(c) => Some(c@),
                None => None,
            },
            yolo: self.yolo,
            positional: texts(self.positional@),
        }
    }
}

/// No argument seen yet.
pub open spec fn no_agent_args() -> AgentArgsView {
    AgentArgsView { config: None, yolo: false, positional: Seq::empty() }
}

/// The arguments `args` from position `i` on, read into `acc`.
pub open spec fn agent_parse_from(args: Seq<Seq<char>>, i: int, acc: AgentArgsView) -> AgentArgsView
    decreases args.len() - i,
{
    if i < 0 || i >= args.len() {
        acc
    } else {
        let a = args[i];
        if a == "-c"@ || a == "--config"@ {
            if i + 1 < args.len() {
                agent_parse_from(args, i + 2, AgentArgsView { config: Some(args[i + 1]), ..acc })
            } else {
                agent_parse_from(args, i + 1, AgentArgsView { config: None, ..acc })
            }
        } else if a == "-y"@ || a == "--yolo"@ {
            agent_parse_from(args, i + 1, AgentArgsView { yolo: true, ..acc })
        } else {
            agent_parse_from(args, i + 1, AgentArgsView { positional: acc.positional.push(a), ..acc })
        }
    }
}

/// The usage line, shown when no prompt is given.
pub open spec fn agent_usage_text() -> Seq<char> {
    "Usage: rope [-c <config_path>] [-y|--yolo] <prompt...>"@
}

fn is_either(a: &Vec<char>, short: &str, long: &str) -> (r: bool)
    ensures
        r == (a@ == short@ || a@ == long@),
{
    crate::text::is_exactly(a, short) || crate::text::is_exactly(a, long)
}

/// Reads the command-line arguments `args` (the program name left out):
/// the arguments read, or the usage line when they hold no prompt.
pub fn parse_agent_args(args: &Vec<String>) -> (r: Result<AgentArgs, String>)
    ensures
        match r {
            Ok(a) => a@ == agent_parse_from(texts(args@), 0, no_agent_args())
                && a@.positional.len() > 0,
            Err(e) => agent_parse_from(texts(args@), 0, no_agent_args()).positional.len() == 0
                && e@ == agent_usage_text(),
        },
{
    let ghost t = texts(args@);
    let mut out = AgentArgs { config: None, yolo: false, positional: Vec::new() };
    assert(out@ == no_agent_args()) by {
        assert(texts(out.positional@) =~= Seq::<Seq<char>>::empty());
    }
    let n = args.len();
    let mut i: usize = 0;
    while i < n
        invariant
            i <= n,
            n == args@.len(),
            t == texts(args@),
            agent_parse_from(t, 0, no_agent_args()) == agent_parse_from(t, i as int, out@),
        decreases n - i,
    {
        let a = chars_of(args[i].as_str());
        assert(t[i as int] == a@);
        if is_either(&a, "-c", "--config") {
            if i + 1 < n {
                out.config = Some(args[i + 1].clone());
                i = i + 2;
            } else {
                out.config = None;
                i = i + 1;
            }
        } else if is_either(&a, "-y", "--yolo") {
            out.yolo = true;
            i = i + 1;
        } else {
            let ghost before = out@;
            out.positional.push(args[i].clone());
            assert(out@.positional == before.positional.push(t[i as int]));
            assert(out@ == AgentArgsView { positional: before.positional.push(a@), ..before });
            i = i + 1;
        }
    }
    if out.positional.len() == 0 {
        Err("Usage: rope [-c <config_path>] [-y|--yolo] <prompt...>".to_string())
    } else {
        Ok(out)
    }
}

/// The system prompt of the Bondage agent.
pub open spec fn agent_system_prompt_text() -> Seq<char> {
    "You are Bondage, a stateless actor core. You have access to a 'lookup' tool. Always look up files or directories if you need more information to answer the user's request. Keep your answers concise."@
}

/// The system prompt of the Bondage agent.
pub fn agent_system_prompt() -> (r: String)
    ensures
        r@ == agent_system_prompt_text(),
{
    "You are Bondage, a stateless actor core. You have access to a 'lookup' tool. Always look up files or directories if you need more information to answer the user's request. Keep your answers concise.".to_string()
}

} // verus!
