//! The agent kit: the decisions of an agentic turn (call the model, run the
//! tools it asks for, repeat until it asks for none) and of the default tool
//! executor (what the policy says of a call, and what is answered when a call
//! is refused). The caller performs each action and hands back its result.

use vstd::prelude::*;
use crate::{Message, MessageView, messages_view};
use crate::policy::{lookup_mode, write_mode, Policy, PolicyMode};
use crate::text::{
    all_ascii, ascii_lowercase, chars_of, join, lines, lowercase, push_str, split_lines, string_from_chars, to_lowercase, trim,
    trim_chars,
};
use crate::tools::{kind_of, tool_kind, ToolKind};

verus! {

broadcast use vstd::string::group_string_axioms;

// ---------------------------------------------------------------------------
// The agent turn
// ---------------------------------------------------------------------------

/// What the caller does next in an agent turn.
#[derive(Debug)]
pub enum AgentAction {
    /// Send the history to the model and hand its answer to `on_model_response`.
    CallModel,
    /// Run this tool call and hand its response to `on_tool_result`.
    RunTool { id: String, name: String, arguments: String },
    /// The turn is over: the model asked for no tool.
    Finish,
}

/// The state of an agent turn: the model's answer not yet taken into the
/// history, and whether it asked for a tool.
pub struct AgentTurn {
    queue: Vec<Message>,
    next: usize,
    saw_tool_call: bool,
}

/// The position of the first tool request in `q`, or `q.len()`.
pub open spec fn first_request(q: Seq<MessageView>) -> int
    decreases q.len(),
{
    if q.len() == 0 {
        0
    } else if q[0] is ModelToolRequest {
        0
    } else {
        1 + first_request(q.drop_first())
    }
}

proof fn lemma_first_request(q: Seq<MessageView>, k: int)
    requires
        0 <= k <= q.len(),
        forall|j: int| 0 <= j < k ==> !(q[j] is ModelToolRequest),
        k == q.len() || q[k] is ModelToolRequest,
    ensures
        first_request(q) == k,
    decreases k,
{
    if k > 0 {
        lemma_first_request(q.drop_first(), k - 1);
    }
}

/// The action for the tool request `m`.
pub open spec fn run_action_matches(a: AgentAction, m: MessageView) -> bool {
    match m {
        MessageView::ModelToolRequest { id, name, arguments } => (a matches AgentAction::RunTool {
            id: i,
            name: n,
            arguments: g,
        } && i@ == id && n@ == name && g@ == arguments),
        _ => false,
    }
}

/// One step of the turn over the answer `q` not yet taken in, from the
/// history `h`: the messages up to and with the first tool request join the
/// history and that request is to be run; without a tool request, the whole
/// answer joins the history and the model is called again if an earlier part
/// of the answer asked for a tool, the turn finishing otherwise.
pub open spec fn advance_spec(
    q: Seq<MessageView>,
    h: Seq<MessageView>,
    saw: bool,
    q2: Seq<MessageView>,
    h2: Seq<MessageView>,
    saw2: bool,
    a: AgentAction,
) -> bool {
    let k = first_request(q);
    if k < q.len() {
        &&& h2 == h + q.subrange(0, k + 1)
        &&& q2 == q.subrange(k + 1, q.len() as int)
        &&& saw2
        &&& run_action_matches(a, q[k])
    } else {
        &&& h2 == h + q
        &&& q2.len() == 0
        &&& !saw2
        &&& if saw {
            a is CallModel
        } else {
            a is Finish
        }
    }
}

/// Nothing of the model's answer is lost, duplicated or reordered: each step
/// moves a prefix of the answer onto the end of the history.
pub proof fn law_answer_moves_into_history(
    q: Seq<MessageView>,
    h: Seq<MessageView>,
    saw: bool,
    q2: Seq<MessageView>,
    h2: Seq<MessageView>,
    saw2: bool,
    a: AgentAction,
)
    requires
        advance_spec(q, h, saw, q2, h2, saw2, a),
    ensures
        h2 + q2 == h + q,
        h2.subrange(0, h.len() as int) == h,
        q2.len() < q.len() || (q.len() == 0 && q2.len() == 0),
{
    let k = first_request(q);
    lemma_first_request_bounds(q);
    if k < q.len() {
        assert(h + q.subrange(0, k + 1) + q.subrange(k + 1, q.len() as int) == h + q);
    } else {
        assert(q2 == Seq::<MessageView>::empty());
    }
}

proof fn lemma_first_request_bounds(q: Seq<MessageView>)
    ensures
        0 <= first_request(q) <= q.len(),
    decreases q.len(),
{
    if q.len() > 0 && !(q[0] is ModelToolRequest) {
        lemma_first_request_bounds(q.drop_first());
    }
}

fn copy_message(m: &Message) -> (r: Message)
    ensures
        r@ == m@,
{
    match m {
        Message::System(t) => Message::System(t.clone()),
        Message::User(t) => Message::User(t.clone()),
        Message::ModelText(t) => Message::ModelText(t.clone()),
        Message::ModelToolRequest { id, name, arguments } => Message::ModelToolRequest {
            id: id.clone(),
            name: name.clone(),
            arguments: arguments.clone(),
        },
        Message::ToolResponse { id, name, content, is_error } => Message::ToolResponse {
            id: id.clone(),
            name: name.clone(),
            content: content.clone(),
            is_error: *is_error,
        },
        Message::Error(t) => Message::Error(t.clone()),
    }
}

impl AgentTurn {
    /// The part of the model's answer not yet taken into the history.
    pub closed spec fn pending(&self) -> Seq<MessageView> {
        messages_view(self.queue@).subrange(self.next as int, self.queue@.len() as int)
    }

    /// Whether the model's current answer asked for a tool.
    pub closed spec fn asked_for_tool(&self) -> bool {
        self.saw_tool_call
    }

    #[verifier::type_invariant]
    closed spec fn wf(&self) -> bool {
        self.next <= self.queue@.len()
    }

    /// A turn that starts by calling the model.
    pub fn new() -> (t: AgentTurn)
        ensures
            t.pending().len() == 0,
            !t.asked_for_tool(),
    {
        AgentTurn { queue: Vec::new(), next: 0, saw_tool_call: false }
    }

    fn advance(&mut self, history: &mut Vec<Message>) -> (a: AgentAction)
        ensures
            advance_spec(
                old(self).pending(),
                messages_view(old(history)@),
                old(self).saw_tool_call,
                final(self).pending(),
                messages_view(final(history)@),
                final(self).saw_tool_call,
                a,
            ),
    {
        proof {
            use_type_invariant(&*self);
        }
        let ghost q = self.pending();
        let ghost h = messages_view(history@);
        let ghost start = self.next;
        while self.next < self.queue.len()
            invariant
                start <= self.next <= self.queue@.len(),
                q == old(self).pending(),
                h == messages_view(old(history)@),
                q == messages_view(self.queue@).subrange(start as int, self.queue@.len() as int),
                messages_view(history@) == h + q.subrange(0, self.next - start),
                forall|j: int| 0 <= j < self.next - start ==> !(q[j] is ModelToolRequest),
                self.saw_tool_call == old(self).saw_tool_call,
            decreases self.queue@.len() - self.next,
        {
            let i = self.next;
            assert(q[i - start] == self.queue@[i as int]@);
            let m = copy_message(&self.queue[i]);
            self.next = i + 1;
            let ghost before = messages_view(history@);
            history.push(m);
            assert(messages_view(history@) == before.push(q[i - start]));
            assert(q.subrange(0, i + 1 - start) == q.subrange(0, i - start).push(q[i - start]));
            match &self.queue[i] {
                Message::ModelToolRequest { id, name, arguments } => {
                    self.saw_tool_call = true;
                    assert(q[i - start] == MessageView::ModelToolRequest {
                        id: id@,
                        name: name@,
                        arguments: arguments@,
                    });
                    proof {
                        lemma_first_request(q, i - start);
                    }
                    assert(self.pending() == q.subrange(i + 1 - start, q.len() as int));
                    return AgentAction::RunTool {
                        id: id.clone(),
                        name: name.clone(),
                        arguments: arguments.clone(),
                    };
                },
                _ => {},
            }
        }
        proof {
            lemma_first_request(q, q.len() as int);
        }
        assert(q.subrange(0, q.len() as int) == q);
        assert(self.pending().len() == 0);
        if self.saw_tool_call {
            self.saw_tool_call = false;
            AgentAction::CallModel
        } else {
            AgentAction::Finish
        }
    }

    /// Takes the model's answer `response` into the turn: its messages join
    /// `history` up to and with the first tool request, which is to be run.
    /// Without a tool request the whole answer joins the history and the turn
    /// is over.
    pub fn on_model_response(&mut self, history: &mut Vec<Message>, response: Vec<Message>) -> (a:
        AgentAction)
        requires
            old(self).pending().len() == 0,
            !old(self).asked_for_tool(),
        ensures
            advance_spec(
                messages_view(response@),
                messages_view(old(history)@),
                false,
                final(self).pending(),
                messages_view(final(history)@),
                final(self).asked_for_tool(),
                a,
            ),
            a is CallModel ==> false,
            a is Finish ==> final(self).pending().len() == 0 && !final(self).asked_for_tool(),
    {
        self.next = 0;
        self.queue = response;
        assert(messages_view(self.queue@).subrange(0, self.queue@.len() as int) == messages_view(
            response@,
        ));
        self.advance(history)
    }

    /// Takes the response of the tool run last into the history, right after
    /// its request, and goes on through the model's answer: the next tool
    /// request is to be run; when none is left the model is called again.
    pub fn on_tool_result(&mut self, history: &mut Vec<Message>, result: Message) -> (a:
        AgentAction)
        requires
            old(self).asked_for_tool(),
        ensures
            advance_spec(
                old(self).pending(),
                messages_view(old(history)@).push(result@),
                true,
                final(self).pending(),
                messages_view(final(history)@),
                final(self).asked_for_tool(),
                a,
            ),
            a is Finish ==> false,
    {
        proof {
            use_type_invariant(&*self);
        }
        let ghost h = messages_view(history@);
        history.push(result);
        assert(messages_view(history@) == h.push(result@));
        self.advance(history)
    }
}

// ---------------------------------------------------------------------------
// Gating tool calls
// ---------------------------------------------------------------------------

/// The mode the policy gives a call of the tool `name`: `target` is the lookup
/// target or write path read from its arguments (absent when they could not
/// be read), `inside_base` whether that path lies inside the workspace.
/// Unreadable arguments and unknown tools are asked about.
pub open spec fn call_mode_spec(
    p: Policy,
    name: Seq<char>,
    target: Option<Seq<char>>,
    inside_base: bool,
) -> PolicyMode {
    match kind_of(name) {
        ToolKind::Lookup => match target {
            Some(t) => lookup_mode(p, t, inside_base),
            None => PolicyMode::Ask,
        },
        ToolKind::Write => match target {
            Some(_) => write_mode(p, inside_base),
            None => PolicyMode::Ask,
        },
        ToolKind::Bash => p.bash,
        ToolKind::Unknown => PolicyMode::Ask,
    }
}

/// The mode `policy` gives a call of the tool `name`.
pub fn call_mode(policy: &Policy, name: &str, target: Option<&str>, inside_base: bool) -> (m:
    PolicyMode)
    ensures
        m == call_mode_spec(*policy, name@, crate::tools::lookup::opt_view(target), inside_base),
{
    match tool_kind(name) {
        ToolKind::Lookup => match target {
            Some(t) => policy.check_lookup(t, inside_base),
            None => PolicyMode::Ask,
        },
        ToolKind::Write => match target {
            Some(_) => policy.check_write(inside_base),
            None => PolicyMode::Ask,
        },
        ToolKind::Bash => policy.check_bash(),
        ToolKind::Unknown => PolicyMode::Ask,
    }
}

/// What becomes of a call once its mode is known.
#[derive(Debug, Clone, Copy, PartialEq, Eq, Structural)]
pub enum Gate {
    /// Run it.
    Run,
    /// Ask the user, and run it only on approval.
    AskUser,
    /// Refuse it by policy.
    Refuse,
}

/// What becomes of a call of `name` in `mode`: refused under `No`, run under
/// `Yes`; under `Ask`, `bash` runs (its terminal holds its own approval) and
/// any other tool is asked about.
pub open spec fn gate_spec(mode: PolicyMode, name: Seq<char>) -> Gate {
    match mode {
        PolicyMode::No => Gate::Refuse,
        PolicyMode::Yes => Gate::Run,
        PolicyMode::Ask => if name == "bash"@ {
            Gate::Run
        } else {
            Gate::AskUser
        },
    }
}

/// What becomes of a call of `name` in `mode`.
pub fn gate(mode: PolicyMode, name: &str) -> (g: Gate)
    ensures
        g == gate_spec(mode, name@),
{
    match mode {
        PolicyMode::No => Gate::Refuse,
        PolicyMode::Yes => Gate::Run,
        PolicyMode::Ask => {
            let n = chars_of(name);
            if crate::text::is_exactly(&n, "bash") {
                Gate::Run
            } else {
                Gate::AskUser
            }
        },
    }
}

/// The answer to a call refused by policy.
pub open spec fn policy_denial() -> Seq<char> {
    "Permission Denied: execution blocked by safety policy."@
}

/// The answer to a call the user refused.
pub open spec fn user_denial() -> Seq<char> {
    "Permission Denied by User"@
}

/// The error response to the call `id` of `name`: refused by policy when
/// `by_policy`, by the user otherwise.
pub fn denial_response(id: &str, name: &str, by_policy: bool) -> (m: Message)
    ensures
        m@ == (MessageView::ToolResponse {
            id: id@,
            name: name@,
            content: if by_policy {
                policy_denial()
            } else {
                user_denial()
            },
            is_error: true,
        }),
{
    let content = if by_policy {
        "Permission Denied: execution blocked by safety policy.".to_owned()
    } else {
        "Permission Denied by User".to_owned()
    };
    Message::ToolResponse { id: id.to_owned(), name: name.to_owned(), content, is_error: true }
}

/// The question put to the user before a call of `name` with `arguments`.
pub open spec fn approval_prompt_spec(name: Seq<char>, arguments: Seq<char>) -> Seq<char> {
    "\n⚠️  [Agent wants to execute: "@ + name + " ("@ + trim(arguments) + ")] Approve? (y/N): "@
}

/// The question put to the user before a call of `name` with `arguments`.
pub fn approval_prompt(name: &str, arguments: &str) -> (r: String)
    ensures
        r@ == approval_prompt_spec(name@, arguments@),
{
    let a = chars_of(arguments);
    let t = trim_chars(&a);
    let mut v: Vec<char> = Vec::new();
    push_str(&mut v, "\n⚠️  [Agent wants to execute: ");
    push_str(&mut v, name);
    push_str(&mut v, " (");
    crate::text::push_chars(&mut v, &t);
    push_str(&mut v, ")] Approve? (y/N): ");
    string_from_chars(v.as_slice())
}

/// An answer approves when, trimmed and lower-cased, it is `y` or `yes`.
pub open spec fn approves(answer_lower: Seq<char>) -> bool {
    answer_lower == "y"@ || answer_lower == "yes"@
}

/// Whether the lower-cased, trimmed answer `answer_lower` approves.
pub fn is_affirmative(answer_lower: &str) -> (r: bool)
    ensures
        r == approves(answer_lower@),
{
    let a = chars_of(answer_lower);
    crate::text::is_exactly(&a, "y") || crate::text::is_exactly(&a, "yes")
}

/// Whether the user's answer `input` approves the call. An all-ASCII answer
/// is lower-cased letter by letter, so `Y` and `YES` approve as `y` and `yes`
/// do.
pub fn is_approval_answer(input: &str) -> (r: bool)
    ensures
        r == approves(lowercase(trim(input@))),
        all_ascii(trim(input@)) ==> r == approves(ascii_lowercase(trim(input@))),
{
    let a = chars_of(input);
    let t = trim_chars(&a);
    let ts = string_from_chars(t.as_slice());
    let l = to_lowercase(ts.as_str());
    is_affirmative(l.as_str())
}

/// The first five lines of a tool's output, shown to the user.
pub open spec fn preview_spec(content: Seq<char>) -> Seq<char> {
    let ls = lines(content);
    join(ls.subrange(0, if ls.len() < 5 { ls.len() as int } else { 5 }), "\n"@)
}

/// The first five lines of `content`.
pub fn output_preview(content: &str) -> (r: String)
    ensures
        r@ == preview_spec(content@),
{
    let c = chars_of(content);
    let ls = split_lines(&c);
    let end = if ls.len() < 5 {
        ls.len()
    } else {
        5
    };
    let j = crate::text::join_lines(&ls, 0, end, "\n");
    string_from_chars(j.as_slice())
}

/// The default executor: gates each call by its policy and asks on stdin
/// under `Ask` (bash excepted).
#[derive(Debug, Clone, Copy)]
pub struct DefaultExecutor {
    pub policy: Policy,
}

impl DefaultExecutor {
    /// An executor that enforces `policy`.
    pub fn new(policy: Policy) -> (e: DefaultExecutor)
        ensures
            e.policy == policy,
    {
        DefaultExecutor { policy }
    }

    /// What becomes of a call of `name`; `target` and `inside_base` as for
    /// `call_mode`.
    pub fn gate_call(&self, name: &str, target: Option<&str>, inside_base: bool) -> (g: Gate)
        ensures
            g == gate_spec(
                call_mode_spec(
                    self.policy,
                    name@,
                    crate::tools::lookup::opt_view(target),
                    inside_base,
                ),
                name@,
            ),
    {
        let m = call_mode(&self.policy, name, target, inside_base);
        gate(m, name)
    }
}

} // verus!
