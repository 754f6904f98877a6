//! The conversion between the message history and the chat entries an engine
//! takes, and back from what an engine answers.

use vstd::prelude::*;
use crate::{Message, MessageView, messages_view};
use crate::text::{chars_of, push_str, string_from_chars};

verus! {

broadcast use vstd::string::group_string_axioms;

/// A tool call as the engine sees it.
#[derive(Debug, Clone)]
pub struct ToolCallPart {
    pub id: String,
    pub name: String,
    pub arguments: String,
}

/// The text of a tool call.
pub struct CallView {
    pub id: Seq<char>,
    pub name: Seq<char>,
    pub arguments: Seq<char>,
}

impl View for ToolCallPart {
    type V = CallView;

    open spec fn view(&self) -> CallView {
        CallView { id: self.id@, name: self.name@, arguments: self.arguments@ }
    }
}

/// One message of a chat request, in the engine's terms.
#[derive(Debug)]
pub enum ChatEntry {
    System(String),
    User(String),
    Assistant(String),
    /// One assistant message that carries parallel tool calls.
    ToolCalls(Vec<ToolCallPart>),
    ToolResult { call_id: String, content: String },
}

/// The text of a chat entry.
pub enum ChatEntryView {
    System(Seq<char>),
    User(Seq<char>),
    Assistant(Seq<char>),
    ToolCalls(Seq<CallView>),
    ToolResult { call_id: Seq<char>, content: Seq<char> },
}

impl View for ChatEntry {
    type V = ChatEntryView;

    open spec fn view(&self) -> ChatEntryView {
        match self {
            ChatEntry::System(t) => ChatEntryView::System(t@),
            ChatEntry::User(t) => ChatEntryView::User(t@),
            ChatEntry::Assistant(t) => ChatEntryView::Assistant(t@),
            ChatEntry::ToolCalls(v) => ChatEntryView::ToolCalls(v@.map_values(|c: ToolCallPart| c@)),
            ChatEntry::ToolResult { call_id, content } => ChatEntryView::ToolResult {
                call_id: call_id@,
                content: content@,
            },
        }
    }
}

/// The views of a sequence of chat entries.
pub open spec fn entries_view(es: Seq<ChatEntry>) -> Seq<ChatEntryView> {
    es.map_values(|e: ChatEntry| e@)
}

/// The entries that commit the pending tool calls: one entry holding them
/// all, or none when there are none.
pub open spec fn flush(pending: Seq<CallView>) -> Seq<ChatEntryView> {
    if pending.len() > 0 {
        seq![ChatEntryView::ToolCalls(pending)]
    } else {
        Seq::empty()
    }
}

/// The entry for a message that is not a tool request.
pub open spec fn single_entry(m: MessageView) -> ChatEntryView {
    match m {
        MessageView::System(t) => ChatEntryView::System(t),
        MessageView::User(t) => ChatEntryView::User(t),
        MessageView::ModelText(t) => ChatEntryView::Assistant(t),
        MessageView::ToolResponse { id, content, .. } => ChatEntryView::ToolResult {
            call_id: id,
            content,
        },
        MessageView::Error(t) => ChatEntryView::Assistant("Error: "@ + t),
        MessageView::ModelToolRequest { id, .. } => ChatEntryView::Assistant(id),
    }
}

/// The entries for `ms`, with `pending` tool calls not yet committed: runs of
/// consecutive tool requests become one entry, every other message one entry.
pub open spec fn entries_from(ms: Seq<MessageView>, pending: Seq<CallView>) -> Seq<
    ChatEntryView,
>
    decreases ms.len(),
{
    if ms.len() == 0 {
        flush(pending)
    } else {
        match ms[0] {
            MessageView::ModelToolRequest { id, name, arguments } => entries_from(
                ms.drop_first(),
                pending.push(CallView { id, name, arguments }),
            ),
            _ => flush(pending) + seq![single_entry(ms[0])] + entries_from(
                ms.drop_first(),
                Seq::empty(),
            ),
        }
    }
}

/// The chat entries for the history `ms`.
pub open spec fn chat_entries(ms: Seq<MessageView>) -> Seq<ChatEntryView> {
    entries_from(ms, Seq::empty())
}

/// No tool-call entry in `es` is empty, and no two stand in a row.
pub open spec fn calls_grouped(es: Seq<ChatEntryView>) -> bool {
    &&& forall|i: int|
        0 <= i < es.len() - 1 ==> !(#[trigger] es[i] is ToolCalls && es[i + 1] is ToolCalls)
    &&& forall|i: int|
        0 <= i < es.len() ==> (#[trigger] es[i] matches ChatEntryView::ToolCalls(cs) ==> cs.len()
            > 0)
}

proof fn lemma_entries_grouped(ms: Seq<MessageView>, pending: Seq<CallView>)
    ensures
        calls_grouped(entries_from(ms, pending)),
    decreases ms.len(),
{
    if ms.len() > 0 {
        match ms[0] {
            MessageView::ModelToolRequest { id, name, arguments } => {
                lemma_entries_grouped(ms.drop_first(), pending.push(CallView { id, name, arguments }));
            },
            _ => {
                lemma_entries_grouped(ms.drop_first(), Seq::empty());
                let f = flush(pending);
                let one = seq![single_entry(ms[0])];
                let r = entries_from(ms.drop_first(), Seq::empty());
                let e = f + one + r;
                assert(!(single_entry(ms[0]) is ToolCalls));
                assert(e == entries_from(ms, pending));
                assert forall|i: int| 0 <= i < e.len() - 1 implies !(#[trigger] e[i] is ToolCalls
                    && e[i + 1] is ToolCalls) by {
                    if i < f.len() {
                        assert(e[i + 1] == single_entry(ms[0]));
                    } else if i == f.len() {
                        assert(e[i] == single_entry(ms[0]));
                    } else {
                        assert(e[i] == r[i - f.len() - 1]);
                        assert(e[i + 1] == r[i - f.len()]);
                    }
                }
                assert forall|i: int| 0 <= i < e.len() implies (#[trigger] e[i] matches ChatEntryView::ToolCalls(
                    cs,
                ) ==> cs.len() > 0) by {
                    if i < f.len() {
                    } else if i == f.len() {
                        assert(e[i] == single_entry(ms[0]));
                    } else {
                        assert(e[i] == r[i - f.len() - 1]);
                    }
                }
            },
        }
    }
}

/// Parallel tool calls travel together: the chat entries of any history hold
/// no empty tool-call entry and never two tool-call entries in a row.
pub proof fn law_tool_calls_grouped(ms: Seq<MessageView>)
    ensures
        calls_grouped(chat_entries(ms)),
{
    lemma_entries_grouped(ms, Seq::empty());
}

/// A history without tool requests becomes one chat entry per message, in
/// order, each keeping its role: a system message stays a system entry, a
/// user message a user entry, the model's text an assistant entry, a tool
/// response the result of its call, and an error an assistant entry that
/// says so.
pub proof fn law_plain_history_keeps_roles(ms: Seq<MessageView>)
    requires
        forall|i: int| 0 <= i < ms.len() ==> !(ms[i] is ModelToolRequest),
    ensures
        chat_entries(ms).len() == ms.len(),
        forall|i: int|
            0 <= i < ms.len() ==> match #[trigger] ms[i] {
                MessageView::System(t) => chat_entries(ms)[i] == ChatEntryView::System(t),
                MessageView::User(t) => chat_entries(ms)[i] == ChatEntryView::User(t),
                MessageView::ModelText(t) => chat_entries(ms)[i] == ChatEntryView::Assistant(t),
                MessageView::ToolResponse { id, content, .. } => chat_entries(ms)[i]
                    == ChatEntryView::ToolResult { call_id: id, content },
                MessageView::Error(t) => chat_entries(ms)[i] == ChatEntryView::Assistant(
                    "Error: "@ + t,
                ),
                MessageView::ModelToolRequest { .. } => true,
            },
    decreases ms.len(),
{
    if ms.len() > 0 {
        let rest = ms.drop_first();
        assert forall|i: int| 0 <= i < rest.len() implies !(rest[i] is ModelToolRequest) by {
            assert(rest[i] == ms[i + 1]);
        }
        law_plain_history_keeps_roles(rest);
        let e = chat_entries(ms);
        assert(flush(Seq::<CallView>::empty()) =~= Seq::<ChatEntryView>::empty());
        assert(e =~= seq![single_entry(ms[0])] + chat_entries(rest));
        assert forall|i: int| 0 <= i < ms.len() implies match #[trigger] ms[i] {
            MessageView::System(t) => chat_entries(ms)[i] == ChatEntryView::System(t),
            MessageView::User(t) => chat_entries(ms)[i] == ChatEntryView::User(t),
            MessageView::ModelText(t) => chat_entries(ms)[i] == ChatEntryView::Assistant(t),
            MessageView::ToolResponse { id, content, .. } => chat_entries(ms)[i]
                == ChatEntryView::ToolResult { call_id: id, content },
            MessageView::Error(t) => chat_entries(ms)[i] == ChatEntryView::Assistant(
                "Error: "@ + t,
            ),
            MessageView::ModelToolRequest { .. } => true,
        } by {
            if i > 0 {
                assert(ms[i] == rest[i - 1]);
                assert(e[i] == chat_entries(rest)[i - 1]);
            }
        }
    }
}

/// The tool calls that the history `ms` requests, in order.
pub open spec fn requested_calls(ms: Seq<MessageView>) -> Seq<CallView>
    decreases ms.len(),
{
    if ms.len() == 0 {
        Seq::empty()
    } else {
        let rest = requested_calls(ms.drop_first());
        match ms[0] {
            MessageView::ModelToolRequest { id, name, arguments } => seq![
                CallView { id, name, arguments },
            ] + rest,
            _ => rest,
        }
    }
}

/// The tool calls that the entries `es` carry, in order.
pub open spec fn carried_calls(es: Seq<ChatEntryView>) -> Seq<CallView>
    decreases es.len(),
{
    if es.len() == 0 {
        Seq::empty()
    } else {
        carried_calls(es.drop_last()) + match es.last() {
            ChatEntryView::ToolCalls(cs) => cs,
            _ => Seq::empty(),
        }
    }
}

proof fn lemma_carried_calls_append(a: Seq<ChatEntryView>, b: Seq<ChatEntryView>)
    ensures
        carried_calls(a + b) == carried_calls(a) + carried_calls(b),
    decreases b.len(),
{
    if b.len() == 0 {
        assert(a + b == a);
    } else {
        lemma_carried_calls_append(a, b.drop_last());
        assert((a + b).drop_last() == a + b.drop_last());
        assert((a + b).last() == b.last());
    }
}

proof fn lemma_flush_carries(pending: Seq<CallView>)
    ensures
        carried_calls(flush(pending)) == pending,
{
    let fl = flush(pending);
    if pending.len() > 0 {
        assert(fl.drop_last() =~= Seq::<ChatEntryView>::empty());
        assert(fl.last() == ChatEntryView::ToolCalls(pending));
        assert(carried_calls(fl.drop_last()) == Seq::<CallView>::empty());
        assert(Seq::<CallView>::empty() + pending == pending);
    } else {
        assert(pending =~= Seq::<CallView>::empty());
    }
}

proof fn lemma_entries_carry_requests(ms: Seq<MessageView>, pending: Seq<CallView>)
    ensures
        carried_calls(entries_from(ms, pending)) == pending + requested_calls(ms),
    decreases ms.len(),
{
    if ms.len() == 0 {
        lemma_flush_carries(pending);
        assert(pending + Seq::<CallView>::empty() == pending);
    } else {
        let rest = ms.drop_first();
        match ms[0] {
            MessageView::ModelToolRequest { id, name, arguments } => {
                let c = CallView { id, name, arguments };
                lemma_entries_carry_requests(rest, pending.push(c));
                assert(pending.push(c) + requested_calls(rest) == pending + (seq![c]
                    + requested_calls(rest)));
            },
            _ => {
                lemma_entries_carry_requests(rest, Seq::empty());
                let f = flush(pending);
                let one = seq![single_entry(ms[0])];
                let r = entries_from(rest, Seq::empty());
                lemma_carried_calls_append(f + one, r);
                lemma_carried_calls_append(f, one);
                assert(!(single_entry(ms[0]) is ToolCalls));
                assert(carried_calls(one) == carried_calls(one.drop_last()) + Seq::<
                    CallView,
                >::empty());
                assert(one.drop_last().len() == 0);
                lemma_flush_carries(pending);
                assert(Seq::<CallView>::empty() + requested_calls(rest) == requested_calls(
                    rest,
                ));
            },
        }
    }
}

/// Grouping loses, duplicates and reorders no tool call: the calls the chat
/// entries carry are those the history requests, in the same order.
pub proof fn law_every_requested_call_is_sent_once(ms: Seq<MessageView>)
    ensures
        carried_calls(chat_entries(ms)) == requested_calls(ms),
{
    lemma_entries_carry_requests(ms, Seq::empty());
    assert(Seq::<CallView>::empty() + requested_calls(ms) == requested_calls(ms));
}

fn copy_call(id: &String, name: &String, arguments: &String) -> (c: ToolCallPart)
    ensures
        c@ == (CallView { id: id@, name: name@, arguments: arguments@ }),
{
    ToolCallPart { id: id.clone(), name: name.clone(), arguments: arguments.clone() }
}

fn entry_for(m: &Message) -> (e: ChatEntry)
    requires
        !(m@ is ModelToolRequest),
    ensures
        e@ == single_entry(m@),
{
    match m {
        Message::System(t) => ChatEntry::System(t.clone()),
        Message::User(t) => ChatEntry::User(t.clone()),
        Message::ModelText(t) => ChatEntry::Assistant(t.clone()),
        Message::ToolResponse { id, content, .. } => ChatEntry::ToolResult {
            call_id: id.clone(),
            content: content.clone(),
        },
        Message::Error(t) => {
            let mut v: Vec<char> = Vec::new();
            push_str(&mut v, "Error: ");
            push_str(&mut v, t.as_str());
            ChatEntry::Assistant(string_from_chars(v.as_slice()))
        },
        Message::ModelToolRequest { id, .. } => ChatEntry::Assistant(id.clone()),
    }
}

/// The chat entries for `messages`: consecutive tool requests are grouped into
/// one assistant entry with parallel calls; every other message maps to one
/// entry of its own, an error becoming an assistant entry prefixed `Error: `.
pub fn to_chat_entries(messages: &[Message]) -> (r: Vec<ChatEntry>)
    ensures
        entries_view(r@) == chat_entries(messages_view(messages@)),
{
    let ghost ms = messages_view(messages@);
    let mut out: Vec<ChatEntry> = Vec::new();
    let mut pending: Vec<ToolCallPart> = Vec::new();
    let mut i: usize = 0;
    let n = messages.len();
    assert(ms.subrange(0, n as int) == ms);
    assert(entries_view(out@) =~= Seq::<ChatEntryView>::empty());
    assert(pending@.map_values(|c: ToolCallPart| c@) =~= Seq::<CallView>::empty());
    while i < n
        invariant
            i <= n,
            n == messages@.len(),
            ms == messages_view(messages@),
            entries_view(out@) + entries_from(
                ms.subrange(i as int, n as int),
                pending@.map_values(|c: ToolCallPart| c@),
            ) == chat_entries(ms),
        decreases n - i,
    {
        let ghost rest = ms.subrange(i as int, n as int);
        let ghost pv = pending@.map_values(|c: ToolCallPart| c@);
        assert(rest[0] == messages@[i as int]@);
        assert(rest.drop_first() == ms.subrange(i + 1, n as int));
        match &messages[i] {
            Message::ModelToolRequest { id, name, arguments } => {
                let c = copy_call(id, name, arguments);
                pending.push(c);
                assert(pending@.map_values(|c: ToolCallPart| c@) == pv.push(c@));
            },
            m => {
                let ghost old_out = entries_view(out@);
                if pending.len() > 0 {
                    let calls = pending;
                    pending = Vec::new();
                    out.push(ChatEntry::ToolCalls(calls));
                    assert(entries_view(out@) == old_out + flush(pv));
                } else {
                    assert(flush(pv) == Seq::<ChatEntryView>::empty());
                    assert(old_out + flush(pv) == old_out);
                }
                let ghost mid = entries_view(out@);
                let e = entry_for(m);
                out.push(e);
                assert(entries_view(out@) == mid.push(single_entry(rest[0])));
                assert(pending@.map_values(|c: ToolCallPart| c@) == Seq::<CallView>::empty());
                assert(old_out + (flush(pv) + seq![single_entry(rest[0])] + entries_from(
                    rest.drop_first(),
                    Seq::empty(),
                )) == entries_view(out@) + entries_from(rest.drop_first(), Seq::empty()));
            },
        }
        i += 1;
    }
    let ghost pv = pending@.map_values(|c: ToolCallPart| c@);
    let ghost old_out = entries_view(out@);
    assert(ms.subrange(n as int, n as int).len() == 0);
    if pending.len() > 0 {
        out.push(ChatEntry::ToolCalls(pending));
        assert(entries_view(out@) == old_out + flush(pv));
    } else {
        assert(old_out + flush(pv) == old_out);
    }
    out
}

// ---------------------------------------------------------------------------
// Back from an engine's answer
// ---------------------------------------------------------------------------

/// One part of the content an engine answers with.
#[derive(Debug)]
pub enum ContentPiece {
    Text(String),
    ToolCall(ToolCallPart),
    /// A part the history does not keep (reasoning, binary data, ...).
    Other,
}

/// The text of a content part.
pub enum PieceView {
    Text(Seq<char>),
    ToolCall(CallView),
    Other,
}

impl View for ContentPiece {
    type V = PieceView;

    open spec fn view(&self) -> PieceView {
        match self {
            ContentPiece::Text(t) => PieceView::Text(t@),
            ContentPiece::ToolCall(c) => PieceView::ToolCall(c@),
            ContentPiece::Other => PieceView::Other,
        }
    }
}

/// The text parts of `ps`, concatenated in order.
pub open spec fn content_text(ps: Seq<PieceView>) -> Seq<char>
    decreases ps.len(),
{
    if ps.len() == 0 {
        Seq::empty()
    } else {
        content_text(ps.drop_last()) + match ps.last() {
            PieceView::Text(t) => t,
            _ => Seq::empty(),
        }
    }
}

/// The tool calls of `ps`, in order.
pub open spec fn content_calls(ps: Seq<PieceView>) -> Seq<CallView>
    decreases ps.len(),
{
    if ps.len() == 0 {
        Seq::empty()
    } else {
        content_calls(ps.drop_last()) + match ps.last() {
            PieceView::ToolCall(c) => seq![c],
            _ => Seq::empty(),
        }
    }
}

/// The history entry for a tool call.
pub open spec fn request_of(c: CallView) -> MessageView {
    MessageView::ModelToolRequest { id: c.id, name: c.name, arguments: c.arguments }
}

/// The messages for an answer: its whole text as one model message (when
/// there is any text), then one tool request per tool call, in order.
pub open spec fn messages_from_content(ps: Seq<PieceView>) -> Seq<MessageView> {
    let text = content_text(ps);
    let first = if text.len() > 0 {
        seq![MessageView::ModelText(text)]
    } else {
        Seq::empty()
    };
    first + content_calls(ps).map_values(|c: CallView| request_of(c))
}

/// The history messages for the answer `parts`.
pub fn from_content(parts: Vec<ContentPiece>) -> (r: Vec<Message>)
    ensures
        messages_view(r@) == messages_from_content(parts@.map_values(|p: ContentPiece| p@)),
{
    let ghost ps = parts@.map_values(|p: ContentPiece| p@);
    let mut text: Vec<char> = Vec::new();
    let mut calls: Vec<Message> = Vec::new();
    let mut i: usize = 0;
    while i < parts.len()
        invariant
            i <= parts.len(),
            ps == parts@.map_values(|p: ContentPiece| p@),
            text@ == content_text(ps.take(i as int)),
            messages_view(calls@) == content_calls(ps.take(i as int)).map_values(
                |c: CallView| request_of(c),
            ),
        decreases parts.len() - i,
    {
        assert(ps.take(i + 1).drop_last() == ps.take(i as int));
        assert(ps.take(i + 1).last() == parts@[i as int]@);
        let ghost old_calls = content_calls(ps.take(i as int));
        match &parts[i] {
            ContentPiece::Text(t) => {
                let tc = chars_of(t.as_str());
                crate::text::push_chars(&mut text, &tc);
                assert(content_calls(ps.take(i + 1)) == old_calls + Seq::<CallView>::empty());
                assert(old_calls + Seq::<CallView>::empty() == old_calls);
            },
            ContentPiece::ToolCall(c) => {
                let m = Message::ModelToolRequest {
                    id: c.id.clone(),
                    name: c.name.clone(),
                    arguments: c.arguments.clone(),
                };
                calls.push(m);
                assert(content_calls(ps.take(i + 1)) == old_calls.push(c@));
                assert(old_calls.push(c@).map_values(|c: CallView| request_of(c))
                    == old_calls.map_values(|c: CallView| request_of(c)).push(request_of(c@)));
                assert(content_text(ps.take(i + 1)) == content_text(ps.take(i as int))
                    + Seq::<char>::empty());
            },
            ContentPiece::Other => {
                assert(content_calls(ps.take(i + 1)) == old_calls + Seq::<CallView>::empty());
                assert(old_calls + Seq::<CallView>::empty() == old_calls);
                assert(content_text(ps.take(i + 1)) == content_text(ps.take(i as int))
                    + Seq::<char>::empty());
            },
        }
        i += 1;
    }
    assert(ps.take(parts.len() as int) == ps);
    let mut out: Vec<Message> = Vec::new();
    if text.len() > 0 {
        out.push(Message::ModelText(string_from_chars(text.as_slice())));
    }
    let ghost first = messages_view(out@);
    let ghost cv = messages_view(calls@);
    out.append(&mut calls);
    assert(messages_view(out@) =~= first + cv);
    out
}


// ---------------------------------------------------------------------------
// A streamed answer
// ---------------------------------------------------------------------------

/// An event of a streamed answer.
#[derive(Debug)]
pub enum StreamEvent {
    /// A piece of the answer's text.
    Text(String),
    /// A piece of the model's reasoning.
    Reasoning(String),
    /// The end of the stream, with the whole answer when it was captured.
    End(Option<Vec<ContentPiece>>),
    /// Anything else (start, heartbeat, tool-call deltas, ...).
    Other,
}

/// The answer gathered from a stream so far: the history messages of the
/// last captured end, none before one arrives.
pub struct StreamCollector {
    answer: Vec<Message>,
}

impl StreamCollector {
    /// The history messages gathered so far.
    pub closed spec fn answer(&self) -> Seq<MessageView> {
        messages_view(self.answer@)
    }

    /// A stream with nothing gathered yet.
    pub fn new() -> (c: StreamCollector)
        ensures
            c.answer().len() == 0,
    {
        StreamCollector { answer: Vec::new() }
    }

    /// Takes in one event; returns the text to show the user at once, if
    /// any: the pieces of text and of reasoning. A captured end replaces the
    /// answer with the messages of its content.
    pub fn absorb(&mut self, event: StreamEvent) -> (shown: Option<String>)
        ensures
            match event {
                StreamEvent::Text(t) => shown == Some(t) && final(self).answer() == old(
                    self,
                ).answer(),
                StreamEvent::Reasoning(t) => shown == Some(t) && final(self).answer() == old(
                    self,
                ).answer(),
                StreamEvent::End(Some(parts)) => shown is None && final(self).answer()
                    == messages_from_content(parts@.map_values(|p: ContentPiece| p@)),
                _ => shown is None && final(self).answer() == old(self).answer(),
            },
    {
        match event {
            StreamEvent::Text(t) => Some(t),
            StreamEvent::Reasoning(t) => Some(t),
            StreamEvent::End(Some(parts)) => {
                self.answer = from_content(parts);
                None
            },
            _ => None,
        }
    }

    /// The answer gathered.
    pub fn finish(self) -> (r: Vec<Message>)
        ensures
            messages_view(r@) == self.answer(),
    {
        self.answer
    }
}

} // verus!
