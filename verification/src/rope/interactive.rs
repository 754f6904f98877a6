//! File-sitter mode: watch a session file and run an agent turn when a save
//! holds the `@rope` trigger.

use vstd::prelude::*;
use crate::Message;
use crate::text::{
    chars_of, find_from, is_whitespace, is_ws, occurs_at, push_str, replace_all, replace_chars,
    string_from_chars,
};

verus! {

broadcast use vstd::string::group_string_axioms;

/// `@rope` stands at position `i` of `c` as a word of its own: whitespace (or
/// the text's edge) on both sides.
pub open spec fn trigger_at(c: Seq<char>, i: int) -> bool {
    &&& occurs_at(c, "@rope"@, i)
    &&& (i == 0 || is_ws(c[i - 1]))
    &&& (i + 5 == c.len() || is_ws(c[i + 5]))
}

/// Whether `content` holds the `@rope` trigger as a word of its own.
pub fn has_rope_trigger(content: &str) -> (r: bool)
    ensures
        r == exists|i: int| trigger_at(content@, i),
{
    let c = chars_of(content);
    let t = chars_of("@rope");
    proof {
        reveal_strlit("@rope");
    }
    let mut start: usize = 0;
    while start <= c.len()
        invariant
            t@ == "@rope"@,
            t@.len() == 5,
            forall|j: int| 0 <= j < start ==> !trigger_at(c@, j),
            c@ == content@,
        decreases c.len() + 1 - start,
    {
        match find_from(&c, &t, start) {
            None => {
                assert forall|j: int| !trigger_at(c@, j) by {
                    if j >= start {
                        assert(!occurs_at(c@, t@, j));
                    }
                }
                return false;
            },
            Some(pos) => {
                let left_ok = pos == 0 || is_whitespace(c[pos - 1]);
                let right_ok = pos + 5 == c.len() || is_whitespace(c[pos + 5]);
                if left_ok && right_ok {
                    assert(trigger_at(c@, pos as int));
                    return true;
                }
                assert forall|j: int| 0 <= j < pos + 1 implies !trigger_at(c@, j) by {
                    if start <= j < pos {
                        assert(!occurs_at(c@, t@, j));
                    }
                }
                start = pos + 1;
            },
        }
    }
    assert forall|j: int| !trigger_at(c@, j) by {
        if j >= start {
            assert(!occurs_at(c@, t@, j));
        }
    }
    false
}


// ---------------------------------------------------------------------------
// Watching the session file
// ---------------------------------------------------------------------------

/// What the file-sitter remembers between polls: the modification time it
/// last saw (in nanoseconds since the Unix epoch) and the hash of the content
/// it last took in.
#[derive(Clone, Copy, Debug, PartialEq, Eq)]
pub struct Sitter {
    pub last_mtime: Option<u128>,
    pub last_hash: Option<u64>,
}

/// The state at launch: the epoch as the last time seen and no hash, so that
/// the content present at launch counts as new, and a trigger already in it
/// fires without a further save.
pub open spec fn sitter_start() -> Sitter {
    Sitter { last_mtime: Some(0), last_hash: None }
}

/// Whether a poll that sees the modification time `mtime` reads the content.
pub open spec fn reads_content(s: Sitter, mtime: u128) -> bool {
    match s.last_mtime {
        Some(t) => mtime > t,
        None => false,
    }
}

/// The state after a poll that sees `mtime`: a first sighting is only
/// recorded.
pub open spec fn after_mtime(s: Sitter, mtime: u128) -> Sitter {
    match s.last_mtime {
        Some(t) => s,
        None => Sitter { last_mtime: Some(mtime), last_hash: s.last_hash },
    }
}

/// Whether the content `content`, whose hash is `hash`, read after a newer
/// modification time, runs an agent turn: its hash must differ from that of
/// the content last taken in, and it must hold the trigger.
pub open spec fn runs_turn(s: Sitter, hash: u64, content: Seq<char>) -> bool {
    s.last_hash != Some(hash) && exists|i: int| trigger_at(content, i)
}

/// The state after reading content with hash `hash` at time `mtime`.
pub open spec fn after_content(s: Sitter, mtime: u128, hash: u64) -> Sitter {
    Sitter { last_mtime: Some(mtime), last_hash: Some(hash) }
}

/// The state after a turn, from what could be read of the file then.
pub open spec fn after_turn_spec(s: Sitter, mtime: Option<u128>, hash: Option<u64>) -> Sitter {
    Sitter {
        last_mtime: match mtime {
            Some(m) => Some(m),
            None => s.last_mtime,
        },
        last_hash: match hash {
            Some(h) => Some(h),
            None => s.last_hash,
        },
    }
}

/// The hash that `content_hash` gives for the text `s`.
pub uninterp spec fn hash_of(s: Seq<char>) -> u64;

/// A fast, non-cryptographic hash of a file's content, to tell a changed
/// save from an unchanged one: std's `BuildHasher::hash_one` on the default
/// builder of `DefaultHasher` (which always starts from the same state).
///
/// Trusted: the result depends on the text alone; nothing else is claimed
/// of it (in particular not that different texts hash differently).
#[verifier::external_body]
fn content_hash(content: &str) -> (h: u64)
    ensures
        h == hash_of(content@),
{
    std::hash::BuildHasher::hash_one(
        &std::hash::BuildHasherDefault::<std::collections::hash_map::DefaultHasher>::default(),
        content,
    )
}

/// The hash of an optional text.
pub open spec fn opt_hash(content: Option<&str>) -> Option<u64> {
    match content {
        Some(c) => Some(hash_of(c@)),
        None => None,
    }
}

impl Sitter {
    /// The state at launch.
    pub fn new() -> (s: Sitter)
        ensures
            s == sitter_start(),
    {
        Sitter { last_mtime: Some(0), last_hash: None }
    }

    /// A poll saw the modification time `mtime`; true when the content is to
    /// be read.
    pub fn on_mtime(&mut self, mtime: u128) -> (read: bool)
        ensures
            read == reads_content(*old(self), mtime),
            *final(self) == after_mtime(*old(self), mtime),
    {
        match self.last_mtime {
            None => {
                self.last_mtime = Some(mtime);
                false
            },
            Some(t) => mtime > t,
        }
    }

    /// The content read after the poll that saw `mtime`; true when an agent
    /// turn is to run on it.
    pub fn on_content(&mut self, mtime: u128, content: &str) -> (run: bool)
        ensures
            run == runs_turn(*old(self), hash_of(content@), content@),
            *final(self) == after_content(*old(self), mtime, hash_of(content@)),
    {
        let hash = content_hash(content);
        let unchanged = match self.last_hash {
            Some(h) => h == hash,
            None => false,
        };
        self.last_mtime = Some(mtime);
        self.last_hash = Some(hash);
        if unchanged {
            false
        } else {
            has_rope_trigger(content)
        }
    }

    /// After a turn: takes in the file as it is now, so that what the agent
    /// wrote does not count as a new save. Each of `mtime` and `content` is
    /// `None` when it could not be read.
    pub fn after_turn(&mut self, mtime: Option<u128>, content: Option<&str>)
        ensures
            *final(self) == after_turn_spec(*old(self), mtime, opt_hash(content)),
    {
        if let Some(m) = mtime {
            self.last_mtime = Some(m);
        }
        if let Some(c) = content {
            self.last_hash = Some(content_hash(c));
        }
    }
}

/// Content that was taken in never runs a turn again while it is unchanged,
/// however often the file is saved.
pub proof fn law_unchanged_content_never_reruns(s: Sitter, mtime: u128, content: Seq<char>)
    ensures
        !runs_turn(after_content(s, mtime, hash_of(content)), hash_of(content), content),
{
}

/// What the file holds after a turn, the agent's own writes included, does
/// not start another turn.
pub proof fn law_own_writes_do_not_trigger(s: Sitter, mtime: u128, content: Seq<char>)
    ensures
        !runs_turn(
            after_turn_spec(s, Some(mtime), Some(hash_of(content))),
            hash_of(content),
            content,
        ),
{
}

/// At launch, any modification time after the epoch gets the content read,
/// and a trigger already present starts a turn.
pub proof fn law_trigger_present_at_launch_fires(mtime: u128, hash: u64, content: Seq<char>)
    requires
        mtime > 0,
    ensures
        reads_content(sitter_start(), mtime),
        runs_turn(sitter_start(), hash, content) == exists|i: int| trigger_at(content, i),
{
}

/// A poll that sees no newer modification time reads nothing and changes
/// nothing.
pub proof fn law_stale_poll_is_idle(s: Sitter, mtime: u128)
    requires
        s.last_mtime matches Some(t) && mtime <= t,
    ensures
        !reads_content(s, mtime),
        after_mtime(s, mtime) == s,
{
}

// ---------------------------------------------------------------------------
// The messages of a session turn
// ---------------------------------------------------------------------------

/// The system instructions of a session turn: the template with the session
/// file's name, its content and the tool listing put in, in that order.
pub open spec fn session_instructions(
    template: Seq<char>,
    file_name: Seq<char>,
    content: Seq<char>,
    tools_block: Seq<char>,
) -> Seq<char> {
    replace_all(
        replace_all(
            replace_all(template, "{SESSION_FILE_NAME}"@, file_name),
            "{SESSION_FILE_CONTENT}"@,
            content,
        ),
        "{TOOLS}"@,
        tools_block,
    )
}

/// The user message of a session turn: the session file, quoted.
pub open spec fn session_request(file_name: Seq<char>, content: Seq<char>) -> Seq<char> {
    "Here is the content of the session file '"@ + file_name + "':\n---\n"@ + content
        + "\n---"@
}

/// The history a session turn starts from: the instructions, then the
/// session file as the user's message.
pub fn session_history(template: &str, file_name: &str, content: &str, tools_block: &str) -> (r:
    Vec<Message>)
    ensures
        r@.len() == 2,
        r@[0]@ == crate::MessageView::System(
            session_instructions(template@, file_name@, content@, tools_block@),
        ),
        r@[1]@ == crate::MessageView::User(session_request(file_name@, content@)),
{
    proof {
        reveal_strlit("{SESSION_FILE_NAME}");
        reveal_strlit("{SESSION_FILE_CONTENT}");
        reveal_strlit("{TOOLS}");
    }
    let t = chars_of(template);
    let a = replace_chars(&t, "{SESSION_FILE_NAME}", file_name);
    let b = replace_chars(&a, "{SESSION_FILE_CONTENT}", content);
    let c = replace_chars(&b, "{TOOLS}", tools_block);
    let mut u: Vec<char> = Vec::new();
    push_str(&mut u, "Here is the content of the session file '");
    push_str(&mut u, file_name);
    push_str(&mut u, "':\n---\n");
    push_str(&mut u, content);
    push_str(&mut u, "\n---");
    let mut h: Vec<Message> = Vec::new();
    h.push(Message::System(string_from_chars(c.as_slice())));
    h.push(Message::User(string_from_chars(u.as_slice())));
    h
}

} // verus!
