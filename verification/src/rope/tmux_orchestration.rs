//! The decisions of the tmux-backed `bash` tool: the session a command runs
//! in, when it is submitted or shown to the user, how the wait for it ends,
//! and what is answered.
//!
//! Under `Yes` the command is typed and submitted at once, headless. Under
//! any other mode it is typed but not submitted, and a terminal attached to
//! the session is popped for the user to press Enter in (or to close, which
//! cancels); with no terminal to pop, the user is asked inline. Without tmux
//! the command runs as a one-off process, after an inline question under
//! `Ask`.

use vstd::prelude::*;
use crate::policy::PolicyMode;
use crate::text::{
    chars_of, dec, lowercase, push_dec, push_str, string_from_chars, texts, to_lowercase, trim,
    trim_chars, words,
};
use crate::util::{truncate_text, truncated};

verus! {

broadcast use vstd::string::group_string_axioms;

/// The name of the tmux session that runs the commands of process `pid`.
pub open spec fn shell_session_text(pid: u32) -> Seq<char> {
    "rope-shell-"@ + dec(pid as nat)
}

/// The name of the tmux session that runs the commands of process `pid`.
pub fn shell_session_name(pid: u32) -> (r: String)
    ensures
        r@ == shell_session_text(pid),
{
    let mut v: Vec<char> = Vec::new();
    push_str(&mut v, "rope-shell-");
    push_dec(&mut v, pid as u128);
    string_from_chars(v.as_slice())
}

/// The program names that mean the pane is back at its shell prompt.
pub open spec fn is_shell_name(n: Seq<char>) -> bool {
    n == "bash"@ || n == "zsh"@ || n == "fish"@ || n == "sh"@ || n == "tmux"@
}

/// Whether the pane is idle, given what tmux reports as the pane's current
/// command: that report, trimmed and lower-cased, names a shell.
pub fn is_idle_report(current_command: &str) -> (r: bool)
    ensures
        r == is_shell_name(lowercase(trim(current_command@))),
{
    let c = chars_of(current_command);
    let t = trim_chars(&c);
    let ts = string_from_chars(t.as_slice());
    let l = to_lowercase(ts.as_str());
    let lc = chars_of(l.as_str());
    crate::text::is_exactly(&lc, "bash") || crate::text::is_exactly(&lc, "zsh")
        || crate::text::is_exactly(&lc, "fish") || crate::text::is_exactly(&lc, "sh")
        || crate::text::is_exactly(&lc, "tmux")
}

/// Whether a client is attached, given tmux's list of the session's
/// clients: the list is not blank.
pub fn lists_clients(listing: &str) -> (r: bool)
    ensures
        r == (trim(listing@).len() > 0),
{
    let c = chars_of(listing);
    let t = trim_chars(&c);
    t.len() > 0
}

/// The shell command that a split pane runs to attach to `session`.
pub open spec fn pane_attach_text(session: Seq<char>) -> Seq<char> {
    "env -u TMUX tmux attach-session -t "@ + session
}

/// The shell command that a split pane runs to attach to `session`.
pub fn pane_attach_command(session: &str) -> (r: String)
    ensures
        r@ == pane_attach_text(session@),
{
    let mut v: Vec<char> = Vec::new();
    push_str(&mut v, "env -u TMUX tmux attach-session -t ");
    push_str(&mut v, session);
    string_from_chars(v.as_slice())
}

/// The terminal emulator command when none is configured.
pub open spec fn default_terminal() -> Seq<char> {
    "alacritty -e"@
}

/// The program and arguments that pop a terminal window attached to
/// `session`: the words of the configured terminal command (or of the
/// default one), then `tmux attach-session -t session`.
pub open spec fn terminal_words(terminal: Option<Seq<char>>, session: Seq<char>) -> Seq<
    Seq<char>,
> {
    words(
        match terminal {
            Some(t) => t,
            None => default_terminal(),
        },
    ) + seq!["tmux"@, "attach-session"@, "-t"@, session]
}

/// The program and arguments that pop a terminal window attached to
/// `session`, `terminal` being the configured terminal command.
pub fn terminal_argv(terminal: Option<&str>, session: &str) -> (r: Vec<String>)
    ensures
        texts(r@) == terminal_words(
            match terminal {
                Some(t) => Some(t@),
                None => None,
            },
            session@,
        ),
{
    proof {
        reveal_strlit("alacritty -e");
    }
    let mut v = match terminal {
        Some(t) => crate::text::split_words(t),
        None => crate::text::split_words("alacritty -e"),
    };
    let ghost before = texts(v@);
    v.push("tmux".to_string());
    v.push("attach-session".to_string());
    v.push("-t".to_string());
    v.push(session.to_string());
    assert(texts(v@) == before + seq!["tmux"@, "attach-session"@, "-t"@, session@]);
    v
}

// ---------------------------------------------------------------------------
// The course of a command
// ---------------------------------------------------------------------------

/// How a command is run, by the policy mode of the `bash` call.
#[derive(Debug, Clone, Copy, PartialEq, Eq, Structural)]
pub struct BashPlan {
    /// Without tmux: ask the user inline before running the command.
    pub ask_before_direct_run: bool,
    /// Press Enter right after typing the command.
    pub submit_at_once: bool,
    /// Pop a terminal attached to the session for the user.
    pub pop_terminal: bool,
}

/// The plan for a `bash` call in `mode`.
pub open spec fn bash_plan_spec(mode: PolicyMode) -> BashPlan {
    BashPlan {
        ask_before_direct_run: mode == PolicyMode::Ask,
        submit_at_once: mode == PolicyMode::Yes,
        pop_terminal: mode != PolicyMode::Yes,
    }
}

/// The plan for a `bash` call in `mode`.
pub fn bash_plan(mode: PolicyMode) -> (p: BashPlan)
    ensures
        p == bash_plan_spec(mode),
{
    match mode {
        PolicyMode::Yes => BashPlan {
            ask_before_direct_run: false,
            submit_at_once: true,
            pop_terminal: false,
        },
        PolicyMode::No => BashPlan {
            ask_before_direct_run: false,
            submit_at_once: false,
            pop_terminal: true,
        },
        PolicyMode::Ask => BashPlan {
            ask_before_direct_run: true,
            submit_at_once: false,
            pop_terminal: true,
        },
    }
}

/// What the wait loop can see of the user's terminal.
#[derive(Debug, Clone, Copy, PartialEq, Eq, Structural)]
pub enum Presence {
    /// A popped window, and whether its process has exited.
    Window { exited: bool },
    /// A split pane, and whether a client is still attached to the session.
    Pane { attached: bool },
    /// Nothing was popped.
    Unwatched,
}

/// The polls in a row without an attached client after which a split pane
/// counts as closed.
pub const DETACHED_POLLS_TO_CANCEL: u32 = 3;

/// The wait for a command to be submitted and to finish.
#[derive(Debug, Clone, Copy, PartialEq, Eq, Structural)]
pub struct BashWait {
    /// The command has been submitted.
    pub submitted: bool,
    /// The pane's history size plus cursor row before submission.
    pub baseline: u128,
    /// Polls in a row that found no client attached (counted up to
    /// `DETACHED_POLLS_TO_CANCEL`).
    pub detached_polls: u32,
}

/// The position a pane's cursor state stands for: its history size plus its
/// cursor row.
pub open spec fn cursor_total(state: (u64, u64)) -> int {
    state.0 + state.1
}

/// The wait at its start: `submitted` when the command was submitted at once;
/// the baseline is the cursor state read after the terminal attached, zero
/// when none was read.
pub open spec fn wait_start(submitted: bool, baseline: Option<(u64, u64)>) -> BashWait {
    BashWait {
        submitted,
        baseline: match baseline {
            Some(s) => cursor_total(s) as u128,
            None => 0,
        },
        detached_polls: 0,
    }
}

/// Whether a poll that sees `p` cancels the command: a popped window that
/// exited, or a split pane that has had no client for three polls in a row.
pub open spec fn cancels(w: BashWait, p: Presence) -> bool {
    match p {
        Presence::Window { exited } => exited,
        Presence::Pane { attached } => !attached && w.detached_polls + 1 >= DETACHED_POLLS_TO_CANCEL,
        Presence::Unwatched => false,
    }
}

/// The wait after a poll that sees `p`.
pub open spec fn after_presence(w: BashWait, p: Presence) -> BashWait {
    match p {
        Presence::Pane { attached } => BashWait {
            detached_polls: if attached {
                0
            } else if w.detached_polls + 1 >= DETACHED_POLLS_TO_CANCEL {
                DETACHED_POLLS_TO_CANCEL
            } else {
                (w.detached_polls + 1) as u32
            },
            ..w
        },
        _ => w,
    }
}

/// The wait after reading the cursor state `state` (absent when it could not
/// be read): a command not yet submitted counts as submitted once the cursor
/// has moved past the baseline.
pub open spec fn after_cursor(w: BashWait, state: Option<(u64, u64)>) -> BashWait {
    match state {
        Some(s) => if !w.submitted && cursor_total(s) > w.baseline {
            BashWait { submitted: true, ..w }
        } else {
            w
        },
        None => w,
    }
}

impl BashWait {
    /// The wait at its start.
    pub fn new(submitted: bool, baseline: Option<(u64, u64)>) -> (w: BashWait)
        ensures
            w == wait_start(submitted, baseline),
    {
        let b: u128 = match baseline {
            Some((h, c)) => h as u128 + c as u128,
            None => 0,
        };
        BashWait { submitted, baseline: b, detached_polls: 0 }
    }

    /// A poll saw `p`; true when the command is cancelled.
    pub fn observe(&mut self, p: Presence) -> (cancel: bool)
        ensures
            cancel == cancels(*old(self), p),
            *final(self) == after_presence(*old(self), p),
    {
        match p {
            Presence::Window { exited } => exited,
            Presence::Pane { attached } => {
                if attached {
                    self.detached_polls = 0;
                    false
                } else if self.detached_polls >= DETACHED_POLLS_TO_CANCEL - 1 {
                    self.detached_polls = DETACHED_POLLS_TO_CANCEL;
                    true
                } else {
                    self.detached_polls = self.detached_polls + 1;
                    false
                }
            },
            Presence::Unwatched => false,
        }
    }

    /// Whether the cursor state is to be read: only while the command is not
    /// submitted.
    pub fn wants_cursor(&self) -> (r: bool)
        ensures
            r == !self.submitted,
    {
        !self.submitted
    }

    /// The cursor state was read (or could not be).
    pub fn observe_cursor(&mut self, state: Option<(u64, u64)>)
        ensures
            *final(self) == after_cursor(*old(self), state),
    {
        if let Some((h, c)) = state {
            if !self.submitted && h as u128 + c as u128 > self.baseline {
                self.submitted = true;
            }
        }
    }
}

/// A split pane left without a client for three polls in a row cancels the
/// command, whatever came before.
pub proof fn law_three_detached_polls_cancel(w: BashWait)
    ensures
        ({
            let d = Presence::Pane { attached: false };
            let w1 = after_presence(w, d);
            let w2 = after_presence(w1, d);
            cancels(w, d) || cancels(w1, d) || cancels(w2, d)
        }),
{
}

/// One poll with a client attached starts the count of detached polls over:
/// two detached polls after it do not cancel.
pub proof fn law_attached_poll_resets(w: BashWait)
    ensures
        ({
            let a = after_presence(w, Presence::Pane { attached: true });
            let d = Presence::Pane { attached: false };
            !cancels(a, d) && !cancels(after_presence(a, d), d)
        }),
{
}

/// A submitted command stays submitted, whatever is observed.
pub proof fn law_submission_is_kept(w: BashWait, p: Presence, state: Option<(u64, u64)>)
    requires
        w.submitted,
    ensures
        after_presence(w, p).submitted,
        after_cursor(w, state).submitted,
{
}

/// The output of a finished command, as answered: the pane's content cut to
/// its first 10 lines (at most 1200 characters) and last 100 lines (at most
/// 12000 characters).
pub open spec fn captured_output_text(content: Seq<char>) -> Seq<char> {
    truncated(content, 10, 100, 1200, 12000)
}

/// The output of a finished command, as answered.
pub fn captured_output(content: &str) -> (r: String)
    ensures
        r@ == captured_output_text(content@),
{
    truncate_text(content, 10, 100, 1200, 12000)
}

// ---------------------------------------------------------------------------
// Answers
// ---------------------------------------------------------------------------

/// The answer when the user declined to run the command.
pub open spec fn cancelled_by_user_text() -> Seq<char> {
    "Permission Denied: command execution cancelled by user."@
}

/// The answer when the user declined to run the command.
pub fn cancelled_by_user() -> (r: String)
    ensures
        r@ == cancelled_by_user_text(),
{
    "Permission Denied: command execution cancelled by user.".to_string()
}

/// The answer when the user closed the popped terminal.
pub open spec fn terminal_closed_text() -> Seq<char> {
    "Permission Denied: terminal window/split closed or cancelled by user."@
}

/// The answer when the user closed the popped terminal.
pub fn terminal_closed() -> (r: String)
    ensures
        r@ == terminal_closed_text(),
{
    "Permission Denied: terminal window/split closed or cancelled by user.".to_string()
}

/// The steps of a command's course that can fail.
#[derive(Debug, Clone, Copy, PartialEq, Eq, Structural)]
pub enum BashFailure {
    /// The call's arguments could not be read.
    Arguments,
    /// The tmux session could not be started.
    StartSession,
    /// The command could not be typed into the session.
    SendCommand,
    /// The command could not be submitted at once.
    AutoSubmit,
    /// The configured terminal could not be spawned.
    SpawnTerminal,
    /// The command could not be submitted after inline approval.
    Submit,
}

/// The answer when `step` failed with `detail`.
pub open spec fn failure_text(step: BashFailure, detail: Seq<char>) -> Seq<char> {
    match step {
        BashFailure::Arguments => "Failed to parse arguments: "@ + detail,
        BashFailure::StartSession => "Failed to start tmux session: "@ + detail,
        BashFailure::SendCommand => "Failed to send command to tmux: "@ + detail,
        BashFailure::AutoSubmit => "Failed to automatically execute command in tmux: "@ + detail,
        BashFailure::SpawnTerminal => "Error: Failed to spawn the configured terminal command: "@
            + detail
            + "\nPlease verify that the terminal emulator is installed and correctly configured in your config.toml."@,
        BashFailure::Submit => "Failed to execute command in tmux: "@ + detail,
    }
}

/// The answer when `step` failed with `detail`.
pub fn failure_message(step: BashFailure, detail: &str) -> (r: String)
    ensures
        r@ == failure_text(step, detail@),
{
    let mut v: Vec<char> = Vec::new();
    match step {
        BashFailure::Arguments => push_str(&mut v, "Failed to parse arguments: "),
        BashFailure::StartSession => push_str(&mut v, "Failed to start tmux session: "),
        BashFailure::SendCommand => push_str(&mut v, "Failed to send command to tmux: "),
        BashFailure::AutoSubmit => push_str(
            &mut v,
            "Failed to automatically execute command in tmux: ",
        ),
        BashFailure::SpawnTerminal => push_str(
            &mut v,
            "Error: Failed to spawn the configured terminal command: ",
        ),
        BashFailure::Submit => push_str(&mut v, "Failed to execute command in tmux: "),
    }
    push_str(&mut v, detail);
    if let BashFailure::SpawnTerminal = step {
        push_str(
            &mut v,
            "\nPlease verify that the terminal emulator is installed and correctly configured in your config.toml.",
        );
    }
    string_from_chars(v.as_slice())
}


// ---------------------------------------------------------------------------
// The whole course of a command
// ---------------------------------------------------------------------------

/// What the caller does in the tmux session of the course. None of these
/// ends the session: it stays for the next call of the same process, with
/// its shell state.
#[derive(Debug, Clone, Copy, PartialEq, Eq, Structural)]
pub enum TmuxStep {
    /// Find out whether the session exists; answer with `SessionExists`.
    CheckSession,
    /// Start the session, then let its shell settle for `START_SETTLE_MS`;
    /// answer with `Done`.
    StartSession,
    /// Send the session the keys of `clear_prompt_keys` (abort any partial
    /// input, print a separator), pause `CLEAR_SETTLE_MS`, then check up to
    /// `IDLE_CHECKS` times, `IDLE_CHECK_MS` apart, for its shell to be idle;
    /// answer with `Done`.
    ClearPrompt,
    /// Type the command into the session without pressing Enter; answer with
    /// `Done`.
    TypeCommand,
    /// Press Enter in the session; answer with `Done`.
    PressEnter,
    /// Pop a terminal attached to the session; answer with `Popped`.
    PopTerminal,
    /// Check up to `ATTACH_CHECKS` times, `ATTACH_CHECK_MS` apart, for a
    /// client to attach, pause `ATTACH_SETTLE_MS`, then read the pane's
    /// cursor state; answer with `Baseline`.
    AwaitAttach,
    /// Press Ctrl-C in the session; answer with `Done`.
    Interrupt,
    /// Wait `POLL_MS` and look at the popped terminal; answer with
    /// `Presence`.
    Poll,
    /// Read the pane's cursor state; answer with `Cursor`.
    ReadCursor,
    /// If the pane is idle, capture its content; answer with `Output`.
    ReadOutput,
    /// Press Ctrl-C in the session and close the popped terminal; answer
    /// with `Done`.
    CancelAndClose,
}

/// What the caller does next in the course of a `bash` call.
#[derive(Debug)]
pub enum BashAction {
    /// Find out whether tmux is installed; answer with `TmuxAvailable`.
    CheckTmux,
    /// Ask the user on the console whether to run the command; answer with
    /// `Approval`.
    AskInline,
    /// Run the command as a one-off process; answer with `DirectResult`.
    RunDirect,
    /// Perform `step` in the tmux session named `session`.
    Tmux { session: String, step: TmuxStep },
    /// Close the popped terminal (the session stays); answer with `Done`.
    CloseTerminal,
    /// The course is over: answer the call with `content`.
    Respond { content: String, is_error: bool },
}

/// The milliseconds a newly started session's shell is given to settle.
pub const START_SETTLE_MS: u64 = 500;

/// The milliseconds of the pause after the prompt is cleared.
pub const CLEAR_SETTLE_MS: u64 = 150;

/// The checks for an idle shell after the prompt is cleared.
pub const IDLE_CHECKS: u32 = 40;

/// The milliseconds between two checks for an idle shell.
pub const IDLE_CHECK_MS: u64 = 50;

/// The checks for a client attached to the session.
pub const ATTACH_CHECKS: u32 = 60;

/// The milliseconds between two checks for an attached client.
pub const ATTACH_CHECK_MS: u64 = 50;

/// The milliseconds of the pause after the wait for a client.
pub const ATTACH_SETTLE_MS: u64 = 50;

/// The milliseconds between two polls of the popped terminal.
pub const POLL_MS: u64 = 200;

/// Keys sent to the session.
#[derive(Debug)]
pub enum Keys {
    /// A key named as tmux names it (`C-c`, `C-m`).
    Control(String),
    /// Text typed as it stands.
    Literal(String),
}

/// The command that prints the separator between two commands' output.
pub open spec fn separator_command() -> Seq<char> {
    "echo \"\" && echo \"---\" && echo \"\""@
}

/// The keys that clear the session's prompt: Ctrl-C to abort any partial
/// input, the separator command typed, and Enter (`C-m`).
pub fn clear_prompt_keys() -> (r: Vec<Keys>)
    ensures
        r@.len() == 3,
        r@[0] matches Keys::Control(k) && k@ == "C-c"@,
        r@[1] matches Keys::Literal(t) && t@ == separator_command(),
        r@[2] matches Keys::Control(k) && k@ == "C-m"@,
{
    vec![
        Keys::Control("C-c".to_string()),
        Keys::Literal("echo \"\" && echo \"---\" && echo \"\"".to_string()),
        Keys::Control("C-m".to_string()),
    ]
}

/// What the caller hands back after performing an action.
#[derive(Debug)]
pub enum BashEvent {
    TmuxAvailable(bool),
    Approval(bool),
    /// The one-off run's report, or the text of its error.
    DirectResult(Result<String, String>),
    SessionExists(bool),
    /// The step succeeded, or failed with this detail.
    Done(Result<(), String>),
    /// Whether a terminal was popped, or the detail of the failure.
    Popped(Result<bool, String>),
    /// The cursor state read after attaching, if it could be read.
    Baseline(Option<(u64, u64)>),
    Presence(Presence),
    Cursor(Option<(u64, u64)>),
    /// The pane's content, when the pane was idle and it could be read.
    Output(Option<String>),
}

/// Where the course of a command stands: which event it waits for.
#[derive(Debug, Clone, Copy, PartialEq, Eq, Structural)]
pub enum BashStage {
    AwaitTmux,
    AwaitDirectApproval,
    AwaitDirect,
    AwaitSession,
    AwaitStart,
    AwaitClear,
    AwaitType,
    AwaitAutoSubmit,
    AwaitPop,
    AwaitBaseline,
    AwaitInlineApproval,
    AwaitSubmit,
    AwaitInterrupt,
    Polling,
    AwaitCursor,
    AwaitOutput,
    AwaitCancel,
    AwaitClose,
    Finished,
}

/// The event a stage waits for.
pub open spec fn expects(stage: BashStage, e: BashEvent) -> bool {
    match stage {
        BashStage::AwaitTmux => e is TmuxAvailable,
        BashStage::AwaitDirectApproval | BashStage::AwaitInlineApproval => e is Approval,
        BashStage::AwaitDirect => e is DirectResult,
        BashStage::AwaitSession => e is SessionExists,
        BashStage::AwaitPop => e is Popped,
        BashStage::AwaitBaseline => e is Baseline,
        BashStage::Polling => e is Presence,
        BashStage::AwaitCursor => e is Cursor,
        BashStage::AwaitOutput => e is Output,
        BashStage::Finished => false,
        _ => e is Done,
    }
}

/// `a` answers the call with `text`, as an error when `err`.
pub open spec fn responds(a: BashAction, text: Seq<char>, err: bool) -> bool {
    a matches BashAction::Respond { content, is_error } && content@ == text && is_error == err
}

/// `a` performs `step` in a tmux session.
pub open spec fn on_session(a: BashAction, step: TmuxStep) -> bool {
    a matches BashAction::Tmux { step: t, .. } && t == step
}

/// The course of one `bash` call.
pub struct BashCourse {
    session: String,
    stage: BashStage,
    plan: BashPlan,
    wait: BashWait,
    has_terminal: bool,
    captured: String,
}

impl BashCourse {
    /// The tmux session the course works in.
    pub closed spec fn session(&self) -> Seq<char> {
        self.session@
    }

    /// The event the course waits for.
    pub closed spec fn stage(&self) -> BashStage {
        self.stage
    }

    /// The plan of the call.
    pub closed spec fn plan(&self) -> BashPlan {
        self.plan
    }

    /// The wait for the command to be submitted and to finish.
    pub closed spec fn wait(&self) -> BashWait {
        self.wait
    }

    /// Whether a terminal was popped for the user.
    pub closed spec fn has_terminal(&self) -> bool {
        self.has_terminal
    }

    /// The answer captured from the pane, kept while the terminal closes.
    pub closed spec fn captured(&self) -> Seq<char> {
        self.captured@
    }

    /// The course of a call in `mode` made by process `pid`; it works in the
    /// session of that process, so that every call of the process reuses one
    /// shell, and starts by checking for tmux (`CheckTmux`).
    pub fn new(mode: PolicyMode, pid: u32) -> (c: BashCourse)
        ensures
            c.stage() == BashStage::AwaitTmux,
            c.plan() == bash_plan_spec(mode),
            c.session() == shell_session_text(pid),
    {
        BashCourse {
            session: shell_session_name(pid),
            stage: BashStage::AwaitTmux,
            plan: bash_plan(mode),
            wait: BashWait::new(false, None),
            has_terminal: false,
            captured: String::new(),
        }
    }

    /// The name of the session the course works in.
    pub fn session_name(&self) -> (r: String)
        ensures
            r@ == self.session(),
    {
        self.session.clone()
    }

    /// `step`, in the course's session.
    fn on(&self, step: TmuxStep) -> (a: BashAction)
        ensures
            a matches BashAction::Tmux { session, step: t } && session@ == self.session() && t
                == step,
    {
        BashAction::Tmux { session: self.session.clone(), step }
    }

    /// Takes in the result of the last action and gives the next.
    ///
    /// Without tmux the command runs as a one-off process, after an inline
    /// question when the plan asks for one. With tmux: the session is
    /// started (or its prompt cleared), the command typed; under the plan
    /// to submit at once Enter is pressed and the wait starts submitted.
    /// Otherwise a terminal is popped and, after the attach, the cursor
    /// state is the baseline; with no terminal popped the user is asked
    /// inline, and Enter is pressed on approval (Ctrl-C and a refusal
    /// otherwise). Each poll looks at the terminal first (a closed one
    /// cancels the command), then, while the command is not submitted, at
    /// the cursor, and once it is, at the pane's output, which ends the
    /// course (after the terminal is closed). A failed step ends the course
    /// with its failure message.
    pub fn next(&mut self, event: BashEvent) -> (a: BashAction)
        requires
            expects(old(self).stage(), event),
        ensures
            final(self).plan() == old(self).plan(),
            final(self).session() == old(self).session(),
            a matches BashAction::Tmux { session, .. } ==> session@ == old(self).session(),
            ({
                let s = *old(self);
                let f = *final(self);
                let plan = s.plan();
                match event {
                    BashEvent::TmuxAvailable(true) => f.stage() == BashStage::AwaitSession
                        && on_session(a, TmuxStep::CheckSession),
                    BashEvent::TmuxAvailable(false) => if plan.ask_before_direct_run {
                        f.stage() == BashStage::AwaitDirectApproval && a is AskInline
                    } else {
                        f.stage() == BashStage::AwaitDirect && a is RunDirect
                    },
                    BashEvent::Approval(yes) => if s.stage() == BashStage::AwaitDirectApproval {
                        if yes {
                            f.stage() == BashStage::AwaitDirect && a is RunDirect
                        } else {
                            f.stage() == BashStage::Finished && responds(
                                a,
                                cancelled_by_user_text(),
                                true,
                            )
                        }
                    } else {
                        if yes {
                            f.stage() == BashStage::AwaitSubmit && on_session(a, TmuxStep::PressEnter)
                        } else {
                            f.stage() == BashStage::AwaitInterrupt && on_session(a, TmuxStep::Interrupt)
                        }
                    },
                    BashEvent::DirectResult(Ok(c)) => f.stage() == BashStage::Finished && responds(
                        a,
                        c@,
                        false,
                    ),
                    BashEvent::DirectResult(Err(e)) => f.stage() == BashStage::Finished
                        && responds(a, e@, true),
                    BashEvent::SessionExists(true) => f.stage() == BashStage::AwaitClear
                        && on_session(a, TmuxStep::ClearPrompt),
                    BashEvent::SessionExists(false) => f.stage() == BashStage::AwaitStart
                        && on_session(a, TmuxStep::StartSession),
                    BashEvent::Done(r) => match s.stage() {
                        BashStage::AwaitStart => match r {
                            Ok(_) => f.stage() == BashStage::AwaitType && on_session(a, TmuxStep::TypeCommand),
                            Err(d) => f.stage() == BashStage::Finished && responds(
                                a,
                                failure_text(BashFailure::StartSession, d@),
                                true,
                            ),
                        },
                        BashStage::AwaitClear => f.stage() == BashStage::AwaitType
                            && on_session(a, TmuxStep::TypeCommand),
                        BashStage::AwaitType => match r {
                            Ok(_) => if plan.submit_at_once {
                                f.stage() == BashStage::AwaitAutoSubmit && on_session(a, TmuxStep::PressEnter)
                            } else {
                                f.stage() == BashStage::AwaitPop && on_session(a, TmuxStep::PopTerminal)
                            },
                            Err(d) => f.stage() == BashStage::Finished && responds(
                                a,
                                failure_text(BashFailure::SendCommand, d@),
                                true,
                            ),
                        },
                        BashStage::AwaitAutoSubmit => match r {
                            Ok(_) => f.stage() == BashStage::Polling && on_session(a, TmuxStep::Poll) && f.wait()
                                == wait_start(true, None) && !f.has_terminal(),
                            Err(d) => f.stage() == BashStage::Finished && responds(
                                a,
                                failure_text(BashFailure::AutoSubmit, d@),
                                true,
                            ),
                        },
                        BashStage::AwaitSubmit => match r {
                            Ok(_) => f.stage() == BashStage::Polling && on_session(a, TmuxStep::Poll) && f.wait()
                                == s.wait(),
                            Err(d) => f.stage() == BashStage::Finished && responds(
                                a,
                                failure_text(BashFailure::Submit, d@),
                                true,
                            ),
                        },
                        BashStage::AwaitInterrupt => f.stage() == BashStage::Finished
                            && responds(a, cancelled_by_user_text(), true),
                        BashStage::AwaitCancel => f.stage() == BashStage::Finished && responds(
                            a,
                            terminal_closed_text(),
                            true,
                        ),
                        _ => f.stage() == BashStage::Finished && responds(
                            a,
                            s.captured(),
                            false,
                        ),
                    },
                    BashEvent::Popped(Ok(h)) => f.stage() == BashStage::AwaitBaseline
                        && on_session(a, TmuxStep::AwaitAttach) && f.has_terminal() == h,
                    BashEvent::Popped(Err(d)) => f.stage() == BashStage::Finished && responds(
                        a,
                        failure_text(BashFailure::SpawnTerminal, d@),
                        true,
                    ),
                    BashEvent::Baseline(b) => {
                        let base = match b {
                            Some(x) => x,
                            None => (0u64, 0u64),
                        };
                        &&& f.wait() == wait_start(false, Some(base))
                        &&& f.has_terminal() == s.has_terminal()
                        &&& if s.has_terminal() {
                            f.stage() == BashStage::Polling && on_session(a, TmuxStep::Poll)
                        } else {
                            f.stage() == BashStage::AwaitInlineApproval && a is AskInline
                        }
                    },
                    BashEvent::Presence(p) => {
                        let w = after_presence(s.wait(), p);
                        &&& f.wait() == w
                        &&& f.has_terminal() == s.has_terminal()
                        &&& if cancels(s.wait(), p) {
                            f.stage() == BashStage::AwaitCancel && on_session(a, TmuxStep::CancelAndClose)
                        } else if !w.submitted {
                            f.stage() == BashStage::AwaitCursor && on_session(a, TmuxStep::ReadCursor)
                        } else {
                            f.stage() == BashStage::AwaitOutput && on_session(a, TmuxStep::ReadOutput)
                        }
                    },
                    BashEvent::Cursor(st) => {
                        let w = after_cursor(s.wait(), st);
                        &&& f.wait() == w
                        &&& f.has_terminal() == s.has_terminal()
                        &&& if w.submitted {
                            f.stage() == BashStage::AwaitOutput && on_session(a, TmuxStep::ReadOutput)
                        } else {
                            f.stage() == BashStage::Polling && on_session(a, TmuxStep::Poll)
                        }
                    },
                    BashEvent::Output(None) => f.stage() == BashStage::Polling && on_session(a, TmuxStep::Poll)
                        && f.wait() == s.wait() && f.has_terminal() == s.has_terminal(),
                    BashEvent::Output(Some(c)) => if s.has_terminal() {
                        f.stage() == BashStage::AwaitClose && a is CloseTerminal && f.captured()
                            == captured_output_text(c@)
                    } else {
                        f.stage() == BashStage::Finished && responds(
                            a,
                            captured_output_text(c@),
                            false,
                        )
                    },
                }
            }),
    {
        match event {
            BashEvent::TmuxAvailable(true) => {
                self.stage = BashStage::AwaitSession;
                self.on(TmuxStep::CheckSession)
            },
            BashEvent::TmuxAvailable(false) => {
                if self.plan.ask_before_direct_run {
                    self.stage = BashStage::AwaitDirectApproval;
                    BashAction::AskInline
                } else {
                    self.stage = BashStage::AwaitDirect;
                    BashAction::RunDirect
                }
            },
            BashEvent::Approval(yes) => {
                if self.stage == BashStage::AwaitDirectApproval {
                    if yes {
                        self.stage = BashStage::AwaitDirect;
                        BashAction::RunDirect
                    } else {
                        self.stage = BashStage::Finished;
                        BashAction::Respond { content: cancelled_by_user(), is_error: true }
                    }
                } else if yes {
                    self.stage = BashStage::AwaitSubmit;
                    self.on(TmuxStep::PressEnter)
                } else {
                    self.stage = BashStage::AwaitInterrupt;
                    self.on(TmuxStep::Interrupt)
                }
            },
            BashEvent::DirectResult(r) => {
                self.stage = BashStage::Finished;
                match r {
                    Ok(c) => BashAction::Respond { content: c, is_error: false },
                    Err(e) => BashAction::Respond { content: e, is_error: true },
                }
            },
            BashEvent::SessionExists(true) => {
                self.stage = BashStage::AwaitClear;
                self.on(TmuxStep::ClearPrompt)
            },
            BashEvent::SessionExists(false) => {
                self.stage = BashStage::AwaitStart;
                self.on(TmuxStep::StartSession)
            },
            BashEvent::Done(r) => self.on_done(r),
            BashEvent::Popped(Ok(h)) => {
                self.has_terminal = h;
                self.stage = BashStage::AwaitBaseline;
                self.on(TmuxStep::AwaitAttach)
            },
            BashEvent::Popped(Err(d)) => {
                self.stage = BashStage::Finished;
                BashAction::Respond {
                    content: failure_message(BashFailure::SpawnTerminal, d.as_str()),
                    is_error: true,
                }
            },
            BashEvent::Baseline(b) => {
                let base = match b {
                    Some(x) => x,
                    None => (0u64, 0u64),
                };
                self.wait = BashWait::new(false, Some(base));
                if self.has_terminal {
                    self.stage = BashStage::Polling;
                    self.on(TmuxStep::Poll)
                } else {
                    self.stage = BashStage::AwaitInlineApproval;
                    BashAction::AskInline
                }
            },
            BashEvent::Presence(p) => {
                let cancel = self.wait.observe(p);
                if cancel {
                    self.stage = BashStage::AwaitCancel;
                    self.on(TmuxStep::CancelAndClose)
                } else if !self.wait.submitted {
                    self.stage = BashStage::AwaitCursor;
                    self.on(TmuxStep::ReadCursor)
                } else {
                    self.stage = BashStage::AwaitOutput;
                    self.on(TmuxStep::ReadOutput)
                }
            },
            BashEvent::Cursor(st) => {
                self.wait.observe_cursor(st);
                if self.wait.submitted {
                    self.stage = BashStage::AwaitOutput;
                    self.on(TmuxStep::ReadOutput)
                } else {
                    self.stage = BashStage::Polling;
                    self.on(TmuxStep::Poll)
                }
            },
            BashEvent::Output(None) => {
                self.stage = BashStage::Polling;
                self.on(TmuxStep::Poll)
            },
            BashEvent::Output(Some(c)) => {
                let out = captured_output(c.as_str());
                if self.has_terminal {
                    self.captured = out;
                    self.stage = BashStage::AwaitClose;
                    BashAction::CloseTerminal
                } else {
                    self.stage = BashStage::Finished;
                    BashAction::Respond { content: out, is_error: false }
                }
            },
        }
    }

    fn on_done(&mut self, r: Result<(), String>) -> (a: BashAction)
        requires
            old(self).stage() != BashStage::AwaitTmux,
            old(self).stage() != BashStage::AwaitDirectApproval,
            old(self).stage() != BashStage::AwaitInlineApproval,
            old(self).stage() != BashStage::AwaitDirect,
            old(self).stage() != BashStage::AwaitSession,
            old(self).stage() != BashStage::AwaitPop,
            old(self).stage() != BashStage::AwaitBaseline,
            old(self).stage() != BashStage::Polling,
            old(self).stage() != BashStage::AwaitCursor,
            old(self).stage() != BashStage::AwaitOutput,
            old(self).stage() != BashStage::Finished,
        ensures
            final(self).plan() == old(self).plan(),
            final(self).session() == old(self).session(),
            a matches BashAction::Tmux { session, .. } ==> session@ == old(self).session(),
            ({
                let s = *old(self);
                let f = *final(self);
                match s.stage() {
                    BashStage::AwaitStart => match r {
                        Ok(_) => f.stage() == BashStage::AwaitType && on_session(a, TmuxStep::TypeCommand),
                        Err(d) => f.stage() == BashStage::Finished && responds(
                            a,
                            failure_text(BashFailure::StartSession, d@),
                            true,
                        ),
                    },
                    BashStage::AwaitClear => f.stage() == BashStage::AwaitType && on_session(a, TmuxStep::TypeCommand),
                    BashStage::AwaitType => match r {
                        Ok(_) => if s.plan().submit_at_once {
                            f.stage() == BashStage::AwaitAutoSubmit && on_session(a, TmuxStep::PressEnter)
                        } else {
                            f.stage() == BashStage::AwaitPop && on_session(a, TmuxStep::PopTerminal)
                        },
                        Err(d) => f.stage() == BashStage::Finished && responds(
                            a,
                            failure_text(BashFailure::SendCommand, d@),
                            true,
                        ),
                    },
                    BashStage::AwaitAutoSubmit => match r {
                        Ok(_) => f.stage() == BashStage::Polling && on_session(a, TmuxStep::Poll) && f.wait()
                            == wait_start(true, None) && !f.has_terminal(),
                        Err(d) => f.stage() == BashStage::Finished && responds(
                            a,
                            failure_text(BashFailure::AutoSubmit, d@),
                            true,
                        ),
                    },
                    BashStage::AwaitSubmit => match r {
                        Ok(_) => f.stage() == BashStage::Polling && on_session(a, TmuxStep::Poll) && f.wait()
                            == s.wait(),
                        Err(d) => f.stage() == BashStage::Finished && responds(
                            a,
                            failure_text(BashFailure::Submit, d@),
                            true,
                        ),
                    },
                    BashStage::AwaitInterrupt => f.stage() == BashStage::Finished && responds(
                        a,
                        cancelled_by_user_text(),
                        true,
                    ),
                    BashStage::AwaitCancel => f.stage() == BashStage::Finished && responds(
                        a,
                        terminal_closed_text(),
                        true,
                    ),
                    _ => f.stage() == BashStage::Finished && responds(a, s.captured(), false),
                }
            }),
    {
        match self.stage {
            BashStage::AwaitStart => match r {
                Ok(_) => {
                    self.stage = BashStage::AwaitType;
                    self.on(TmuxStep::TypeCommand)
                },
                Err(d) => {
                    self.stage = BashStage::Finished;
                    BashAction::Respond {
                        content: failure_message(BashFailure::StartSession, d.as_str()),
                        is_error: true,
                    }
                },
            },
            BashStage::AwaitClear => {
                self.stage = BashStage::AwaitType;
                self.on(TmuxStep::TypeCommand)
            },
            BashStage::AwaitType => match r {
                Ok(_) => {
                    if self.plan.submit_at_once {
                        self.stage = BashStage::AwaitAutoSubmit;
                        self.on(TmuxStep::PressEnter)
                    } else {
                        self.stage = BashStage::AwaitPop;
                        self.on(TmuxStep::PopTerminal)
                    }
                },
                Err(d) => {
                    self.stage = BashStage::Finished;
                    BashAction::Respond {
                        content: failure_message(BashFailure::SendCommand, d.as_str()),
                        is_error: true,
                    }
                },
            },
            BashStage::AwaitAutoSubmit => match r {
                Ok(_) => {
                    self.wait = BashWait::new(true, None);
                    self.has_terminal = false;
                    self.stage = BashStage::Polling;
                    self.on(TmuxStep::Poll)
                },
                Err(d) => {
                    self.stage = BashStage::Finished;
                    BashAction::Respond {
                        content: failure_message(BashFailure::AutoSubmit, d.as_str()),
                        is_error: true,
                    }
                },
            },
            BashStage::AwaitSubmit => match r {
                Ok(_) => {
                    self.stage = BashStage::Polling;
                    self.on(TmuxStep::Poll)
                },
                Err(d) => {
                    self.stage = BashStage::Finished;
                    BashAction::Respond {
                        content: failure_message(BashFailure::Submit, d.as_str()),
                        is_error: true,
                    }
                },
            },
            BashStage::AwaitInterrupt => {
                self.stage = BashStage::Finished;
                BashAction::Respond { content: cancelled_by_user(), is_error: true }
            },
            BashStage::AwaitCancel => {
                self.stage = BashStage::Finished;
                BashAction::Respond { content: terminal_closed(), is_error: true }
            },
            _ => {
                self.stage = BashStage::Finished;
                let mut out = String::new();
                std::mem::swap(&mut out, &mut self.captured);
                BashAction::Respond { content: out, is_error: false }
            },
        }
    }
}

/// Under a plan that submits at once no terminal is popped and the user is
/// never asked: once the command is typed, Enter is pressed and the wait
/// starts submitted.
pub proof fn law_auto_approved_commands_run_headless(mode: PolicyMode)
    requires
        mode == PolicyMode::Yes,
    ensures
        bash_plan_spec(mode).submit_at_once,
        !bash_plan_spec(mode).pop_terminal,
        !bash_plan_spec(mode).ask_before_direct_run,
        wait_start(true, None).submitted,
{
}

} // verus!
