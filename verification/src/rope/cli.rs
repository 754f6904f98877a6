//! The Rope command line: its arguments, and the choices made from them and
//! from the configuration before an agent turn starts.

use vstd::prelude::*;
use crate::Message;
use crate::MessageView;
use crate::text::{
    chars_of, dec, lowercase, lowercase_chars, push_dec, push_str, replace_all, replace_chars,
    string_from_chars, texts,
};
use crate::config::{ends_with, has_suffix};

verus! {

broadcast use vstd::string::group_string_axioms;

/// The arguments of the command line.
#[derive(Debug, Clone)]
pub struct CliArgs {
    /// Configuration files named with `-c`/`--config`, in order.
    pub config_paths: Vec<String>,
    /// System prompt files named with `-s`/`--system`, in order.
    pub system_paths: Vec<String>,
    /// `-h`/`--help` was given.
    pub help: bool,
    /// `-l`/`--log` was given.
    pub enable_logging: bool,
    /// The session file named by the last `-i`/`--interactive`.
    pub interactive_file: Option<String>,
    /// `--no-tmux`/`--notmux` was given.
    pub no_tmux: bool,
    /// The other arguments, which make up the prompt.
    pub positional: Vec<String>,
}

/// The arguments of the command line, as texts.
pub struct CliView {
    pub config_paths: Seq<Seq<char>>,
    pub system_paths: Seq<Seq<char>>,
    pub help: bool,
    pub enable_logging: bool,
    pub interactive_file: Option<Seq<char>>,
    pub no_tmux: bool,
    pub positional: Seq<Seq<char>>,
}

impl View for CliArgs {
    type V = CliView;

    open spec fn view(&self) -> CliView {
        CliView {
            config_paths: texts(self.config_paths@),
            system_paths: texts(self.system_paths@),
            help: self.help,
            enable_logging: self.enable_logging,
            interactive_file: match self.interactive_file {
                Some(f) => Some(f@),
                None => None,
            },
            no_tmux: self.no_tmux,
            positional: texts(self.positional@),
        }
    }
}

/// No argument seen yet.
pub open spec fn no_args() -> CliView {
    CliView {
        config_paths: Seq::empty(),
        system_paths: Seq::empty(),
        help: false,
        enable_logging: false,
        interactive_file: None,
        no_tmux: false,
        positional: Seq::empty(),
    }
}

/// The arguments `args` from position `i` on, read into `acc`; `None` when
/// `-i`/`--interactive` ends the line without its file. `-c` and `-s` at the
/// end of the line, without their file, are ignored.
pub open spec fn parse_from(args: Seq<Seq<char>>, i: int, acc: CliView) -> Option<CliView>
    decreases args.len() - i,
{
    if i < 0 || i >= args.len() {
        Some(acc)
    } else {
        let a = args[i];
        let has_value = i + 1 < args.len();
        if a == "-c"@ || a == "--config"@ {
            if has_value {
                parse_from(
                    args,
                    i + 2,
                    CliView { config_paths: acc.config_paths.push(args[i + 1]), ..acc },
                )
            } else {
                parse_from(args, i + 1, acc)
            }
        } else if a == "-s"@ || a == "--system"@ {
            if has_value {
                parse_from(
                    args,
                    i + 2,
                    CliView { system_paths: acc.system_paths.push(args[i + 1]), ..acc },
                )
            } else {
                parse_from(args, i + 1, acc)
            }
        } else if a == "-h"@ || a == "--help"@ {
            parse_from(args, i + 1, CliView { help: true, ..acc })
        } else if a == "-l"@ || a == "--log"@ {
            parse_from(args, i + 1, CliView { enable_logging: true, ..acc })
        } else if a == "-i"@ || a == "--interactive"@ {
            if has_value {
                parse_from(args, i + 2, CliView { interactive_file: Some(args[i + 1]), ..acc })
            } else {
                None
            }
        } else if a == "--no-tmux"@ || a == "--notmux"@ {
            parse_from(args, i + 1, CliView { no_tmux: true, ..acc })
        } else {
            parse_from(args, i + 1, CliView { positional: acc.positional.push(a), ..acc })
        }
    }
}

/// The complaint about `-i`/`--interactive` without its file.
pub open spec fn missing_session_file_text() -> Seq<char> {
    "Error: -i/--interactive requires a file path argument."@
}

fn is_one_of(a: &Vec<char>, short: &str, long: &str) -> (r: bool)
    ensures
        r == (a@ == short@ || a@ == long@),
{
    crate::text::is_exactly(a, short) || crate::text::is_exactly(a, long)
}

/// Reads the command-line arguments `args` (the program name left out).
pub fn parse_args(args: &Vec<String>) -> (r: Result<CliArgs, String>)
    ensures
        match r {
            Ok(c) => parse_from(texts(args@), 0, no_args()) == Some(c@),
            Err(e) => parse_from(texts(args@), 0, no_args()) is None && e@
                == missing_session_file_text(),
        },
{
    let ghost t = texts(args@);
    let mut out = CliArgs {
        config_paths: Vec::new(),
        system_paths: Vec::new(),
        help: false,
        enable_logging: false,
        interactive_file: None,
        no_tmux: false,
        positional: Vec::new(),
    };
    assert(out@ == no_args()) by {
        assert(texts(out.config_paths@) =~= Seq::<Seq<char>>::empty());
        assert(texts(out.system_paths@) =~= Seq::<Seq<char>>::empty());
        assert(texts(out.positional@) =~= Seq::<Seq<char>>::empty());
    }
    let n = args.len();
    let mut i: usize = 0;
    while i < n
        invariant
            i <= n,
            n == args@.len(),
            t == texts(args@),
            parse_from(t, 0, no_args()) == parse_from(t, i as int, out@),
        decreases n - i,
    {
        let a = chars_of(args[i].as_str());
        let has_value = i + 1 < n;
        assert(t[i as int] == a@);
        if is_one_of(&a, "-c", "--config") {
            if has_value {
                let ghost before = out@;
                out.config_paths.push(args[i + 1].clone());
                assert(out@.config_paths == before.config_paths.push(t[i + 1]));
                assert(out@ == CliView { config_paths: before.config_paths.push(t[i + 1]), ..before });
                i = i + 2;
            } else {
                i = i + 1;
            }
        } else if is_one_of(&a, "-s", "--system") {
            if has_value {
                let ghost before = out@;
                out.system_paths.push(args[i + 1].clone());
                assert(out@.system_paths == before.system_paths.push(t[i + 1]));
                assert(out@ == CliView { system_paths: before.system_paths.push(t[i + 1]), ..before });
                i = i + 2;
            } else {
                i = i + 1;
            }
        } else if is_one_of(&a, "-h", "--help") {
            out.help = true;
            i = i + 1;
        } else if is_one_of(&a, "-l", "--log") {
            out.enable_logging = true;
            i = i + 1;
        } else if is_one_of(&a, "-i", "--interactive") {
            if has_value {
                out.interactive_file = Some(args[i + 1].clone());
                i = i + 2;
            } else {
                return Err("Error: -i/--interactive requires a file path argument.".to_string());
            }
        } else if is_one_of(&a, "--no-tmux", "--notmux") {
            out.no_tmux = true;
            i = i + 1;
        } else {
            let ghost before = out@;
            out.positional.push(args[i].clone());
            assert(out@.positional == before.positional.push(t[i as int]));
            assert(out@ == CliView { positional: before.positional.push(a@), ..before });
            i = i + 1;
        }
    }
    Ok(out)
}

/// The prompt: the positional arguments joined by single spaces.
pub fn prompt_of(positional: &Vec<String>) -> (r: String)
    ensures
        r@ == crate::text::join(texts(positional@), " "@),
{
    let mut v: Vec<char> = Vec::new();
    let mut i: usize = 0;
    while i < positional.len()
        invariant
            i <= positional@.len(),
            v@ == crate::text::join(texts(positional@).take(i as int), " "@),
        decreases positional.len() - i,
    {
        let ghost before = v@;
        if i > 0 {
            push_str(&mut v, " ");
        }
        push_str(&mut v, positional[i].as_str());
        proof {
            let tk = texts(positional@).take(i + 1);
            assert(tk.drop_last() == texts(positional@).take(i as int));
            assert(tk.last() == positional@[i as int]@);
            if i == 0 {
                assert(tk.len() == 1);
                assert(v@ == tk[0]);
            }
        }
        i += 1;
    }
    assert(texts(positional@).take(positional@.len() as int) == texts(positional@));
    string_from_chars(v.as_slice())
}


// ---------------------------------------------------------------------------
// Choices from the configuration
// ---------------------------------------------------------------------------

/// The environment variable the API key goes into, by the configured adapter
/// (`openai` when none is configured), matched exactly.
pub open spec fn api_key_variable_text(adapter: Option<Seq<char>>) -> Seq<char> {
    let a = match adapter {
        Some(a) => a,
        None => "openai"@,
    };
    if a == "gemini"@ {
        "GEMINI_API_KEY"@
    } else if a == "anthropic"@ {
        "ANTHROPIC_API_KEY"@
    } else {
        "OPENAI_API_KEY"@
    }
}

/// The environment variable the API key goes into.
pub fn api_key_variable(adapter: Option<&str>) -> (r: String)
    ensures
        r@ == api_key_variable_text(
            match adapter {
                Some(a) => Some(a@),
                None => None,
            },
        ),
{
    proof {
        reveal_strlit("openai");
    }
    let a = match adapter {
        Some(a) => chars_of(a),
        None => chars_of("openai"),
    };
    if crate::text::is_exactly(&a, "gemini") {
        "GEMINI_API_KEY".to_string()
    } else if crate::text::is_exactly(&a, "anthropic") {
        "ANTHROPIC_API_KEY".to_string()
    } else {
        "OPENAI_API_KEY".to_string()
    }
}

/// The engine adapters a configuration can name.
#[derive(Debug, Clone, Copy, PartialEq, Eq, Structural)]
pub enum Adapter {
    OpenAI,
    Gemini,
    Anthropic,
}

/// The adapter the configured name `name` selects, judged on its lower-case
/// form `name_lower`; `None` leaves the model's own adapter in place.
pub open spec fn adapter_of(name_lower: Seq<char>) -> Option<Adapter> {
    if name_lower == "openai"@ {
        Some(Adapter::OpenAI)
    } else if name_lower == "gemini"@ {
        Some(Adapter::Gemini)
    } else if name_lower == "anthropic"@ {
        Some(Adapter::Anthropic)
    } else {
        None
    }
}

/// The adapter the configured name `name` selects, in any letter case.
pub fn adapter_for(name: &str) -> (r: Option<Adapter>)
    ensures
        r == adapter_of(lowercase(name@)),
{
    let n = chars_of(name);
    let l = lowercase_chars(&n);
    if crate::text::is_exactly(&l, "openai") {
        Some(Adapter::OpenAI)
    } else if crate::text::is_exactly(&l, "gemini") {
        Some(Adapter::Gemini)
    } else if crate::text::is_exactly(&l, "anthropic") {
        Some(Adapter::Anthropic)
    } else {
        None
    }
}

/// The endpoint URL as the client is given it: with a trailing `/`.
pub open spec fn endpoint_text(endpoint: Seq<char>) -> Seq<char> {
    if has_suffix(endpoint, "/"@) {
        endpoint
    } else {
        endpoint + "/"@
    }
}

/// The endpoint URL as the client is given it.
pub fn endpoint_url(endpoint: &str) -> (r: String)
    ensures
        r@ == endpoint_text(endpoint@),
{
    let mut v = chars_of(endpoint);
    if !ends_with(&v, "/") {
        push_str(&mut v, "/");
    }
    string_from_chars(v.as_slice())
}

/// The model used when neither the configuration nor the environment names
/// one.
pub open spec fn fallback_model() -> Seq<char> {
    "gemini-1.5-flash"@
}

/// The model: the configured one, else the one the environment names
/// (`BONDAGE_MODEL`), else the fallback.
pub open spec fn model_text(configured: Option<Seq<char>>, from_env: Option<Seq<char>>) -> Seq<
    char,
> {
    match configured {
        Some(m) => m,
        None => match from_env {
            Some(m) => m,
            None => fallback_model(),
        },
    }
}

/// The model to invoke.
pub fn model_choice(configured: Option<&str>, from_env: Option<&str>) -> (r: String)
    ensures
        r@ == model_text(
            match configured {
                Some(m) => Some(m@),
                None => None,
            },
            match from_env {
                Some(m) => Some(m@),
                None => None,
            },
        ),
{
    match configured {
        Some(m) => m.to_string(),
        None => match from_env {
            Some(m) => m.to_string(),
            None => "gemini-1.5-flash".to_string(),
        },
    }
}

/// The system prompt used when none is named: that of file-sitter mode or
/// that of a one-off prompt.
pub open spec fn default_system_prompt_text(interactive: bool) -> Seq<char> {
    if interactive {
        "system-interactive.txt"@
    } else {
        "system-regular.txt"@
    }
}

/// The system prompt used when none is named.
pub fn default_system_prompt_name(interactive: bool) -> (r: String)
    ensures
        r@ == default_system_prompt_text(interactive),
{
    if interactive {
        "system-interactive.txt".to_string()
    } else {
        "system-regular.txt".to_string()
    }
}

/// The resource names tried for the system prompt `name`, in order: `name`,
/// then `name.txt` unless `name` ends in `.txt` (judged on `name_lower`, its
/// lower-case form).
pub open spec fn system_prompt_candidates(name: Seq<char>, name_lower: Seq<char>) -> Seq<
    Seq<char>,
> {
    if has_suffix(name_lower, ".txt"@) {
        seq![name]
    } else {
        seq![name, name + ".txt"@]
    }
}

/// The resource names tried for the system prompt `name`, in order.
pub fn system_prompt_names(name: &str) -> (r: Vec<String>)
    ensures
        texts(r@) == system_prompt_candidates(name@, lowercase(name@)),
{
    let n = chars_of(name);
    let l = lowercase_chars(&n);
    let mut out: Vec<String> = Vec::new();
    out.push(name.to_string());
    if !ends_with(&l, ".txt") {
        let mut t = chars_of(name);
        push_str(&mut t, ".txt");
        out.push(string_from_chars(t.as_slice()));
        assert(texts(out@) == seq![name@, name@ + ".txt"@]);
    } else {
        assert(texts(out@) == seq![name@]);
    }
    out
}

/// The system prompt `acc` with the prompt `content` added after it, a blank
/// line between them.
pub open spec fn appended_prompt(acc: Seq<char>, content: Seq<char>) -> Seq<char> {
    if acc.len() == 0 {
        content
    } else {
        acc + "\n\n"@ + content
    }
}

/// Adds the system prompt `content` after those already in `acc`.
pub fn append_system_prompt(acc: &mut String, content: &str)
    ensures
        final(acc)@ == appended_prompt(old(acc)@, content@),
{
    let mut v = chars_of(acc.as_str());
    if v.len() > 0 {
        push_str(&mut v, "\n\n");
    }
    push_str(&mut v, content);
    *acc = string_from_chars(v.as_slice());
}

/// The complaint that the system prompt `name` was found nowhere.
pub open spec fn missing_system_prompt_text(name: Seq<char>) -> Seq<char> {
    "System prompt resource '"@ + name + "' not found in CWD or ~/.config/rope/"@
}

/// The complaint that the system prompt `name` was found nowhere.
pub fn missing_system_prompt(name: &str) -> (r: String)
    ensures
        r@ == missing_system_prompt_text(name@),
{
    let mut v: Vec<char> = Vec::new();
    push_str(&mut v, "System prompt resource '");
    push_str(&mut v, name);
    push_str(&mut v, "' not found in CWD or ~/.config/rope/");
    string_from_chars(v.as_slice())
}

/// The complaint that the system prompt at `path` could not be read.
pub open spec fn unreadable_system_prompt_text(path: Seq<char>) -> Seq<char> {
    "Failed to read system prompt file at '"@ + path + "'"@
}

/// The complaint that the system prompt at `path` could not be read.
pub fn unreadable_system_prompt(path: &str) -> (r: String)
    ensures
        r@ == unreadable_system_prompt_text(path@),
{
    let mut v: Vec<char> = Vec::new();
    push_str(&mut v, "Failed to read system prompt file at '");
    push_str(&mut v, path);
    push_str(&mut v, "'");
    string_from_chars(v.as_slice())
}

/// The complaint that no configuration was found, where a template has been
/// written for the user.
pub open spec fn missing_config_text() -> Seq<char> {
    "Config file 'config.toml' was not found. A default configuration template has been created at ~/.config/rope/config.toml. Please configure it and rerun."@
}

/// The complaint that no configuration was found.
pub fn missing_config() -> (r: String)
    ensures
        r@ == missing_config_text(),
{
    "Config file 'config.toml' was not found. A default configuration template has been created at ~/.config/rope/config.toml. Please configure it and rerun.".to_string()
}

// ---------------------------------------------------------------------------
// Launch
// ---------------------------------------------------------------------------

/// Whether Rope relaunches itself inside a new tmux session: on a raw console
/// (no graphical display), outside tmux, unless `--no-tmux` was given.
pub open spec fn bootstraps_tmux(no_tmux: bool, is_gui: bool, in_tmux: bool) -> bool {
    !no_tmux && !is_gui && !in_tmux
}

/// Whether Rope relaunches itself inside a new tmux session.
pub fn should_bootstrap_tmux(no_tmux: bool, is_gui: bool, in_tmux: bool) -> (r: bool)
    ensures
        r == bootstraps_tmux(no_tmux, is_gui, in_tmux),
{
    !no_tmux && !is_gui && !in_tmux
}

/// The arguments of the `tmux` command that relaunches the program `exe`
/// with its arguments `args` in a new session named after the process `pid`.
pub open spec fn bootstrap_args_text(pid: u32, exe: Seq<char>, args: Seq<Seq<char>>) -> Seq<
    Seq<char>,
> {
    seq!["new-session"@, "-s"@, "rope-main-"@ + dec(pid as nat), exe] + args
}

/// The arguments of the `tmux` command that relaunches the program.
pub fn tmux_bootstrap_args(pid: u32, exe: &str, args: &Vec<String>) -> (r: Vec<String>)
    ensures
        texts(r@) == bootstrap_args_text(pid, exe@, texts(args@)),
{
    let mut name: Vec<char> = Vec::new();
    push_str(&mut name, "rope-main-");
    push_dec(&mut name, pid as u128);
    let mut out: Vec<String> = Vec::new();
    out.push("new-session".to_string());
    out.push("-s".to_string());
    out.push(string_from_chars(name.as_slice()));
    out.push(exe.to_string());
    let ghost head = texts(out@);
    assert(head == seq!["new-session"@, "-s"@, "rope-main-"@ + dec(pid as nat), exe@]);
    let mut i: usize = 0;
    while i < args.len()
        invariant
            i <= args@.len(),
            texts(out@) == head + texts(args@).take(i as int),
        decreases args.len() - i,
    {
        let ghost before = texts(out@);
        out.push(args[i].clone());
        assert(texts(out@) == before.push(args@[i as int]@));
        assert(texts(args@).take(i + 1) == texts(args@).take(i as int).push(args@[i as int]@));
        i += 1;
    }
    assert(texts(args@).take(args@.len() as int) == texts(args@));
    out
}

/// The history a one-off prompt starts from: the system prompt with the tool
/// listing put in for `{TOOLS}`, then the prompt.
pub fn prompt_history(template: &str, tools_block: &str, prompt: &str) -> (r: Vec<Message>)
    ensures
        r@.len() == 2,
        r@[0]@ == MessageView::System(replace_all(template@, "{TOOLS}"@, tools_block@)),
        r@[1]@ == MessageView::User(prompt@),
{
    proof {
        reveal_strlit("{TOOLS}");
    }
    let t = chars_of(template);
    let s = replace_chars(&t, "{TOOLS}", tools_block);
    let mut h: Vec<Message> = Vec::new();
    h.push(Message::System(string_from_chars(s.as_slice())));
    h.push(Message::User(prompt.to_string()));
    h
}

} // verus!
