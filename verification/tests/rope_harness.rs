use bondage::policy::{Policy, PolicyConfig, PolicyMode};
use bondage::kit::Gate;
use bondage::rope::cli::{
    adapter_for, api_key_variable, append_system_prompt, default_system_prompt_name,
    endpoint_url, missing_config, missing_system_prompt, model_choice, parse_args, prompt_history,
    prompt_of, should_bootstrap_tmux, system_prompt_names, tmux_bootstrap_args,
    unreadable_system_prompt, Adapter,
};
use bondage::rope::executor::RopeExecutor;
use bondage::rope::tmux_orchestration::{
    bash_plan, cancelled_by_user, captured_output, failure_message, is_idle_report,
    lists_clients, pane_attach_command, shell_session_name, terminal_argv, terminal_closed,
    clear_prompt_keys, BashAction, BashCourse, BashEvent, BashFailure, BashPlan, BashWait, Keys,
    Presence, TmuxStep, ATTACH_CHECKS, ATTACH_CHECK_MS, ATTACH_SETTLE_MS, CLEAR_SETTLE_MS,
    IDLE_CHECKS, IDLE_CHECK_MS, POLL_MS, START_SETTLE_MS,
};
use bondage::Message;

fn args(v: &[&str]) -> Vec<String> {
    v.iter().map(|s| s.to_string()).collect()
}

#[test]
fn parse_all_flags() {
    let a = parse_args(&args(&[
        "-c", "yolo", "--config", "work", "-s", "sys", "-l", "--notmux", "fix", "@a.txt", "-h",
    ]))
    .unwrap();
    assert_eq!(a.config_paths, args(&["yolo", "work"]));
    assert_eq!(a.system_paths, args(&["sys"]));
    assert!(a.enable_logging && a.no_tmux && a.help);
    assert_eq!(a.interactive_file, None);
    assert_eq!(a.positional, args(&["fix", "@a.txt"]));
    assert_eq!(prompt_of(&a.positional), "fix @a.txt");
}

#[test]
fn parse_interactive_and_missing_values() {
    let a = parse_args(&args(&["-i", "s.md", "--interactive", "t.md", "-c"])).unwrap();
    assert_eq!(a.interactive_file, Some("t.md".to_string()));
    assert!(a.config_paths.is_empty());
    let e = parse_args(&args(&["hello", "-i"])).unwrap_err();
    assert_eq!(e, "Error: -i/--interactive requires a file path argument.");
    let empty = parse_args(&Vec::new()).unwrap();
    assert!(empty.positional.is_empty() && !empty.help);
    assert_eq!(prompt_of(&empty.positional), "");
}

#[test]
fn engine_choices() {
    assert_eq!(api_key_variable(Some("gemini")), "GEMINI_API_KEY");
    assert_eq!(api_key_variable(Some("anthropic")), "ANTHROPIC_API_KEY");
    assert_eq!(api_key_variable(Some("Gemini")), "OPENAI_API_KEY");
    assert_eq!(api_key_variable(None), "OPENAI_API_KEY");
    assert_eq!(adapter_for("Gemini"), Some(Adapter::Gemini));
    assert_eq!(adapter_for("OPENAI"), Some(Adapter::OpenAI));
    assert_eq!(adapter_for("anthropic"), Some(Adapter::Anthropic));
    assert_eq!(adapter_for("ollama"), None);
    assert_eq!(endpoint_url("http://localhost:8080/v1"), "http://localhost:8080/v1/");
    assert_eq!(endpoint_url("http://h/"), "http://h/");
    assert_eq!(model_choice(Some("m"), Some("e")), "m");
    assert_eq!(model_choice(None, Some("e")), "e");
    assert_eq!(model_choice(None, None), "gemini-1.5-flash");
}

#[test]
fn system_prompt_choices() {
    assert_eq!(default_system_prompt_name(true), "system-interactive.txt");
    assert_eq!(default_system_prompt_name(false), "system-regular.txt");
    assert_eq!(system_prompt_names("coder"), args(&["coder", "coder.txt"]));
    assert_eq!(system_prompt_names("Coder.TXT"), args(&["Coder.TXT"]));
    let mut acc = String::new();
    append_system_prompt(&mut acc, "one");
    append_system_prompt(&mut acc, "two");
    assert_eq!(acc, "one\n\ntwo");
    assert_eq!(missing_system_prompt("x"), "System prompt resource 'x' not found in CWD or ~/.config/rope/");
    assert_eq!(unreadable_system_prompt("/p"), "Failed to read system prompt file at '/p'");
    assert!(missing_config().starts_with("Config file 'config.toml' was not found."));
}

#[test]
fn launch_choices() {
    assert!(should_bootstrap_tmux(false, false, false));
    assert!(!should_bootstrap_tmux(true, false, false));
    assert!(!should_bootstrap_tmux(false, true, false));
    assert!(!should_bootstrap_tmux(false, false, true));
    assert_eq!(
        tmux_bootstrap_args(42, "/bin/rope", &args(&["-c", "yolo"])),
        args(&["new-session", "-s", "rope-main-42", "/bin/rope", "-c", "yolo"])
    );
    let h = prompt_history("Use {TOOLS} wisely", "- bash: run", "hi");
    assert_eq!(h, vec![Message::System("Use - bash: run wisely".to_string()), Message::User("hi".to_string())]);
}

#[test]
fn session_file_writes_are_auto_approved() {
    let strict = Policy::from_config(&PolicyConfig {
        access_write_directory: Some(PolicyMode::No),
        access_write_fs: Some(PolicyMode::No),
        ..Default::default()
    });
    let e = RopeExecutor { terminal: None, session_file: Some("/w/session.md".to_string()), policy: strict };
    assert_eq!(e.call_mode("write", Some("session.md"), "/w", Some("/h"), true), PolicyMode::Yes);
    assert_eq!(e.call_mode("write", Some("./session.md"), "/w", Some("/h"), true), PolicyMode::Yes);
    assert_eq!(e.call_mode("write", Some("/w/session.md"), "/elsewhere", None, false), PolicyMode::Yes);
    assert_eq!(e.call_mode("write", Some("other.md"), "/w", Some("/h"), true), PolicyMode::No);
    assert_eq!(e.gate_call("write", Some("session.md"), "/w", None, true), Gate::Run);
    assert_eq!(e.gate_call("write", None, "/w", None, true), Gate::AskUser);
    assert_eq!(e.call_mode("lookup", Some("session.md"), "/w", None, true), PolicyMode::Yes);
    let one_off = RopeExecutor { terminal: None, session_file: None, policy: strict };
    assert_eq!(one_off.call_mode("write", Some("session.md"), "/w", None, true), PolicyMode::No);
    assert_eq!(one_off.gate_call("bash", None, "/w", None, true), Gate::Run);
}

#[test]
fn tmux_names_and_commands() {
    assert_eq!(shell_session_name(1234), "rope-shell-1234");
    assert_eq!(pane_attach_command("rope-shell-1"), "env -u TMUX tmux attach-session -t rope-shell-1");
    assert_eq!(
        terminal_argv(None, "s"),
        args(&["alacritty", "-e", "tmux", "attach-session", "-t", "s"])
    );
    assert_eq!(
        terminal_argv(Some("  gnome-terminal   -- "), "s"),
        args(&["gnome-terminal", "--", "tmux", "attach-session", "-t", "s"])
    );
    assert!(is_idle_report("bash\n"));
    assert!(is_idle_report(" ZSH "));
    assert!(is_idle_report("tmux"));
    assert!(!is_idle_report("vim"));
    assert!(!is_idle_report("bashful"));
    assert!(lists_clients("/dev/pts/3: rope-shell-1\n"));
    assert!(!lists_clients(" \n"));
}

#[test]
fn bash_plans_by_mode() {
    assert_eq!(
        bash_plan(PolicyMode::Yes),
        BashPlan { ask_before_direct_run: false, submit_at_once: true, pop_terminal: false }
    );
    assert_eq!(
        bash_plan(PolicyMode::Ask),
        BashPlan { ask_before_direct_run: true, submit_at_once: false, pop_terminal: true }
    );
    assert_eq!(
        bash_plan(PolicyMode::No),
        BashPlan { ask_before_direct_run: false, submit_at_once: false, pop_terminal: true }
    );
}

#[test]
fn wait_cancels_after_three_detached_polls() {
    let mut w = BashWait::new(false, Some((10, 5)));
    assert_eq!(w.baseline, 15);
    let d = Presence::Pane { attached: false };
    assert!(!w.observe(d));
    assert!(!w.observe(d));
    assert!(!w.observe(Presence::Pane { attached: true }));
    assert!(!w.observe(d));
    assert!(!w.observe(d));
    assert!(w.observe(d));
    assert!(w.observe(Presence::Window { exited: true }));
    assert!(!w.observe(Presence::Window { exited: false }));
    assert!(!w.observe(Presence::Unwatched));
}

#[test]
fn wait_detects_submission_from_cursor() {
    let mut w = BashWait::new(false, None);
    assert!(w.wants_cursor());
    w.observe_cursor(None);
    assert!(!w.submitted);
    let mut b = BashWait::new(false, Some((3, 4)));
    b.observe_cursor(Some((3, 4)));
    assert!(!b.submitted);
    b.observe_cursor(Some((3, 5)));
    assert!(b.submitted);
    assert!(!b.wants_cursor());
    b.observe_cursor(Some((0, 0)));
    assert!(b.submitted);
    let y = BashWait::new(true, None);
    assert!(y.submitted && !y.wants_cursor());
}

#[test]
fn bash_answers() {
    assert_eq!(cancelled_by_user(), "Permission Denied: command execution cancelled by user.");
    assert_eq!(terminal_closed(), "Permission Denied: terminal window/split closed or cancelled by user.");
    assert_eq!(failure_message(BashFailure::StartSession, "boom"), "Failed to start tmux session: boom");
    assert_eq!(failure_message(BashFailure::Arguments, "eof"), "Failed to parse arguments: eof");
    assert_eq!(
        failure_message(BashFailure::SpawnTerminal, "not found"),
        "Error: Failed to spawn the configured terminal command: not found\nPlease verify that the terminal emulator is installed and correctly configured in your config.toml."
    );
    let mut big = String::new();
    for i in 0..300 {
        big.push_str(&format!("l{}\n", i));
    }
    let out = captured_output(&big);
    assert!(out.starts_with("l0\n"));
    assert!(out.contains("lines and"));
    assert!(out.ends_with("l299\n"));
    assert_eq!(captured_output("$ ls\na b\n$ "), "$ ls\na b\n$ ");
}

fn respond(a: BashAction) -> (String, bool) {
    match a {
        BashAction::Respond { content, is_error } => (content, is_error),
        other => panic!("expected a response, got {:?}", other),
    }
}

#[test]
fn course_headless_under_yes() {
    let mut c = BashCourse::new(PolicyMode::Yes, 42);
    assert!(matches!(c.next(BashEvent::TmuxAvailable(true)), BashAction::Tmux { step: TmuxStep::CheckSession, .. }));
    assert!(matches!(c.next(BashEvent::SessionExists(false)), BashAction::Tmux { step: TmuxStep::StartSession, .. }));
    assert!(matches!(c.next(BashEvent::Done(Ok(()))), BashAction::Tmux { step: TmuxStep::TypeCommand, .. }));
    assert!(matches!(c.next(BashEvent::Done(Ok(()))), BashAction::Tmux { step: TmuxStep::PressEnter, .. }));
    assert!(matches!(c.next(BashEvent::Done(Ok(()))), BashAction::Tmux { step: TmuxStep::Poll, .. }));
    // Submitted already: the poll goes straight to the output.
    assert!(matches!(c.next(BashEvent::Presence(Presence::Unwatched)), BashAction::Tmux { step: TmuxStep::ReadOutput, .. }));
    assert!(matches!(c.next(BashEvent::Output(None)), BashAction::Tmux { step: TmuxStep::Poll, .. }));
    assert!(matches!(c.next(BashEvent::Presence(Presence::Unwatched)), BashAction::Tmux { step: TmuxStep::ReadOutput, .. }));
    assert_eq!(respond(c.next(BashEvent::Output(Some("$ ls\na\n".to_string())))), ("$ ls\na\n".to_string(), false));
}

#[test]
fn course_pops_a_terminal_under_ask_and_waits_for_enter() {
    let mut c = BashCourse::new(PolicyMode::Ask, 42);
    assert!(matches!(c.next(BashEvent::TmuxAvailable(true)), BashAction::Tmux { step: TmuxStep::CheckSession, .. }));
    assert!(matches!(c.next(BashEvent::SessionExists(true)), BashAction::Tmux { step: TmuxStep::ClearPrompt, .. }));
    assert!(matches!(c.next(BashEvent::Done(Ok(()))), BashAction::Tmux { step: TmuxStep::TypeCommand, .. }));
    assert!(matches!(c.next(BashEvent::Done(Ok(()))), BashAction::Tmux { step: TmuxStep::PopTerminal, .. }));
    assert!(matches!(c.next(BashEvent::Popped(Ok(true))), BashAction::Tmux { step: TmuxStep::AwaitAttach, .. }));
    assert!(matches!(c.next(BashEvent::Baseline(Some((10, 2)))), BashAction::Tmux { step: TmuxStep::Poll, .. }));
    let attached = Presence::Pane { attached: true };
    assert!(matches!(c.next(BashEvent::Presence(attached)), BashAction::Tmux { step: TmuxStep::ReadCursor, .. }));
    assert!(matches!(c.next(BashEvent::Cursor(Some((10, 2)))), BashAction::Tmux { step: TmuxStep::Poll, .. }));
    assert!(matches!(c.next(BashEvent::Presence(attached)), BashAction::Tmux { step: TmuxStep::ReadCursor, .. }));
    assert!(matches!(c.next(BashEvent::Cursor(Some((10, 3)))), BashAction::Tmux { step: TmuxStep::ReadOutput, .. }));
    assert!(matches!(c.next(BashEvent::Output(Some("out".to_string()))), BashAction::CloseTerminal));
    assert_eq!(respond(c.next(BashEvent::Done(Ok(())))), ("out".to_string(), false));
}

#[test]
fn course_cancels_when_the_terminal_closes() {
    let mut c = BashCourse::new(PolicyMode::Ask, 42);
    c.next(BashEvent::TmuxAvailable(true));
    c.next(BashEvent::SessionExists(true));
    c.next(BashEvent::Done(Ok(())));
    c.next(BashEvent::Done(Ok(())));
    c.next(BashEvent::Popped(Ok(true)));
    c.next(BashEvent::Baseline(None));
    assert!(matches!(c.next(BashEvent::Presence(Presence::Window { exited: true })), BashAction::Tmux { step: TmuxStep::CancelAndClose, .. }));
    assert_eq!(
        respond(c.next(BashEvent::Done(Ok(())))),
        ("Permission Denied: terminal window/split closed or cancelled by user.".to_string(), true)
    );
}

#[test]
fn course_falls_back_to_inline_approval_without_a_terminal() {
    let mut c = BashCourse::new(PolicyMode::Ask, 42);
    c.next(BashEvent::TmuxAvailable(true));
    c.next(BashEvent::SessionExists(false));
    c.next(BashEvent::Done(Ok(())));
    c.next(BashEvent::Done(Ok(())));
    assert!(matches!(c.next(BashEvent::Popped(Ok(false))), BashAction::Tmux { step: TmuxStep::AwaitAttach, .. }));
    assert!(matches!(c.next(BashEvent::Baseline(Some((0, 1)))), BashAction::AskInline));
    assert!(matches!(c.next(BashEvent::Approval(false)), BashAction::Tmux { step: TmuxStep::Interrupt, .. }));
    assert_eq!(
        respond(c.next(BashEvent::Done(Ok(())))),
        ("Permission Denied: command execution cancelled by user.".to_string(), true)
    );
    let mut d = BashCourse::new(PolicyMode::Ask, 42);
    d.next(BashEvent::TmuxAvailable(true));
    d.next(BashEvent::SessionExists(false));
    d.next(BashEvent::Done(Ok(())));
    d.next(BashEvent::Done(Ok(())));
    d.next(BashEvent::Popped(Ok(false)));
    d.next(BashEvent::Baseline(Some((0, 1))));
    assert!(matches!(d.next(BashEvent::Approval(true)), BashAction::Tmux { step: TmuxStep::PressEnter, .. }));
    assert!(matches!(d.next(BashEvent::Done(Ok(()))), BashAction::Tmux { step: TmuxStep::Poll, .. }));
    assert!(matches!(d.next(BashEvent::Presence(Presence::Unwatched)), BashAction::Tmux { step: TmuxStep::ReadCursor, .. }));
}

#[test]
fn course_without_tmux_runs_one_off() {
    let mut c = BashCourse::new(PolicyMode::Ask, 42);
    assert!(matches!(c.next(BashEvent::TmuxAvailable(false)), BashAction::AskInline));
    assert_eq!(
        respond(c.next(BashEvent::Approval(false))),
        ("Permission Denied: command execution cancelled by user.".to_string(), true)
    );
    let mut y = BashCourse::new(PolicyMode::Yes, 42);
    assert!(matches!(y.next(BashEvent::TmuxAvailable(false)), BashAction::RunDirect));
    assert_eq!(respond(y.next(BashEvent::DirectResult(Err("I/O Error: x".to_string())))), ("I/O Error: x".to_string(), true));
}

#[test]
fn course_reports_failed_steps() {
    let mut c = BashCourse::new(PolicyMode::Yes, 42);
    c.next(BashEvent::TmuxAvailable(true));
    c.next(BashEvent::SessionExists(false));
    assert_eq!(
        respond(c.next(BashEvent::Done(Err("boom".to_string())))),
        ("Failed to start tmux session: boom".to_string(), true)
    );
    let mut p = BashCourse::new(PolicyMode::No, 42);
    p.next(BashEvent::TmuxAvailable(true));
    p.next(BashEvent::SessionExists(true));
    p.next(BashEvent::Done(Ok(())));
    assert!(matches!(p.next(BashEvent::Done(Ok(()))), BashAction::Tmux { step: TmuxStep::PopTerminal, .. }));
    assert!(respond(p.next(BashEvent::Popped(Err("no term".to_string())))).0.starts_with(
        "Error: Failed to spawn the configured terminal command: no term\n"
    ));
}

#[test]
fn every_tmux_step_works_in_the_process_session() {
    let mut c = BashCourse::new(PolicyMode::Ask, 4242);
    assert_eq!(c.session_name(), "rope-shell-4242");
    assert_eq!(c.session_name(), shell_session_name(4242));
    let events = vec![
        BashEvent::TmuxAvailable(true),
        BashEvent::SessionExists(true),
        BashEvent::Done(Ok(())),
        BashEvent::Done(Ok(())),
        BashEvent::Popped(Ok(true)),
        BashEvent::Baseline(Some((0, 0))),
        BashEvent::Presence(Presence::Window { exited: true }),
    ];
    for e in events {
        match c.next(e) {
            BashAction::Tmux { session, .. } => assert_eq!(session, "rope-shell-4242"),
            other => panic!("expected a tmux step, got {:?}", other),
        }
    }
    assert_eq!(c.session_name(), "rope-shell-4242");
}

#[test]
fn clear_prompt_keys_and_waits() {
    let keys = clear_prompt_keys();
    assert_eq!(keys.len(), 3);
    assert!(matches!(&keys[0], Keys::Control(k) if k == "C-c"));
    assert!(matches!(&keys[1], Keys::Literal(t) if t == "echo \"\" && echo \"---\" && echo \"\""));
    assert!(matches!(&keys[2], Keys::Control(k) if k == "C-m"));
    assert_eq!((START_SETTLE_MS, CLEAR_SETTLE_MS, IDLE_CHECKS, IDLE_CHECK_MS), (500, 150, 40, 50));
    assert_eq!((ATTACH_CHECKS, ATTACH_CHECK_MS, ATTACH_SETTLE_MS, POLL_MS), (60, 50, 50, 200));
}
