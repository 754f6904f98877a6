use bondage::chat::{
    from_content, to_chat_entries, ChatEntry, ContentPiece, StreamCollector, StreamEvent,
    ToolCallPart,
};
use bondage::kit::{
    approval_prompt, call_mode, denial_response, gate, is_affirmative, is_approval_answer,
    output_preview, AgentAction, AgentTurn, DefaultExecutor, Gate,
};
use bondage::policy::{Policy, PolicyConfig, PolicyMode};
use bondage::{BondageError, Message};

fn req(id: &str) -> Message {
    Message::ModelToolRequest { id: id.to_string(), name: "bash".to_string(), arguments: "{}".to_string() }
}

fn resp(id: &str) -> Message {
    Message::ToolResponse { id: id.to_string(), name: "bash".to_string(), content: "ok".to_string(), is_error: false }
}

#[test]
fn agent_turn_runs_each_request_then_calls_model_again() {
    let mut turn = AgentTurn::new();
    let mut history = vec![Message::User("go".to_string())];
    let answer = vec![Message::ModelText("thinking".to_string()), req("a"), req("b")];
    match turn.on_model_response(&mut history, answer) {
        AgentAction::RunTool { id, name, .. } => {
            assert_eq!(id, "a");
            assert_eq!(name, "bash");
        }
        other => panic!("unexpected {:?}", other),
    }
    assert_eq!(history.len(), 3);
    match turn.on_tool_result(&mut history, resp("a")) {
        AgentAction::RunTool { id, .. } => assert_eq!(id, "b"),
        other => panic!("unexpected {:?}", other),
    }
    assert!(matches!(turn.on_tool_result(&mut history, resp("b")), AgentAction::CallModel));
    assert_eq!(
        history,
        vec![
            Message::User("go".to_string()),
            Message::ModelText("thinking".to_string()),
            req("a"),
            resp("a"),
            req("b"),
            resp("b"),
        ]
    );
    let last = vec![Message::ModelText("done".to_string())];
    assert!(matches!(turn.on_model_response(&mut history, last), AgentAction::Finish));
    assert_eq!(history.last(), Some(&Message::ModelText("done".to_string())));
}

#[test]
fn agent_turn_finishes_on_empty_answer() {
    let mut turn = AgentTurn::new();
    let mut history = Vec::new();
    assert!(matches!(turn.on_model_response(&mut history, Vec::new()), AgentAction::Finish));
    assert!(history.is_empty());
}

#[test]
fn chat_entries_group_parallel_calls() {
    let ms = vec![
        Message::System("sys".to_string()),
        Message::User("u".to_string()),
        req("1"),
        req("2"),
        resp("1"),
        resp("2"),
        Message::Error("blocked".to_string()),
        req("3"),
    ];
    let es = to_chat_entries(&ms);
    assert_eq!(es.len(), 7);
    assert!(matches!(&es[0], ChatEntry::System(t) if t == "sys"));
    assert!(matches!(&es[1], ChatEntry::User(t) if t == "u"));
    match &es[2] {
        ChatEntry::ToolCalls(cs) => {
            assert_eq!(cs.len(), 2);
            assert_eq!(cs[0].id, "1");
            assert_eq!(cs[1].id, "2");
        }
        other => panic!("unexpected {:?}", other),
    }
    assert!(matches!(&es[3], ChatEntry::ToolResult { call_id, content } if call_id == "1" && content == "ok"));
    assert!(matches!(&es[5], ChatEntry::Assistant(t) if t == "Error: blocked"));
    assert!(matches!(&es[6], ChatEntry::ToolCalls(cs) if cs.len() == 1 && cs[0].id == "3"));
}

#[test]
fn content_becomes_text_then_requests() {
    let parts = vec![
        ContentPiece::Text("Hel".to_string()),
        ContentPiece::ToolCall(ToolCallPart { id: "c".to_string(), name: "lookup".to_string(), arguments: "{\"target\":\".\"}".to_string() }),
        ContentPiece::Other,
        ContentPiece::Text("lo".to_string()),
    ];
    assert_eq!(
        from_content(parts),
        vec![
            Message::ModelText("Hello".to_string()),
            Message::ModelToolRequest { id: "c".to_string(), name: "lookup".to_string(), arguments: "{\"target\":\".\"}".to_string() },
        ]
    );
    assert!(from_content(vec![ContentPiece::Other]).is_empty());
}

#[test]
fn gating_follows_policy() {
    let p = Policy::default();
    assert_eq!(call_mode(&p, "lookup", Some("src"), true), PolicyMode::Yes);
    assert_eq!(call_mode(&p, "lookup", None, true), PolicyMode::Ask);
    assert_eq!(call_mode(&p, "write", Some("x"), true), PolicyMode::Ask);
    assert_eq!(call_mode(&p, "bash", None, true), PolicyMode::Ask);
    assert_eq!(call_mode(&p, "fly", Some("x"), true), PolicyMode::Ask);
    assert_eq!(gate(PolicyMode::Ask, "bash"), Gate::Run);
    assert_eq!(gate(PolicyMode::Ask, "write"), Gate::AskUser);
    assert_eq!(gate(PolicyMode::No, "bash"), Gate::Refuse);
    assert_eq!(gate(PolicyMode::Yes, "write"), Gate::Run);
    let strict = Policy::from_config(&PolicyConfig { access_write_directory: Some(PolicyMode::No), ..Default::default() });
    let e = DefaultExecutor::new(strict);
    assert_eq!(e.gate_call("write", Some("a.txt"), true), Gate::Refuse);
    assert_eq!(e.gate_call("write", Some("/tmp/a"), false), Gate::AskUser);
}

#[test]
fn denials_and_prompts() {
    assert_eq!(
        denial_response("i", "write", true),
        Message::ToolResponse { id: "i".to_string(), name: "write".to_string(), content: "Permission Denied: execution blocked by safety policy.".to_string(), is_error: true }
    );
    assert_eq!(
        denial_response("i", "write", false),
        Message::ToolResponse { id: "i".to_string(), name: "write".to_string(), content: "Permission Denied by User".to_string(), is_error: true }
    );
    assert_eq!(
        approval_prompt("write", "  {\"path\":\"a\"}\n"),
        "\n⚠️  [Agent wants to execute: write ({\"path\":\"a\"})] Approve? (y/N): "
    );
    assert!(is_approval_answer(" Yes\n"));
    assert!(is_approval_answer("y"));
    assert!(is_approval_answer("Y"));
    assert!(is_approval_answer("YES"));
    assert!(!is_approval_answer("N"));
    assert!(!is_approval_answer("yep"));
    assert!(!is_approval_answer(""));
    assert!(is_affirmative("yes"));
    assert!(!is_affirmative("YES"));
}

#[test]
fn preview_shows_five_lines() {
    assert_eq!(output_preview("1\n2\n3\n4\n5\n6\n7"), "1\n2\n3\n4\n5");
    assert_eq!(output_preview("a\r\nb"), "a\nb");
    assert_eq!(output_preview(""), "");
}

#[test]
fn errors_describe_themselves() {
    assert_eq!(BondageError::Engine("x".to_string()).describe(), "LLM Engine Error: x");
    assert_eq!(BondageError::Tool("x".to_string()).describe(), "Tool Execution Error: x");
    assert_eq!(BondageError::Io("x".to_string()).describe(), "I/O Error: x");
    assert_eq!(BondageError::Serialization("x".to_string()).describe(), "Serialization Error: x");
}

#[test]
fn stream_shows_text_and_keeps_last_captured_answer() {
    let mut c = StreamCollector::new();
    assert_eq!(c.absorb(StreamEvent::Text("Hi".to_string())), Some("Hi".to_string()));
    assert_eq!(c.absorb(StreamEvent::Reasoning("hmm".to_string())), Some("hmm".to_string()));
    assert_eq!(c.absorb(StreamEvent::Other), None);
    assert_eq!(c.absorb(StreamEvent::End(None)), None);
    let parts = vec![ContentPiece::Text("Hi".to_string())];
    assert_eq!(c.absorb(StreamEvent::End(Some(parts))), None);
    assert_eq!(c.finish(), vec![Message::ModelText("Hi".to_string())]);
    assert!(StreamCollector::new().finish().is_empty());
}
