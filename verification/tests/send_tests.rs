use virtual_agency::agent::AgentSession;
use virtual_agency::agent::default_model;
use virtual_agency::events::AgentStatus;
use virtual_agency::events::BusEvent;

fn session_with(model: &str, thinking: bool, mcp: Vec<String>) -> AgentSession {
    AgentSession::new(
        "a1".to_string(),
        "a".to_string(),
        "/tmp".to_string(),
        model.to_string(),
        thinking,
        mcp,
    )
}

#[test]
fn default_model_is_sonnet() {
    assert_eq!(default_model(), "sonnet");
}

#[test]
fn send_args_without_resume() {
    let s = session_with("sonnet", false, Vec::new());
    let plan = s.prepare_send("do the thing", &Vec::new());
    assert_eq!(plan.prompt, "do the thing");
    assert_eq!(
        plan.args,
        vec![
            "-p".to_string(),
            "do the thing".to_string(),
            "--output-format".to_string(),
            "stream-json".to_string(),
            "--verbose".to_string(),
            "--dangerously-skip-permissions".to_string(),
            "--model".to_string(),
            "sonnet".to_string(),
        ]
    );
    assert!(plan.env.is_empty());
    match plan.status_event {
        BusEvent::AgentStatus(st) => assert_eq!(st.status, AgentStatus::Thinking),
        _ => panic!("expected the thinking status"),
    }
}

#[test]
fn an_empty_message_still_sends() {
    let s = session_with("sonnet", false, Vec::new());
    let plan = s.prepare_send("", &Vec::new());
    assert_eq!(plan.prompt, "");
    assert_eq!(plan.args[1], "");
}

#[test]
fn send_resumes_a_known_conversation() {
    let mut s = session_with("opus", false, Vec::new());
    s.observe_line(r#"{"type":"system","session_id":"S-1"}"#);
    let plan = s.prepare_send("again", &Vec::new());
    let n = plan.args.len();
    assert_eq!(plan.args[n - 2], "--resume");
    assert_eq!(plan.args[n - 1], "S-1");
    assert_eq!(plan.args[7], "opus");
}

#[test]
fn image_paths_prefix_the_prompt() {
    let s = session_with("sonnet", false, Vec::new());
    let images = vec!["/tmp/a.png".to_string(), "/tmp/b.jpg".to_string()];
    let plan = s.prepare_send("look", &images);
    assert_eq!(plan.prompt, "Images attached: /tmp/a.png /tmp/b.jpg\n\nlook");
    assert_eq!(plan.args[1], "Images attached: /tmp/a.png /tmp/b.jpg\n\nlook");
}

#[test]
fn thinking_sets_the_token_budget() {
    let s = session_with("sonnet", true, Vec::new());
    let plan = s.prepare_send("m", &Vec::new());
    assert_eq!(plan.env.len(), 1);
    assert_eq!(plan.env[0].name, "MAX_THINKING_TOKENS");
    assert_eq!(plan.env[0].value, "31999");
}

#[test]
fn extension_servers_are_passed_as_a_json_array() {
    let s = session_with("sonnet", true, vec!["filesys".to_string(), "web".to_string()]);
    let plan = s.prepare_send("m", &Vec::new());
    assert_eq!(plan.env.len(), 2);
    assert_eq!(plan.env[1].name, "CLAUDE_MCP_SERVERS");
    assert_eq!(plan.env[1].value, r#"["filesys","web"]"#);
}

#[test]
fn stop_clears_the_child_and_reports_idle() {
    let mut s = session_with("sonnet", false, Vec::new());
    s.note_spawned(41);
    assert_eq!(s.child, Some(41));
    let (token, evs) = s.stop();
    assert_eq!(token, Some(41));
    assert!(s.child.is_none());
    assert_eq!(evs.len(), 1);
    match &evs[0] {
        BusEvent::AgentStatus(st) => assert_eq!(st.status, AgentStatus::Idle),
        _ => panic!("expected the idle status"),
    }
}

#[test]
fn stop_without_a_child_is_silent() {
    let mut s = session_with("sonnet", false, Vec::new());
    let (token, evs) = s.stop();
    assert!(token.is_none());
    assert!(evs.is_empty());
}

#[test]
fn a_send_after_stop_goes_back_to_thinking() {
    let mut s = session_with("sonnet", false, Vec::new());
    s.note_spawned(1);
    s.stop();
    let plan = s.prepare_send("again", &Vec::new());
    match plan.status_event {
        BusEvent::AgentStatus(st) => assert_eq!(st.status, AgentStatus::Thinking),
        _ => panic!("expected the thinking status"),
    }
}

#[test]
fn kill_clears_the_child_silently() {
    let mut s = session_with("sonnet", false, Vec::new());
    s.note_spawned(7);
    let token = s.kill();
    assert_eq!(token, Some(7));
    assert!(s.child.is_none());
}

#[test]
fn update_settings_changes_only_what_is_given() {
    let mut s = session_with("sonnet", false, vec!["x".to_string()]);
    s.update_settings(Some("opus".to_string()), None, None);
    let (model, thinking, mcp) = s.get_settings();
    assert_eq!(model, "opus");
    assert!(!thinking);
    assert_eq!(mcp, vec!["x".to_string()]);
    s.update_settings(None, Some(true), Some(Vec::new()));
    let (model, thinking, mcp) = s.get_settings();
    assert_eq!(model, "opus");
    assert!(thinking);
    assert!(mcp.is_empty());
}
