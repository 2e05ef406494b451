use virtual_agency::agent::AgentSession;
use virtual_agency::events::AgentStatus;
use virtual_agency::events::BusEvent;
use virtual_agency::events::OutputStream;
use virtual_agency::parser::status_for_type;

fn session(id: &str) -> AgentSession {
    AgentSession::new(
        id.to_string(),
        "a".to_string(),
        "/tmp".to_string(),
        "sonnet".to_string(),
        false,
        Vec::new(),
    )
}

fn statuses(events: &[BusEvent]) -> Vec<AgentStatus> {
    events
        .iter()
        .filter_map(|e| match e {
            BusEvent::AgentStatus(s) => Some(s.status),
            _ => None,
        })
        .collect()
}

#[test]
fn status_mapping_working_class() {
    assert_eq!(status_for_type("assistant"), Some(AgentStatus::Working));
    assert_eq!(status_for_type("content_block_delta"), Some(AgentStatus::Working));
    assert_eq!(status_for_type("content_block_start"), Some(AgentStatus::Working));
}

#[test]
fn status_mapping_terminal_class() {
    assert_eq!(status_for_type("result"), Some(AgentStatus::Idle));
    assert_eq!(status_for_type("message_stop"), Some(AgentStatus::Idle));
    assert_eq!(status_for_type("content_block_stop"), Some(AgentStatus::Idle));
    assert_eq!(status_for_type("message_end"), Some(AgentStatus::Idle));
}

#[test]
fn status_mapping_error_and_other() {
    assert_eq!(status_for_type("error"), Some(AgentStatus::Error));
    assert_eq!(status_for_type("system"), None);
    assert_eq!(status_for_type(""), None);
}

#[test]
fn raw_line_is_always_forwarded() {
    let mut s = session("x1");
    let evs = s.observe_line("not json at all");
    assert_eq!(evs.len(), 1);
    match &evs[0] {
        BusEvent::AgentOutput(o) => {
            assert_eq!(o.agent_id, "x1");
            assert!(matches!(o.stream, OutputStream::Stdout));
            assert_eq!(o.data, "not json at all");
        }
        _ => panic!("expected the raw line"),
    }
    assert!(s.conversation_id.is_none());
}

#[test]
fn session_id_is_captured_on_first_observation() {
    let mut s = session("x2");
    s.observe_line(r#"{"type":"system","session_id":"S-1"}"#);
    assert_eq!(s.conversation_id.as_deref(), Some("S-1"));
    // A later non-result frame does not overwrite it.
    s.observe_line(r#"{"type":"system","session_id":"S-2"}"#);
    assert_eq!(s.conversation_id.as_deref(), Some("S-1"));
}

#[test]
fn result_frame_overwrites_session_id() {
    let mut s = session("x3");
    s.observe_line(r#"{"type":"system","session_id":"S-1"}"#);
    s.observe_line(r#"{"type":"result","session_id":"S-9"}"#);
    assert_eq!(s.conversation_id.as_deref(), Some("S-9"));
}

#[test]
fn non_string_session_id_is_ignored() {
    let mut s = session("x4");
    s.observe_line(r#"{"type":"system","session_id":7}"#);
    assert!(s.conversation_id.is_none());
}

#[test]
fn status_trajectory_working_then_idle() {
    let mut s = session("x5");
    let plan = s.prepare_send("hello", &Vec::new());
    let mut seen = statuses(std::slice::from_ref(&plan.status_event));
    seen.extend(statuses(&s.observe_line(r#"{"type":"assistant","message":{}}"#)));
    seen.extend(statuses(&s.observe_line(r#"{"type":"result","session_id":"S-1"}"#)));
    assert_eq!(
        seen,
        vec![AgentStatus::Thinking, AgentStatus::Working, AgentStatus::Idle]
    );
}

#[test]
fn replaying_a_line_leaves_the_same_state() {
    let mut once = session("x6");
    once.observe_line(r#"{"type":"system","session_id":"S-1"}"#);
    let mut twice = session("x6");
    twice.observe_line(r#"{"type":"system","session_id":"S-1"}"#);
    twice.observe_line(r#"{"type":"system","session_id":"S-1"}"#);
    assert_eq!(once.conversation_id, twice.conversation_id);
}

#[test]
fn stderr_is_forwarded_verbatim() {
    let s = session("x7");
    match s.stderr_line(r#"{"type":"assistant"}"#) {
        BusEvent::AgentOutput(o) => {
            assert!(matches!(o.stream, OutputStream::Stderr));
            assert_eq!(o.data, r#"{"type":"assistant"}"#);
        }
        _ => panic!("expected stderr output"),
    }
}

#[test]
fn end_of_stream_emits_idle() {
    let s = session("x8");
    match s.end_of_stream() {
        BusEvent::AgentStatus(st) => assert_eq!(st.status, AgentStatus::Idle),
        _ => panic!("expected a status event"),
    }
}
