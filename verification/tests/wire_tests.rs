use virtual_agency::events::AgentOutput;
use virtual_agency::events::AgentStatus;
use virtual_agency::events::AgentStatusChange;
use virtual_agency::events::BusEvent;
use virtual_agency::events::OutputStream;
use virtual_agency::events::TerminalOutput;
use virtual_agency::wire::encode_envelope;
use virtual_agency::wire::json_string_array;
use virtual_agency::wire::status_label;
use virtual_agency::wire::stream_label;

#[test]
fn agent_output_envelope() {
    let e = BusEvent::AgentOutput(AgentOutput {
        agent_id: "a1".to_string(),
        stream: OutputStream::Stdout,
        data: "hello".to_string(),
    });
    assert_eq!(
        encode_envelope(&e),
        r#"{"type":"agent-output","agent_id":"a1","stream":"stdout","data":"hello"}"#
    );
}

#[test]
fn agent_status_envelope() {
    let e = BusEvent::AgentStatus(AgentStatusChange {
        agent_id: "a1".to_string(),
        status: AgentStatus::Working,
    });
    assert_eq!(
        encode_envelope(&e),
        r#"{"type":"agent-status","agent_id":"a1","status":"working"}"#
    );
}

#[test]
fn terminal_output_envelope() {
    let e = BusEvent::TerminalOutput(TerminalOutput {
        terminal_id: "t1".to_string(),
        data: "ls\r\n".to_string(),
    });
    assert_eq!(
        encode_envelope(&e),
        "{\"type\":\"terminal-output\",\"terminal_id\":\"t1\",\"data\":\"ls\\r\\n\"}"
    );
}

#[test]
fn envelopes_escape_quotes_backslashes_and_controls() {
    let e = BusEvent::AgentOutput(AgentOutput {
        agent_id: "a".to_string(),
        stream: OutputStream::Stderr,
        data: "say \"hi\"\\\n\t\u{1}".to_string(),
    });
    assert_eq!(
        encode_envelope(&e),
        "{\"type\":\"agent-output\",\"agent_id\":\"a\",\"stream\":\"stderr\",\"data\":\"say \\\"hi\\\"\\\\\\n\\t\\u0001\"}"
    );
}

#[test]
fn envelopes_parse_back_as_json() {
    let e = BusEvent::AgentOutput(AgentOutput {
        agent_id: "a\"b".to_string(),
        stream: OutputStream::Stdout,
        data: "line with \u{8} and \u{c}".to_string(),
    });
    let text = encode_envelope(&e);
    let v: serde_json::Value = serde_json::from_str(&text).unwrap();
    assert_eq!(v["type"], "agent-output");
    assert_eq!(v["agent_id"], "a\"b");
    assert_eq!(v["data"], "line with \u{8} and \u{c}");
}

#[test]
fn status_and_stream_labels_are_lowercase() {
    assert_eq!(status_label(AgentStatus::Idle), "idle");
    assert_eq!(status_label(AgentStatus::Thinking), "thinking");
    assert_eq!(status_label(AgentStatus::Working), "working");
    assert_eq!(status_label(AgentStatus::Error), "error");
    assert_eq!(status_label(AgentStatus::Exited), "exited");
    assert_eq!(stream_label(OutputStream::Stdout), "stdout");
    assert_eq!(stream_label(OutputStream::Stderr), "stderr");
}

#[test]
fn string_arrays_match_their_json_form() {
    assert_eq!(json_string_array(&Vec::new()), "[]");
    let one = vec!["a".to_string()];
    assert_eq!(json_string_array(&one), r#"["a"]"#);
    let two = vec!["a\"b".to_string(), "c".to_string()];
    let text = json_string_array(&two);
    assert_eq!(text, "[\"a\\\"b\",\"c\"]");
    let parsed: serde_json::Value = serde_json::from_str(&text).unwrap();
    assert_eq!(parsed[0], "a\"b");
    assert_eq!(parsed[1], "c");
}
