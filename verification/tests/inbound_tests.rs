use virtual_agency::inbound::InboundFrame;
use virtual_agency::inbound::RouteAction;
use virtual_agency::inbound::classify_inbound;
use virtual_agency::inbound::route_inbound;
use virtual_agency::terminal::TerminalRegistry;

#[test]
fn terminal_input_frames_are_recognized() {
    let frame = classify_inbound(r#"{"type":"terminal-input","terminal_id":"T","data":"ls\n"}"#);
    match frame {
        InboundFrame::TerminalInput { terminal_id, data } => {
            assert_eq!(terminal_id, "T");
            assert_eq!(data, "ls\n");
        }
        _ => panic!("expected a terminal-input frame"),
    }
}

#[test]
fn terminal_resize_frames_are_recognized() {
    let frame = classify_inbound(r#"{"type":"terminal-resize","terminal_id":"T","cols":120,"rows":40}"#);
    match frame {
        InboundFrame::TerminalResize { terminal_id, cols, rows } => {
            assert_eq!(terminal_id, "T");
            assert_eq!(cols, 120);
            assert_eq!(rows, 40);
        }
        _ => panic!("expected a terminal-resize frame"),
    }
}

#[test]
fn unknown_and_malformed_frames_are_ignored() {
    assert!(matches!(classify_inbound("not json"), InboundFrame::Ignored));
    assert!(matches!(classify_inbound(r#"{"type":"ping"}"#), InboundFrame::Ignored));
    assert!(matches!(
        classify_inbound(r#"{"type":"terminal-input","terminal_id":"T"}"#),
        InboundFrame::Ignored
    ));
    // A size that does not fit the PTY's sixteen-bit dimensions.
    assert!(matches!(
        classify_inbound(r#"{"type":"terminal-resize","terminal_id":"T","cols":70000,"rows":24}"#),
        InboundFrame::Ignored
    ));
}

#[test]
fn the_largest_pty_size_is_still_accepted() {
    let frame = classify_inbound(
        r#"{"type":"terminal-resize","terminal_id":"T","cols":65535,"rows":65535}"#,
    );
    match frame {
        InboundFrame::TerminalResize { cols, rows, .. } => {
            assert_eq!(cols, u16::MAX);
            assert_eq!(rows, u16::MAX);
        }
        _ => panic!("expected a terminal-resize frame"),
    }
}

#[test]
fn input_is_routed_to_a_registered_terminal() {
    let mut reg = TerminalRegistry::new();
    reg.create(Some("T".to_string()), "/tmp".to_string(), 80, 24).unwrap();
    let action = route_inbound(&reg, r#"{"type":"terminal-input","terminal_id":"T","data":"echo hi\n"}"#);
    match action {
        RouteAction::WriteTo { terminal_id, data } => {
            assert_eq!(terminal_id, "T");
            assert_eq!(data, "echo hi\n");
        }
        _ => panic!("expected a write action"),
    }
}

#[test]
fn frames_for_unknown_terminals_are_dropped() {
    let reg = TerminalRegistry::new();
    assert!(matches!(
        route_inbound(&reg, r#"{"type":"terminal-input","terminal_id":"T","data":"x"}"#),
        RouteAction::Drop
    ));
}

#[test]
fn resize_is_routed_to_a_registered_terminal() {
    let mut reg = TerminalRegistry::new();
    reg.create(Some("T".to_string()), "/tmp".to_string(), 80, 24).unwrap();
    match route_inbound(&reg, r#"{"type":"terminal-resize","terminal_id":"T","cols":100,"rows":30}"#) {
        RouteAction::ResizeTo { terminal_id, cols, rows } => {
            assert_eq!(terminal_id, "T");
            assert_eq!(cols, 100);
            assert_eq!(rows, 30);
        }
        _ => panic!("expected a resize action"),
    }
}
