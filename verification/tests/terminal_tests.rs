use virtual_agency::bus::EventBus;
use virtual_agency::bus::RecvOutcome;
use virtual_agency::events::BusEvent;
use virtual_agency::registry::RegistryError;
use virtual_agency::terminal::ReadEvent;
use virtual_agency::terminal::ReaderAction;
use virtual_agency::terminal::TerminalRegistry;
use virtual_agency::terminal::default_cols;
use virtual_agency::terminal::default_rows;
use virtual_agency::terminal::reader_step;
use virtual_agency::terminal::shell_choice;
use virtual_agency::terminal::shell_env;

#[test]
fn default_terminal_size_is_80_by_24() {
    assert_eq!(default_cols(), 80);
    assert_eq!(default_rows(), 24);
}

#[test]
fn create_list_resize_and_kill() {
    let mut reg = TerminalRegistry::new();
    let id = reg.create(Some("T".to_string()), "/tmp".to_string(), 80, 24).unwrap();
    assert_eq!(id, "T");
    assert_eq!(reg.list(), vec![("T".to_string(), "/tmp".to_string())]);
    assert_eq!(reg.get("T").unwrap().cols, 80);
    reg.resize("T", 120, 40).unwrap();
    assert_eq!(reg.get("T").unwrap().cols, 120);
    assert_eq!(reg.get("T").unwrap().rows, 40);
    let killed = reg.kill_terminal("T").unwrap();
    assert_eq!(killed.id, "T");
    assert!(reg.get("T").is_none());
    assert!(matches!(reg.kill_terminal("T"), Err(RegistryError::NotFound)));
}

#[test]
fn terminal_ids_are_unique_and_minted_when_absent() {
    let mut reg = TerminalRegistry::new();
    reg.create(Some("T".to_string()), "/tmp".to_string(), 80, 24).unwrap();
    assert!(matches!(
        reg.create(Some("T".to_string()), "/tmp".to_string(), 80, 24),
        Err(RegistryError::DuplicateId)
    ));
    let minted = reg.create(None, "/tmp".to_string(), 80, 24).unwrap();
    assert_eq!(minted.chars().count(), 36);
}

#[test]
fn a_chunk_is_decoded_and_published() {
    let ev = ReadEvent::Data(b"echo hi\r\nhi\r\n".to_vec());
    match reader_step("T", ev, false) {
        ReaderAction::Publish(BusEvent::TerminalOutput(t)) => {
            assert_eq!(t.terminal_id, "T");
            assert!(t.data.contains("hi"));
        }
        _ => panic!("expected a published chunk"),
    }
}

#[test]
fn invalid_bytes_never_stop_the_reader() {
    let ev = ReadEvent::Data(vec![0xff, 0xfe, b'o', b'k']);
    match reader_step("T", ev, false) {
        ReaderAction::Publish(BusEvent::TerminalOutput(t)) => {
            assert!(t.data.contains('\u{fffd}'));
            assert!(t.data.contains("ok"));
        }
        _ => panic!("expected a published chunk"),
    }
}

#[test]
fn the_kill_signal_stops_the_reader_between_reads() {
    let ev = ReadEvent::Data(b"more".to_vec());
    assert!(matches!(reader_step("T", ev, true), ReaderAction::Stop));
    assert!(matches!(reader_step("T", ReadEvent::Eof, false), ReaderAction::Stop));
    assert!(matches!(reader_step("T", ReadEvent::Failed, false), ReaderAction::Stop));
    assert!(matches!(reader_step("T", ReadEvent::WouldBlock, false), ReaderAction::Sleep));
}

#[test]
fn terminal_echo_reaches_a_subscriber() {
    let mut bus = EventBus::new(1000);
    let mut sub = bus.subscribe();
    match reader_step("T", ReadEvent::Data(b"hi\r\n".to_vec()), false) {
        ReaderAction::Publish(ev) => bus.publish(ev),
        _ => panic!("expected a published chunk"),
    }
    match bus.recv(&mut sub) {
        RecvOutcome::Event(BusEvent::TerminalOutput(t)) => {
            assert_eq!(t.terminal_id, "T");
            assert!(t.data.contains("hi"));
        }
        _ => panic!("expected the chunk on the bus"),
    }
}

#[test]
fn the_shell_comes_from_the_environment_with_a_fallback() {
    assert_eq!(shell_choice(Some("/bin/zsh".to_string())), "/bin/zsh");
    assert_eq!(shell_choice(None), "/bin/bash");
    let env = shell_env();
    assert_eq!(env.len(), 2);
    assert_eq!(env[0].name, "TERM");
    assert_eq!(env[0].value, "xterm-256color");
    assert_eq!(env[1].name, "COLORTERM");
    assert_eq!(env[1].value, "truecolor");
}
