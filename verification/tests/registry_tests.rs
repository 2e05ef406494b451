use virtual_agency::registry::AgentRegistry;
use virtual_agency::registry::RegistryError;

fn create(reg: &mut AgentRegistry, id: Option<&str>) -> Result<String, RegistryError> {
    reg.create(
        id.map(|s| s.to_string()),
        "a".to_string(),
        "/tmp".to_string(),
        "sonnet".to_string(),
        false,
        Vec::new(),
    )
}

#[test]
fn create_and_list() {
    let mut reg = AgentRegistry::new();
    let id = create(&mut reg, Some("X")).unwrap();
    assert_eq!(id, "X");
    let listed = reg.list();
    assert_eq!(listed.len(), 1);
    let (lid, name, dir, model, thinking, mcp) = &listed[0];
    assert_eq!(lid, "X");
    assert_eq!(name, "a");
    assert_eq!(dir, "/tmp");
    assert_eq!(model, "sonnet");
    assert!(!thinking);
    assert!(mcp.is_empty());
}

#[test]
fn duplicate_ids_are_refused() {
    let mut reg = AgentRegistry::new();
    create(&mut reg, Some("X")).unwrap();
    assert_eq!(create(&mut reg, Some("X")), Err(RegistryError::DuplicateId));
    assert_eq!(reg.list().len(), 1);
}

#[test]
fn minted_ids_are_hyphenated_uuids() {
    let mut reg = AgentRegistry::new();
    let a = create(&mut reg, None).unwrap();
    let b = create(&mut reg, None).unwrap();
    assert_eq!(a.chars().count(), 36);
    assert_eq!(b.chars().count(), 36);
    assert_ne!(a, b);
    assert_eq!(reg.list().len(), 2);
}

#[test]
fn get_finds_only_present_sessions() {
    let mut reg = AgentRegistry::new();
    create(&mut reg, Some("X")).unwrap();
    assert!(reg.get("X").is_some());
    assert!(reg.get("Y").is_none());
    assert_eq!(reg.get("X").unwrap().id, "X");
}

#[test]
fn remove_takes_the_session_out() {
    let mut reg = AgentRegistry::new();
    create(&mut reg, Some("X")).unwrap();
    create(&mut reg, Some("Y")).unwrap();
    let removed = reg.remove("X").unwrap();
    assert_eq!(removed.id, "X");
    assert!(reg.get("X").is_none());
    assert!(reg.get("Y").is_some());
    assert!(matches!(reg.remove("X"), Err(RegistryError::NotFound)));
}

#[test]
fn operations_on_unknown_ids_fail() {
    let mut reg = AgentRegistry::new();
    assert!(matches!(
        reg.prepare_send("nope", "m", &Vec::new()),
        Err(RegistryError::NotFound)
    ));
    assert!(matches!(reg.stop_agent("nope"), Err(RegistryError::NotFound)));
    assert!(matches!(reg.note_spawned("nope", 3), Err(RegistryError::NotFound)));
    assert!(matches!(
        reg.update_settings("nope", None, None, None),
        Err(RegistryError::NotFound)
    ));
}

#[test]
fn update_settings_affects_subsequent_sends() {
    let mut reg = AgentRegistry::new();
    create(&mut reg, Some("X")).unwrap();
    reg.update_settings("X", Some("opus".to_string()), Some(true), None).unwrap();
    let plan = reg.prepare_send("X", "m", &Vec::new()).unwrap();
    assert_eq!(plan.args[7], "opus");
    assert_eq!(plan.env[0].name, "MAX_THINKING_TOKENS");
}

#[test]
fn stop_through_the_registry_keeps_the_session() {
    let mut reg = AgentRegistry::new();
    create(&mut reg, Some("X")).unwrap();
    reg.note_spawned("X", 11).unwrap();
    assert_eq!(reg.get("X").unwrap().child, Some(11));
    let (token, evs) = reg.stop_agent("X").unwrap();
    assert_eq!(token, Some(11));
    assert_eq!(evs.len(), 1);
    assert!(reg.get("X").unwrap().child.is_none());
    // The session is still registered and can send again.
    assert!(reg.prepare_send("X", "again", &Vec::new()).is_ok());
}

#[test]
fn an_observed_conversation_id_is_resumed_on_the_next_send() {
    let mut reg = AgentRegistry::new();
    create(&mut reg, Some("X")).unwrap();
    let evs = reg
        .observe_line("X", r#"{"type":"system","session_id":"S-1"}"#)
        .unwrap();
    assert_eq!(evs.len(), 1);
    let plan = reg.prepare_send("X", "again", &Vec::new()).unwrap();
    let n = plan.args.len();
    assert_eq!(plan.args[n - 2], "--resume");
    assert_eq!(plan.args[n - 1], "S-1");
    assert!(matches!(
        reg.observe_line("nope", "x"),
        Err(RegistryError::NotFound)
    ));
}

#[test]
fn error_messages_name_the_cause() {
    assert_eq!(RegistryError::NotFound.message(), "not found");
    assert_eq!(
        RegistryError::DuplicateId.message(),
        "a session with this ID already exists"
    );
}
