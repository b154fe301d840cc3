use bugboard_mcp::config::{parse_env_file, unquote_env_value, ConfigError, SessionConfig};
use bugboard_mcp::failure::{Detail, ToolFailure};
use bugboard_mcp::handles::{HandleKind, HandleStore};
use bugboard_mcp::write_safety::{
    resolve_after_mutation, RequestedState, WriteAction, WriteEvent, WriteFlow, WriteOutcome,
    WriteSafety,
};

#[test]
fn handles_are_numbered_per_kind_and_stable() {
    let mut store = HandleStore::new();
    assert_eq!(store.remember(HandleKind::Bug, "r1"), "bug-1");
    assert_eq!(store.remember(HandleKind::Bug, "r2"), "bug-2");
    assert_eq!(store.remember(HandleKind::Bug, "r1"), "bug-1");
    assert_eq!(store.remember(HandleKind::Project, "r1"), "project-1");
    assert_eq!(store.resolve(HandleKind::Bug, "bug-2").as_deref(), Some("r2"));
    assert_eq!(store.resolve(HandleKind::Bug, "bug-1").as_deref(), Some("r1"));
    assert_eq!(store.resolve(HandleKind::Project, "project-1").as_deref(), Some("r1"));
}

#[test]
fn handles_resolve_only_exact_handles_of_their_kind() {
    let mut store = HandleStore::new();
    store.remember(HandleKind::Bug, "r1");
    store.remember(HandleKind::Project, "p1");
    assert_eq!(store.resolve(HandleKind::Project, "bug-1"), None);
    assert_eq!(store.resolve(HandleKind::Bug, "project-1"), None);
    assert_eq!(store.resolve(HandleKind::Bug, "bug-01"), None);
    assert_eq!(store.resolve(HandleKind::Bug, "bug-0"), None);
    assert_eq!(store.resolve(HandleKind::Bug, "bug-2"), None);
    assert_eq!(store.resolve(HandleKind::Bug, "bug-"), None);
    assert_eq!(store.resolve(HandleKind::Bug, "bug-1x"), None);
    assert_eq!(store.resolve(HandleKind::Bug, "Bug-1"), None);
    assert_eq!(store.resolve(HandleKind::Bug, "bug-99999999999999999999999"), None);
}

#[test]
fn handles_past_nine_have_two_digits() {
    let mut store = HandleStore::new();
    let mut last = String::new();
    for i in 0..12 {
        last = store.remember(HandleKind::Bug, &format!("ref-{i}"));
    }
    assert_eq!(last, "bug-12");
    assert_eq!(store.resolve(HandleKind::Bug, "bug-10").as_deref(), Some("ref-9"));
    assert_eq!(store.resolve(HandleKind::Bug, "bug-12").as_deref(), Some("ref-11"));
}

#[test]
fn env_file_is_parsed() {
    let values = parse_env_file(
        "# comment\n\nexport BUGBOARD_COOKIE=\"session=value\"\r\nOTHER = 'x' \nno equals sign\n KEY=a=b",
    );
    assert_eq!(values.get("BUGBOARD_COOKIE"), Some("session=value"));
    assert_eq!(values.get("OTHER"), Some("x"));
    assert_eq!(values.get("KEY"), Some("a=b"));
    assert_eq!(values.get("no equals sign"), None);
    assert_eq!(values.get("# comment"), None);
    let config = SessionConfig::from_values(&values).unwrap();
    assert_eq!(config.cookie(), "session=value");
    assert_eq!(config.debug_repr(), r#"SessionConfig { cookie: "<redacted>" }"#);
}

#[test]
fn later_env_entries_replace_earlier_ones() {
    let values = parse_env_file("A=1\nA=2\n");
    assert_eq!(values.get("A"), Some("2"));
}

#[test]
fn session_config_needs_a_cookie() {
    let values = parse_env_file("OTHER=x");
    assert!(matches!(SessionConfig::from_values(&values), Err(ConfigError::MissingCookie)));
    let values = parse_env_file("BUGBOARD_COOKIE=   ");
    assert!(matches!(SessionConfig::from_values(&values), Err(ConfigError::MissingCookie)));
    let values = parse_env_file("BUGBOARD_COOKIE=\"  \"");
    assert!(matches!(SessionConfig::from_values(&values), Err(ConfigError::MissingCookie)));
}

#[test]
fn env_values_unquote() {
    assert_eq!(unquote_env_value("'a'"), "a");
    assert_eq!(unquote_env_value("\"a\""), "a");
    assert_eq!(unquote_env_value("\"\""), "");
    assert_eq!(unquote_env_value("\"a'"), "\"a'");
    assert_eq!(unquote_env_value("\""), "\"");
    assert_eq!(unquote_env_value("a"), "a");
}

fn text_detail(failure: &ToolFailure, index: usize) -> (String, String) {
    let (name, detail) = &failure.details()[index];
    match detail {
        Detail::Text(t) => (name.clone(), t.clone()),
        Detail::Flag(b) => (name.clone(), b.to_string()),
    }
}

#[test]
fn config_errors_become_tool_failures() {
    let f = ConfigError::MissingEnvFilePath.into_tool_failure();
    assert_eq!(f.code(), "config_missing");
    assert_eq!(f.message(), "Set BUGBOARD_SESSION_ENV to an env-file outside the repository.");
    assert_eq!(text_detail(&f, 0), ("required_env".to_string(), "BUGBOARD_SESSION_ENV".to_string()));
    let f = ConfigError::MissingCookie.into_tool_failure();
    assert_eq!(f.code(), "config_missing");
    assert_eq!(f.message(), "Session env-file must contain BUGBOARD_COOKIE.");
    assert_eq!(text_detail(&f, 0), ("required_key".to_string(), "BUGBOARD_COOKIE".to_string()));
    let f = ConfigError::ReadEnvFile { path: "/p".to_string(), source: "denied".to_string() }
        .into_tool_failure();
    assert_eq!(f.code(), "config_error");
    assert_eq!(f.message(), "Could not read BUGBOARD_SESSION_ENV file.");
    assert_eq!(f.details().len(), 2);
    assert_eq!(text_detail(&f, 0), ("path".to_string(), "/p".to_string()));
    assert_eq!(text_detail(&f, 1), ("source".to_string(), "denied".to_string()));
    assert!(!f.mutation_delivery_is_uncertain());
}

#[test]
fn write_safety_finish() {
    let safety = WriteSafety::new(RequestedState::Enabled, false);
    assert!(safety.needs_mutation());
    assert!(!WriteSafety::new(RequestedState::Disabled, false).needs_mutation());
    assert_eq!(
        safety.finish(true).unwrap(),
        WriteOutcome { requested: true, changed: true, previous_state: false, final_state: true }
    );
    let failure = safety.finish(false).unwrap_err();
    assert_eq!(failure.code(), "write_postcondition_failed");
    assert_eq!(failure.message(), "Bugboard did not reach the requested state.");
    assert_eq!(text_detail(&failure, 0), ("requested".to_string(), "true".to_string()));
    assert_eq!(text_detail(&failure, 1), ("previous_state".to_string(), "false".to_string()));
    assert_eq!(text_detail(&failure, 2), ("final_state".to_string(), "false".to_string()));
    assert!(RequestedState::Enabled.as_bool());
    assert!(!RequestedState::Disabled.as_bool());
}

fn finish(action: WriteAction) -> Result<WriteOutcome, ToolFailure> {
    match action {
        WriteAction::Finish(r) => r,
        _ => panic!("expected the write to finish"),
    }
}

#[test]
fn noop_write_reads_once_and_does_not_mutate() {
    let (flow, action) = WriteFlow::start(RequestedState::Enabled);
    assert!(matches!(action, WriteAction::ReadState));
    let (flow, action) = flow.step(WriteEvent::StateRead(Ok(true)));
    assert!(flow.is_done());
    assert_eq!(
        finish(action).unwrap(),
        WriteOutcome { requested: true, changed: false, previous_state: true, final_state: true }
    );
}

#[test]
fn write_mutates_once_and_confirms() {
    let (flow, _) = WriteFlow::start(RequestedState::Disabled);
    let (flow, action) = flow.step(WriteEvent::StateRead(Ok(true)));
    assert!(matches!(action, WriteAction::Mutate(RequestedState::Disabled)));
    assert!(flow.accepts(&WriteEvent::Mutated(Ok(()))));
    assert!(!flow.accepts(&WriteEvent::StateRead(Ok(true))));
    let (flow, action) = flow.step(WriteEvent::Mutated(Ok(())));
    assert!(matches!(action, WriteAction::ReadState));
    let (flow, action) = flow.step(WriteEvent::StateRead(Ok(false)));
    assert!(flow.is_done());
    assert!(!flow.accepts(&WriteEvent::StateRead(Ok(false))));
    assert_eq!(
        finish(action).unwrap(),
        WriteOutcome { requested: false, changed: true, previous_state: true, final_state: false }
    );
}

#[test]
fn write_fails_when_the_state_is_not_reached() {
    let (flow, _) = WriteFlow::start(RequestedState::Enabled);
    let (flow, _) = flow.step(WriteEvent::StateRead(Ok(false)));
    let (flow, _) = flow.step(WriteEvent::Mutated(Ok(())));
    let (_, action) = flow.step(WriteEvent::StateRead(Ok(false)));
    assert_eq!(finish(action).unwrap_err().code(), "write_postcondition_failed");
}

#[test]
fn failed_first_read_is_reported() {
    let (flow, _) = WriteFlow::start(RequestedState::Enabled);
    let (_, action) = flow.step(WriteEvent::StateRead(Err(ToolFailure::new("read", "m", vec![]))));
    assert_eq!(finish(action).unwrap_err().code(), "read");
}

#[test]
fn the_final_read_decides() {
    let safety = WriteSafety::new(RequestedState::Enabled, false);
    let uncertain = || ToolFailure::new("lost", "m", vec![]).with_uncertain_delivery();
    let certain = || ToolFailure::new("refused", "m", vec![]);
    let read_error = || ToolFailure::new("read", "m", vec![]);

    assert!(resolve_after_mutation(safety, Err(uncertain()), Ok(true)).unwrap().changed);
    assert_eq!(
        resolve_after_mutation(safety, Err(certain()), Ok(true)).unwrap_err().code(),
        "refused"
    );
    assert_eq!(
        resolve_after_mutation(safety, Err(certain()), Ok(false)).unwrap_err().code(),
        "refused"
    );
    assert_eq!(
        resolve_after_mutation(safety, Err(uncertain()), Ok(false)).unwrap_err().code(),
        "write_postcondition_failed"
    );
    assert_eq!(
        resolve_after_mutation(safety, Err(certain()), Err(read_error())).unwrap_err().code(),
        "refused"
    );
    assert_eq!(
        resolve_after_mutation(safety, Err(uncertain()), Err(read_error())).unwrap_err().code(),
        "read"
    );
    assert_eq!(
        resolve_after_mutation(safety, Ok(()), Err(read_error())).unwrap_err().code(),
        "read"
    );
    assert!(uncertain().mutation_delivery_is_uncertain());
}
