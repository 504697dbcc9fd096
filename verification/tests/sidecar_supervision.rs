use argus::settings::sidecars::error::Error;
use argus::settings::sidecars::state::{
    event_topic, shutdown_command, CommandEvent, SidecarsState,
};

fn s(x: &str) -> String {
    x.to_string()
}

#[test]
fn test_spawn_sidecar_twice_fails() {
    let mut state = SidecarsState::new();

    assert!(state.spawn_sidecar(&s("powsybl")).is_ok());
    let second = state.spawn_sidecar(&s("powsybl"));
    assert!(matches!(second, Err(Error::SidecarAlreadyStarted(_))));
    assert_eq!(state.sidecars.len(), 1);
}

#[test]
fn test_despawn_missing_sidecar_fails() {
    let mut state = SidecarsState::new();

    let r = state.despawn_sidecar(&s("powsybl"));
    assert!(matches!(r, Err(Error::SidecarNotFound(_))));
}

#[test]
fn test_spawn_then_despawn() {
    let mut state = SidecarsState::new();

    assert!(state.spawn_sidecar(&s("powsybl")).is_ok());
    assert!(state.despawn_sidecar(&s("powsybl")).is_ok());
    assert_eq!(state.sidecars.len(), 0);

    // A despawned sidecar can be spawned again.
    assert!(state.spawn_sidecar(&s("powsybl")).is_ok());
}

#[test]
fn test_shutdown_command_text() {
    assert_eq!(shutdown_command(), "sidecar shutdown\n");
}

#[test]
fn test_event_topics() {
    assert_eq!(
        event_topic(&CommandEvent::Stdout(b"line".to_vec())),
        Some(s("sidecar-stdout"))
    );
    assert_eq!(
        event_topic(&CommandEvent::Stderr(b"line".to_vec())),
        Some(s("sidecar-stderr"))
    );
    assert_eq!(
        event_topic(&CommandEvent::Failure(s("boom"))),
        Some(s("sidecar-error"))
    );
    assert_eq!(
        event_topic(&CommandEvent::Terminated { code: Some(0), signal: None }),
        Some(s("sidecar-terminated"))
    );
    assert_eq!(event_topic(&CommandEvent::Other), None);
}
