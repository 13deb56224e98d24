use sshcore::error::SessionError;
use sshcore::establish::{ConnectAction, ConnectEvent, ConnectMachine};
use sshcore::events::{close_notice, open_failure_event, SshChannelEvent, OPEN_FAILURE_CODE};

#[test]
fn two_bastions_all_succeed() {
    let (mut m, first) = ConnectMachine::start(3);
    assert!(matches!(first, ConnectAction::Dial { hop: 0 }));
    assert!(matches!(m.step(ConnectEvent::Succeeded), ConnectAction::Tunnel { via: 0, hop: 1 }));
    assert!(matches!(m.step(ConnectEvent::Succeeded), ConnectAction::Tunnel { via: 1, hop: 2 }));
    assert!(matches!(m.step(ConnectEvent::Succeeded), ConnectAction::OpenShell));
    assert!(!m.is_established());
    assert!(matches!(m.step(ConnectEvent::Succeeded), ConnectAction::Register));
    assert!(m.is_established());
    assert!(matches!(m.step(ConnectEvent::Succeeded), ConnectAction::Idle));
}

#[test]
fn direct_connection_opens_shell_after_one_hop() {
    let (mut m, first) = ConnectMachine::start(1);
    assert!(matches!(first, ConnectAction::Dial { hop: 0 }));
    assert!(matches!(m.step(ConnectEvent::Succeeded), ConnectAction::OpenShell));
    assert!(matches!(m.step(ConnectEvent::Succeeded), ConnectAction::Register));
}

#[test]
fn failed_hop_aborts_without_shell() {
    let (mut m, _) = ConnectMachine::start(3);
    assert!(matches!(m.step(ConnectEvent::Succeeded), ConnectAction::Tunnel { .. }));
    let a = m.step(ConnectEvent::Failed { error: SessionError::AuthenticationFailed });
    assert!(matches!(a, ConnectAction::Abort { error: SessionError::AuthenticationFailed }));
    assert!(matches!(m.step(ConnectEvent::Succeeded), ConnectAction::Idle));
    assert!(matches!(m.step(ConnectEvent::Succeeded), ConnectAction::Idle));
    assert!(!m.is_established());
}

#[test]
fn failed_shell_aborts() {
    let (mut m, _) = ConnectMachine::start(1);
    assert!(matches!(m.step(ConnectEvent::Succeeded), ConnectAction::OpenShell));
    let a = m.step(ConnectEvent::Failed {
        error: SessionError::Transport { message: "closed".to_string() },
    });
    assert!(matches!(a, ConnectAction::Abort { error: SessionError::Transport { .. } }));
}

#[test]
fn open_failure_uses_sentinel_code() {
    assert_eq!(OPEN_FAILURE_CODE, 255);
    assert_eq!(open_failure_event(), SshChannelEvent::OpenFailure { code: 255 });
}

#[test]
fn exit_status_raises_close_notice() {
    let id = "s1".to_string();
    let n = close_notice(&id, &SshChannelEvent::ExitStatus { exit_status: 3 }).unwrap();
    assert_eq!(n.exit_status, 3);
    assert_eq!(n.session_id, "s1");
    assert_eq!(n.message, "success");
    assert!(close_notice(&id, &SshChannelEvent::Eof).is_none());
    assert!(close_notice(&id, &SshChannelEvent::Data { data: vec![1] }).is_none());
}

#[test]
fn error_messages() {
    assert_eq!(SessionError::SessionNotFound.message(), "Session not found");
    assert_eq!(SessionError::TaskNotFound.message(), "Task not found");
    assert_eq!(SessionError::NoAuthMethod.message(), "No authentication method provided");
    assert_eq!(
        SessionError::Transport { message: "reset".to_string() }.message(),
        "reset"
    );
}
