use sshcore::error::SessionError;
use sshcore::establish::{ConnectAction, ConnectEvent, ConnectMachine};
use sshcore::events::PortForwardConfig;
use sshcore::profile::SshConfig;
use sshcore::registry::SessionRegistry;
use sshcore::route::plan_route;
use sshcore::session::SshSession;
use sshcore::table::IdTable;

type Registry = SessionRegistry<u32, Vec<u8>, &'static str, u8>;

fn session(id: &str) -> SshSession<u32, Vec<u8>, &'static str> {
    SshSession::new(id.to_string(), "cfg".to_string(), 7, Vec::new())
}

fn forward(port: u16) -> PortForwardConfig {
    PortForwardConfig {
        local_host: "127.0.0.1".to_string(),
        local_port: port,
        remote_host: "db".to_string(),
        remote_port: 5432,
    }
}

#[test]
fn close_is_idempotent() {
    let mut r: Registry = SessionRegistry::new();
    let id = "s".to_string();
    r.insert(session("s"));
    r.cache_sftp(&id, 1).unwrap();
    assert!(r.close(&id).is_some());
    assert!(!r.contains(&id));
    assert!(r.close(&id).is_none());
    assert!(r.close(&"never".to_string()).is_none());
    assert!(matches!(r.sftp(&id), Err(SessionError::SessionNotFound)));
}

#[test]
fn send_on_closed_writer_is_noop() {
    let mut r: Registry = SessionRegistry::new();
    let id = "s".to_string();
    r.insert(session("s"));
    let w = r.take_writer(&id).unwrap().unwrap();
    drop(w);
    assert!(matches!(r.take_writer(&id), Ok(None)));
    assert!(matches!(r.take_writer(&id), Ok(None)));
}

#[test]
fn writer_take_and_restore() {
    let mut r: Registry = SessionRegistry::new();
    let id = "s".to_string();
    r.insert(session("s"));
    let mut w = r.take_writer(&id).unwrap().unwrap();
    w.extend_from_slice(b"ls\n");
    assert!(r.restore_writer(&id, w).is_none());
    assert_eq!(r.take_writer(&id).unwrap().unwrap(), b"ls\n".to_vec());
}

#[test]
fn restore_after_close_hands_writer_back() {
    let mut r: Registry = SessionRegistry::new();
    let id = "s".to_string();
    r.insert(session("s"));
    let w = r.take_writer(&id).unwrap().unwrap();
    r.close(&id);
    assert_eq!(r.restore_writer(&id, w), Some(Vec::new()));
}

#[test]
fn unknown_session_is_not_found() {
    let mut r: Registry = SessionRegistry::new();
    let id = "missing".to_string();
    assert!(matches!(r.take_writer(&id), Err(SessionError::SessionNotFound)));
    assert!(matches!(r.handle(&id), Err(SessionError::SessionNotFound)));
    assert!(matches!(r.list_port_forwards(&id), Err(SessionError::SessionNotFound)));
    assert!(matches!(r.close_port_forward(&id, 1), Err(SessionError::SessionNotFound)));
    assert!(matches!(
        r.local_port_forward(&id, 1, "c", &forward(8080)),
        Err(SessionError::SessionNotFound)
    ));
    assert!(matches!(r.cache_sftp(&id, 1), Err(SessionError::SessionNotFound)));
}

#[test]
fn open_then_close_forward_removes_it() {
    let mut r: Registry = SessionRegistry::new();
    let id = "s".to_string();
    r.insert(session("s"));
    let res = r.local_port_forward(&id, 4, "c4", &forward(8080)).unwrap();
    assert_eq!(res.channel_id, 4);
    assert_eq!(res.local_host, "127.0.0.1");
    assert_eq!(res.local_port, 8080);
    assert_eq!(r.list_port_forwards(&id).unwrap(), vec![4]);
    assert_eq!(r.close_port_forward(&id, 4).unwrap(), Some("c4"));
    assert!(r.list_port_forwards(&id).unwrap().is_empty());
    assert_eq!(r.close_port_forward(&id, 4).unwrap(), None);
}

#[test]
fn two_forwards_close_one_leaves_other() {
    let mut r: Registry = SessionRegistry::new();
    let id = "s".to_string();
    r.insert(session("s"));
    r.local_port_forward(&id, 1, "a", &forward(1000)).unwrap();
    r.local_port_forward(&id, 2, "b", &forward(2000)).unwrap();
    let mut ids = r.list_port_forwards(&id).unwrap();
    ids.sort();
    assert_eq!(ids, vec![1, 2]);
    r.close_port_forward(&id, 1).unwrap();
    assert_eq!(r.list_port_forwards(&id).unwrap(), vec![2]);
}

#[test]
fn duplicate_session_id_replaces() {
    let mut r: Registry = SessionRegistry::new();
    let id = "s".to_string();
    r.insert(session("s"));
    r.cache_sftp(&id, 9).unwrap();
    let old = r.insert(SshSession::new("s".to_string(), "other".to_string(), 8, Vec::new()));
    assert_eq!(old.unwrap().config_id(), "cfg");
    assert_eq!(*r.handle(&id).unwrap(), 8);
    assert!(matches!(r.sftp(&id), Ok(None)));
}

#[test]
fn sftp_cache_per_session() {
    let mut r: Registry = SessionRegistry::new();
    let id = "s".to_string();
    r.insert(session("s"));
    assert!(matches!(r.sftp(&id), Ok(None)));
    r.cache_sftp(&id, 5).unwrap();
    assert_eq!(r.sftp(&id).unwrap(), Some(&5));
}

#[test]
fn round_trip_password_profile() {
    let mut target = SshConfig::default();
    target.host = "h".to_string();
    target.port = 22;
    target.username = "u".to_string();
    target.password = Some("p".to_string());
    let profiles: IdTable<SshConfig> = IdTable::new();
    let plan = plan_route(&profiles, &target).unwrap();
    assert_eq!(plan.len(), 1);
    assert_eq!(plan[0].host, "h");
    assert_eq!(plan[0].port, 22);

    let (mut m, first) = ConnectMachine::start(plan.len());
    assert!(matches!(first, ConnectAction::Dial { hop: 0 }));
    assert!(matches!(m.step(ConnectEvent::Succeeded), ConnectAction::OpenShell));
    assert!(matches!(m.step(ConnectEvent::Succeeded), ConnectAction::Register));

    let mut r: Registry = SessionRegistry::new();
    let sid = "session-1".to_string();
    r.insert(SshSession::new(sid.clone(), target.config_id.clone(), 1, Vec::new()));
    assert_eq!(r.handle(&sid).map(|h| *h), Ok(1));

    let mut w = r.take_writer(&sid).unwrap().unwrap();
    w.extend_from_slice(b"ls\n");
    assert!(r.restore_writer(&sid, w).is_none());

    assert!(r.close(&sid).is_some());
    assert!(r.close(&sid).is_none());
}
