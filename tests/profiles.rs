use sshcore::error::SessionError;
use sshcore::profile::{non_empty, AuthMethod, SshConfig};
use sshcore::route::{bastion_chain, plan_route, sync_config, MAX_BASTION_HOPS};
use sshcore::table::IdTable;

fn profile(id: &str, host: &str, password: Option<&str>, bastion: Option<&str>) -> SshConfig {
    let mut c = SshConfig::default();
    c.config_id = id.to_string();
    c.host = host.to_string();
    c.username = "u".to_string();
    c.password = password.map(|p| p.to_string());
    c.bastion_config_id = bastion.map(|b| b.to_string());
    c
}

fn registry(profiles: Vec<SshConfig>) -> IdTable<SshConfig> {
    let mut t = IdTable::new();
    let entries: Vec<(String, SshConfig)> =
        profiles.into_iter().map(|p| (p.config_id.clone(), p)).collect();
    sync_config(&mut t, &entries);
    t
}

#[test]
fn default_profile_values() {
    let c = SshConfig::default();
    assert_eq!(c.config_id, "");
    assert_eq!(c.host, "127.0.0.1");
    assert_eq!(c.port, 22);
    assert_eq!(c.username, "root");
    assert!(c.password.is_none());
    assert!(c.private_key_data.is_none());
    assert!(c.private_key_path.is_none());
    assert!(c.key_password.is_none());
    assert_eq!(c.timeout, 30);
    assert_eq!(c.keepalive_interval, 30);
    assert!(c.bastion_config_id.is_none());
}

#[test]
fn non_empty_treats_empty_text_as_absent() {
    let empty = String::new();
    let text = "abc".to_string();
    assert_eq!(non_empty(None), None);
    assert_eq!(non_empty(Some(&empty)), None);
    assert_eq!(non_empty(Some(&text)), Some("abc"));
}

#[test]
fn auth_precedence_key_content_first() {
    let mut c = profile("a", "h", Some("pw"), None);
    c.private_key_path = Some("/k".to_string());
    c.private_key_data = Some("KEY".to_string());
    c.key_password = Some("pass".to_string());
    match c.resolve_auth() {
        Ok(AuthMethod::KeyData { key, passphrase }) => {
            assert_eq!(key, "KEY");
            assert_eq!(passphrase, Some("pass".to_string()));
        }
        _ => panic!("expected key content"),
    }
    c.private_key_data = Some(String::new());
    match c.resolve_auth() {
        Ok(AuthMethod::KeyPath { path, .. }) => assert_eq!(path, "/k"),
        _ => panic!("expected key path"),
    }
    c.private_key_path = None;
    match c.resolve_auth() {
        Ok(AuthMethod::Password { password }) => assert_eq!(password, "pw"),
        _ => panic!("expected password"),
    }
}

#[test]
fn no_auth_method_is_configuration_error() {
    let c = profile("a", "h", Some(""), None);
    assert!(matches!(c.resolve_auth(), Err(SessionError::NoAuthMethod)));
    let reg = registry(vec![]);
    assert!(matches!(plan_route(&reg, &c), Err(SessionError::NoAuthMethod)));
}

#[test]
fn sync_overwrites_same_id() {
    let mut t = IdTable::new();
    sync_config(&mut t, &vec![("a".to_string(), profile("a", "one", Some("p"), None))]);
    sync_config(
        &mut t,
        &vec![
            ("a".to_string(), profile("a", "two", Some("p"), None)),
            ("b".to_string(), profile("b", "three", Some("p"), None)),
        ],
    );
    assert_eq!(t.len(), 2);
    assert_eq!(t.get(&"a".to_string()).unwrap().host, "two");
    assert_eq!(t.get(&"b".to_string()).unwrap().host, "three");
}

#[test]
fn chain_without_bastion_is_target_alone() {
    let reg = registry(vec![]);
    let target = profile("t", "target", Some("p"), Some(""));
    let chain = bastion_chain(&reg, &target).unwrap();
    assert_eq!(chain.len(), 1);
    assert_eq!(chain[0].host, "target");
}

#[test]
fn chain_follows_links_outward() {
    let reg = registry(vec![
        profile("b1", "inner", Some("p"), Some("b2")),
        profile("b2", "outer", Some("p"), None),
    ]);
    let target = profile("t", "target", Some("p"), Some("b1"));
    let chain = bastion_chain(&reg, &target).unwrap();
    let hosts: Vec<&str> = chain.iter().map(|c| c.host.as_str()).collect();
    assert_eq!(hosts, vec!["target", "inner", "outer"]);
}

#[test]
fn plan_starts_at_outermost_hop() {
    let reg = registry(vec![
        profile("b1", "inner", Some("pw-inner"), Some("b2")),
        profile("b2", "outer", Some("pw-outer"), None),
    ]);
    let target = profile("t", "target", Some("pw-target"), Some("b1"));
    let plan = plan_route(&reg, &target).unwrap();
    let hosts: Vec<&str> = plan.iter().map(|h| h.host.as_str()).collect();
    assert_eq!(hosts, vec!["outer", "inner", "target"]);
    match &plan[0].auth {
        AuthMethod::Password { password } => assert_eq!(password, "pw-outer"),
        _ => panic!("expected password"),
    }
}

#[test]
fn missing_bastion_profile_is_reported() {
    let reg = registry(vec![]);
    let target = profile("t", "target", Some("p"), Some("nowhere"));
    assert!(matches!(bastion_chain(&reg, &target), Err(SessionError::MissingBastion)));
    assert!(matches!(plan_route(&reg, &target), Err(SessionError::MissingBastion)));
}

#[test]
fn cyclic_bastions_are_refused() {
    let reg = registry(vec![
        profile("x", "x", Some("p"), Some("y")),
        profile("y", "y", Some("p"), Some("x")),
    ]);
    let target = profile("t", "target", Some("p"), Some("x"));
    assert!(matches!(bastion_chain(&reg, &target), Err(SessionError::BastionCycle)));
}

#[test]
fn self_linked_bastion_is_a_cycle() {
    let reg = registry(vec![profile("x", "x", Some("p"), Some("x"))]);
    let target = profile("t", "target", Some("p"), Some("x"));
    assert!(matches!(plan_route(&reg, &target), Err(SessionError::BastionCycle)));
}

#[test]
fn chain_beyond_hop_limit_is_refused() {
    let mut profiles = Vec::new();
    for i in 0..=MAX_BASTION_HOPS {
        let next = if i < MAX_BASTION_HOPS { Some(format!("b{}", i + 1)) } else { None };
        profiles.push(profile(&format!("b{}", i), &format!("h{}", i), Some("p"), next.as_deref()));
    }
    let reg = registry(profiles);
    let target = profile("t", "target", Some("p"), Some("b0"));
    assert!(matches!(bastion_chain(&reg, &target), Err(SessionError::BastionChainTooLong)));
}

#[test]
fn longest_allowed_chain_resolves() {
    let mut profiles = Vec::new();
    for i in 0..MAX_BASTION_HOPS {
        let next = if i + 1 < MAX_BASTION_HOPS { Some(format!("b{}", i + 1)) } else { None };
        profiles.push(profile(&format!("b{}", i), &format!("h{}", i), Some("p"), next.as_deref()));
    }
    let reg = registry(profiles);
    let target = profile("t", "target", Some("p"), Some("b0"));
    assert_eq!(bastion_chain(&reg, &target).unwrap().len(), MAX_BASTION_HOPS + 1);
}

#[test]
fn bastion_without_auth_fails_plan() {
    let reg = registry(vec![profile("b", "bastion", None, None)]);
    let target = profile("t", "target", Some("p"), Some("b"));
    assert!(matches!(plan_route(&reg, &target), Err(SessionError::NoAuthMethod)));
}
