use vstd::prelude::*;

verus! {

/// A named connection profile.
///
/// Optional text fields count as absent when they hold the empty string.
pub struct SshConfig {
    /// Id of the profile, chosen by the client.
    pub config_id: String,
    pub host: String,
    pub port: u16,
    pub username: String,
    pub password: Option<String>,
    /// Path of a private key file on local storage.
    pub private_key_path: Option<String>,
    /// Private key content; takes precedence over the path.
    pub private_key_data: Option<String>,
    /// Passphrase of an encrypted private key.
    pub key_password: Option<String>,
    /// Connect timeout in seconds.
    pub timeout: u64,
    /// Keepalive interval in seconds.
    pub keepalive_interval: u64,
    /// Profile id of the jump host this profile is reached through.
    pub bastion_config_id: Option<String>,
}

/// How one hop authenticates, after the precedence rule was applied.
pub enum AuthMethod {
    KeyData { key: String, passphrase: Option<String> },
    KeyPath { path: String, passphrase: Option<String> },
    Password { password: String },
}

/// The text of an optional field when it is present and not empty.
pub open spec fn given(o: Option<String>) -> bool {
    o is Some && o->0@.len() > 0
}

/// The authentication method of a profile: key content, then key path, then
/// password; `None` when none of them is given.
pub open spec fn auth_of(c: SshConfig) -> Option<AuthMethod> {
    if given(c.private_key_data) {
        Some(AuthMethod::KeyData { key: c.private_key_data->0, passphrase: c.key_password })
    } else if given(c.private_key_path) {
        Some(AuthMethod::KeyPath { path: c.private_key_path->0, passphrase: c.key_password })
    } else if given(c.password) {
        Some(AuthMethod::Password { password: c.password->0 })
    } else {
        None
    }
}

/// The profile id that a profile's bastion link names, if it names one.
pub open spec fn link_of(c: SshConfig) -> Option<Seq<char>> {
    if given(c.bastion_config_id) {
        Some(c.bastion_config_id->0@)
    } else {
        None
    }
}

/// The text of `opt` when it is present and not empty.
pub fn non_empty(opt: Option<&String>) -> (r: Option<&str>)
    ensures
        r is Some <==> (opt is Some && opt->0@.len() > 0),
        r is Some ==> r->0@ == opt->0@,
{
    match opt {
        Some(s) => {
            let t = s.as_str();
            if t.is_empty() {
                None
            } else {
                Some(t)
            }
        },
        None => None,
    }
}

/// A copy of an optional string.
pub fn copy_text(o: &Option<String>) -> (r: Option<String>)
    ensures
        r == *o,
{
    match o {
        Some(s) => Some(s.clone()),
        None => None,
    }
}

fn is_given(o: &Option<String>) -> (r: bool)
    ensures
        r == given(*o),
{
    non_empty(o.as_ref()).is_some()
}

impl SshConfig {
    /// The defaults of a new profile: local host, port 22, user root,
    /// no credentials, 30 seconds of timeout and keepalive, no bastion.
    pub fn default() -> (r: SshConfig)
        ensures
            r.config_id@ == Seq::<char>::empty(),
            r.host@ == "127.0.0.1"@,
            r.port == 22,
            r.username@ == "root"@,
            r.password is None,
            r.private_key_path is None,
            r.private_key_data is None,
            r.key_password is None,
            r.timeout == 30,
            r.keepalive_interval == 30,
            r.bastion_config_id is None,
    {
        SshConfig {
            config_id: String::new(),
            host: "127.0.0.1".to_owned(),
            port: 22,
            username: "root".to_owned(),
            password: None,
            private_key_path: None,
            private_key_data: None,
            key_password: None,
            timeout: 30,
            keepalive_interval: 30,
            bastion_config_id: None,
        }
    }

    /// A field-for-field copy.
    pub fn copy(&self) -> (r: SshConfig)
        ensures
            r == *self,
    {
        SshConfig {
            config_id: self.config_id.clone(),
            host: self.host.clone(),
            port: self.port,
            username: self.username.clone(),
            password: copy_text(&self.password),
            private_key_path: copy_text(&self.private_key_path),
            private_key_data: copy_text(&self.private_key_data),
            key_password: copy_text(&self.key_password),
            timeout: self.timeout,
            keepalive_interval: self.keepalive_interval,
            bastion_config_id: copy_text(&self.bastion_config_id),
        }
    }

    /// The authentication method of this profile, by the precedence
    /// key content > key path > password.
    pub fn resolve_auth(&self) -> (r: Result<AuthMethod, crate::error::SessionError>)
        ensures
            match auth_of(*self) {
                Some(a) => r == Ok::<AuthMethod, crate::error::SessionError>(a),
                None => r == Err::<AuthMethod, crate::error::SessionError>(
                    crate::error::SessionError::NoAuthMethod,
                ),
            },
    {
        if is_given(&self.private_key_data) {
            Ok(AuthMethod::KeyData {
                key: self.private_key_data.as_ref().unwrap().clone(),
                passphrase: copy_text(&self.key_password),
            })
        } else if is_given(&self.private_key_path) {
            Ok(AuthMethod::KeyPath {
                path: self.private_key_path.as_ref().unwrap().clone(),
                passphrase: copy_text(&self.key_password),
            })
        } else if is_given(&self.password) {
            Ok(AuthMethod::Password { password: self.password.as_ref().unwrap().clone() })
        } else {
            Err(crate::error::SessionError::NoAuthMethod)
        }
    }

    /// The profile id this profile's bastion link names, if any.
    pub fn bastion_link(&self) -> (r: Option<&str>)
        ensures
            r is Some <==> link_of(*self) is Some,
            r is Some ==> r->0@ == link_of(*self)->0,
    {
        non_empty(self.bastion_config_id.as_ref())
    }
}

} // verus!
