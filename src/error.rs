use vstd::prelude::*;

verus! {

/// Every failure a public operation of this library can report.
#[derive(Debug, PartialEq, Eq)]
pub enum SessionError {
    /// A hop of the route has no usable authentication method.
    NoAuthMethod,
    /// A bastion link names a profile that is not registered.
    MissingBastion,
    /// The bastion links lead back to a profile already on the chain.
    BastionCycle,
    /// The bastion links do not end within the hop limit.
    BastionChainTooLong,
    /// Credentials were rejected by a hop.
    AuthenticationFailed,
    /// A network or channel failure, with the transport's own message.
    Transport { message: String },
    /// Key material could not be decoded.
    KeyDecode,
    /// No live session has the given id.
    SessionNotFound,
    /// No live transfer task has the given id.
    TaskNotFound,
    /// The transfer was stopped on request.
    Cancelled,
}

impl SessionError {
    /// Whether the error comes from the profiles alone, before any network call.
    pub open spec fn is_configuration(self) -> bool {
        self is NoAuthMethod || self is MissingBastion || self is BastionCycle
            || self is BastionChainTooLong
    }

    /// The human-readable text of the error.
    pub open spec fn text(self) -> Seq<char> {
        match self {
            SessionError::NoAuthMethod => "No authentication method provided"@,
            SessionError::MissingBastion => "Bastion profile not found"@,
            SessionError::BastionCycle => "Bastion chain is cyclic"@,
            SessionError::BastionChainTooLong => "Bastion chain is too long"@,
            SessionError::AuthenticationFailed => "Authentication failed"@,
            SessionError::Transport { message } => message@,
            SessionError::KeyDecode => "Failed to parse private key"@,
            SessionError::SessionNotFound => "Session not found"@,
            SessionError::TaskNotFound => "Task not found"@,
            SessionError::Cancelled => "Download cancelled"@,
        }
    }

    /// The human-readable text of the error, as `text` states it.
    pub fn message(&self) -> (r: String)
        ensures
            r@ == self.text(),
    {
        match self {
            SessionError::NoAuthMethod => "No authentication method provided".to_owned(),
            SessionError::MissingBastion => "Bastion profile not found".to_owned(),
            SessionError::BastionCycle => "Bastion chain is cyclic".to_owned(),
            SessionError::BastionChainTooLong => "Bastion chain is too long".to_owned(),
            SessionError::AuthenticationFailed => "Authentication failed".to_owned(),
            SessionError::Transport { message } => message.clone(),
            SessionError::KeyDecode => "Failed to parse private key".to_owned(),
            SessionError::SessionNotFound => "Session not found".to_owned(),
            SessionError::TaskNotFound => "Task not found".to_owned(),
            SessionError::Cancelled => "Download cancelled".to_owned(),
        }
    }

    /// Whether the error reports an unknown session or task id.
    pub open spec fn is_not_found(self) -> bool {
        self is SessionNotFound || self is TaskNotFound
    }
}

} // verus!
