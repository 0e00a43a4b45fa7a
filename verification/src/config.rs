//! What a connection request consists of.

use vstd::prelude::*;
use crate::error::NetError;

verus! {

/// What a request without a host is told.
pub const MSG_NO_HOST: &'static str = "host must not be empty";

/// What a request without a user name is told.
pub const MSG_NO_USER: &'static str = "user name must not be empty";

/// How the local identity is proved.
#[derive(Debug, Clone)]
pub enum Auth {
    Password { username: String, password: String },
    KeyFile {
        username: String,
        private_key: String,
        passphrase: Option<String>,
        public_key: Option<String>,
    },
}

/// How strictly the host's key is checked.
#[derive(Debug, Clone, Copy, PartialEq, Eq, Structural)]
pub enum HostKeyPolicy {
    /// A key that is unknown or differs from the stored one is rejected.
    Strict,
    /// An unknown key is accepted and stored; a different one is rejected.
    AcceptNew,
    /// The key is not checked at all, and the store is left alone.
    InsecureIgnore,
}

/// One connection request.
#[derive(Debug, Clone)]
pub struct SshConfig {
    pub host: String,
    pub port: u16,
    pub auth: Auth,
    pub known_hosts: Option<String>,
    pub hostkey_policy: HostKeyPolicy,
    pub timeout_ms: Option<u64>,
}

/// The characters of a string that may be missing.
pub open spec fn opt_view(s: Option<String>) -> Option<Seq<char>> {
    match s {
        Some(t) => Some(t@),
        None => None,
    }
}

/// What a credential holds, as plain sequences.
pub enum AuthView {
    Password { username: Seq<char>, password: Seq<char> },
    KeyFile {
        username: Seq<char>,
        private_key: Seq<char>,
        passphrase: Option<Seq<char>>,
        public_key: Option<Seq<char>>,
    },
}

impl View for Auth {
    type V = AuthView;

    open spec fn view(&self) -> AuthView {
        match self {
            Auth::Password { username, password } => AuthView::Password {
                username: username@,
                password: password@,
            },
            Auth::KeyFile { username, private_key, passphrase, public_key } => AuthView::KeyFile {
                username: username@,
                private_key: private_key@,
                passphrase: opt_view(*passphrase),
                public_key: opt_view(*public_key),
            },
        }
    }
}

/// What a connection request holds, as plain sequences.
pub struct ConfigView {
    pub host: Seq<char>,
    pub port: u16,
    pub auth: AuthView,
    pub known_hosts: Option<Seq<char>>,
    pub hostkey_policy: HostKeyPolicy,
    pub timeout_ms: Option<u64>,
}

impl View for SshConfig {
    type V = ConfigView;

    open spec fn view(&self) -> ConfigView {
        ConfigView {
            host: self.host@,
            port: self.port,
            auth: self.auth@,
            known_hosts: opt_view(self.known_hosts),
            hostkey_policy: self.hostkey_policy,
            timeout_ms: self.timeout_ms,
        }
    }
}

impl Auth {
    /// The name of the user who is to be authenticated.
    pub open spec fn username_view(&self) -> Seq<char> {
        match self {
            Auth::Password { username, .. } => username@,
            Auth::KeyFile { username, .. } => username@,
        }
    }

    /// The name of the user who is to be authenticated.
    pub fn username(&self) -> (name: &String)
        ensures
            name@ == self.username_view(),
    {
        match self {
            Auth::Password { username, .. } => username,
            Auth::KeyFile { username, .. } => username,
        }
    }
}

impl SshConfig {
    /// Whether the request names a host and a user.
    pub open spec fn is_valid(&self) -> bool {
        self.host@.len() > 0 && self.auth.username_view().len() > 0
    }

    /// Checks the request before anything is sent: a request without a host
    /// or without a user name is refused as an invalid argument.
    pub fn validate(&self) -> (r: Result<(), NetError>)
        ensures
            r is Ok <==> self.is_valid(),
            self.host@.len() == 0 ==> (r matches Err(NetError::Invalid(m)) && m@ == MSG_NO_HOST@),
            self.host@.len() > 0 && !self.is_valid() ==> (r matches Err(NetError::Invalid(m)) && m@
                == MSG_NO_USER@),
    {
        if self.host.as_str().is_empty() {
            return Err(NetError::Invalid(MSG_NO_HOST.to_owned()));
        }
        if self.auth.username().as_str().is_empty() {
            return Err(NetError::Invalid(MSG_NO_USER.to_owned()));
        }
        Ok(())
    }
}

} // verus!
