//! How an authentication attempt ended.

use vstd::prelude::*;
use crate::config::Auth;
use crate::error::{failure_code, AuthError, FailureCode, SESSION_FILE};

verus! {

/// What the transport reported of one authentication attempt.
#[derive(Clone, Copy, Debug, PartialEq, Eq, Structural)]
pub struct AuthReport {
    /// Whether the private key file could be read. Of no meaning for a
    /// password.
    pub key_readable: bool,
    /// The failure that the attempt reported, if any.
    pub failure: Option<FailureCode>,
    /// The session's authenticated flag after the attempt.
    pub authenticated: bool,
}

impl AuthReport {
    /// The report of an attempt: whether the key file could be read, the
    /// failure of the transport if there was one, and the authenticated
    /// flag.
    pub fn new(key_readable: bool, failure: Option<&ssh2::Error>, authenticated: bool) -> (report:
        AuthReport)
        ensures
            report.key_readable == key_readable,
            report.authenticated == authenticated,
            report.failure is Some <==> failure is Some,
    {
        let code = match failure {
            Some(e) => Some(failure_code(e)),
            None => None,
        };
        AuthReport { key_readable, failure: code, authenticated }
    }
}

/// How an attempt without a key ended: a reported failure is a rejection,
/// and otherwise the authenticated flag alone decides.
pub open spec fn server_verdict(report: AuthReport) -> Result<(), AuthError> {
    if report.failure is None && report.authenticated {
        Ok(())
    } else {
        Err(AuthError::Rejected)
    }
}

/// How an attempt with the credential `auth` ended.
///
/// A key file that cannot be read makes the key unreadable, whatever else was
/// reported. A key that could not be opened was refused its passphrase where
/// one was given, and is unreadable where none was. Everything else is the
/// server's verdict.
pub open spec fn auth_outcome_spec(auth: Auth, report: AuthReport) -> Result<(), AuthError> {
    match auth {
        Auth::Password { .. } => server_verdict(report),
        Auth::KeyFile { passphrase, .. } => if !report.key_readable {
            Err(AuthError::KeyUnreadable)
        } else if report.failure == Some(FailureCode::Session(SESSION_FILE)) {
            if passphrase is Some {
                Err(AuthError::PassphraseRejected)
            } else {
                Err(AuthError::KeyUnreadable)
            }
        } else {
            server_verdict(report)
        },
    }
}

fn verdict(report: AuthReport) -> (r: Result<(), AuthError>)
    ensures
        r == server_verdict(report),
{
    if report.failure.is_none() && report.authenticated {
        Ok(())
    } else {
        Err(AuthError::Rejected)
    }
}

/// How an attempt with the credential `auth` ended.
pub fn auth_outcome(auth: &Auth, report: AuthReport) -> (r: Result<(), AuthError>)
    ensures
        r == auth_outcome_spec(*auth, report),
{
    match auth {
        Auth::Password { .. } => verdict(report),
        Auth::KeyFile { passphrase, .. } => {
            if !report.key_readable {
                return Err(AuthError::KeyUnreadable);
            }
            match report.failure {
                Some(FailureCode::Session(code)) => {
                    if code == SESSION_FILE {
                        if passphrase.is_some() {
                            return Err(AuthError::PassphraseRejected);
                        } else {
                            return Err(AuthError::KeyUnreadable);
                        }
                    }
                },
                _ => {},
            }
            verdict(report)
        },
    }
}

/// A key file that cannot be read is reported as unreadable, never as a
/// rejection by the server, whatever the server said.
pub proof fn lemma_unreadable_key_is_never_rejected(auth: Auth, report: AuthReport)
    requires
        auth is KeyFile,
        !report.key_readable,
    ensures
        auth_outcome_spec(auth, report) == Err::<(), AuthError>(AuthError::KeyUnreadable),
        auth_outcome_spec(auth, report) != Err::<(), AuthError>(AuthError::Rejected),
{
}

/// Success is reported only where the authenticated flag is set: an attempt
/// that claims success without it is a rejection.
pub proof fn lemma_flag_decides(auth: Auth, report: AuthReport)
    ensures
        auth_outcome_spec(auth, report) is Ok ==> report.authenticated,
        !report.authenticated && report.failure is None && (auth is KeyFile
            ==> report.key_readable) ==> auth_outcome_spec(auth, report) == Err::<(), AuthError>(
            AuthError::Rejected,
        ),
{
}

} // verus!
