//! Whole connection attempts, played against a host whose answers are
//! written down beforehand.
//!
//! An attempt runs the stages of a connection from the first to the last and
//! notes what would have been done to the known-hosts file and whether the
//! credential would have been sent.

use vstd::prelude::*;
use crate::auth::{auth_outcome_spec, AuthReport};
use crate::config::{HostKeyPolicy, SshConfig, MSG_NO_HOST, MSG_NO_USER};
use crate::connect::{
    decision_on, step, wanted_record, Action, Event, Stage, MSG_NO_KEY, MSG_STORE_UNREADABLE,
    MSG_STORE_UNWRITABLE,
};
use crate::error::{AuthError, HostKeyError, NetError};
use crate::hostkey::{lemma_accept_new_records_unknown_host, lemma_mismatch_always_rejects, Decision};
use crate::known_hosts::{
    appended_spec, is_storable, lemma_append_adds_the_record, parse_spec, HostKey,
};

verus! {

/// How opening the transport ends.
pub enum Opened {
    /// The TCP connection fails.
    TcpFails(std::io::Error),
    /// The handshake fails.
    HandshakeFails(ssh2::Error),
    /// The handshake succeeds, and the host offers `key`, if the transport
    /// has one to show.
    Connects { key: Option<HostKey> },
}

/// What a host and its surroundings answer to everything an attempt may
/// ask.
pub struct Script {
    /// How opening the transport ends.
    pub opened: Opened,
    /// The text of the known-hosts file; nothing where it cannot be read.
    pub store: Option<String>,
    /// Whether the known-hosts file can be written.
    pub store_writable: bool,
    /// How the authentication attempt ends.
    pub report: AuthReport,
}

/// What came of an attempt.
pub struct Attempt {
    /// Whether the session is ready, or why it is not.
    pub outcome: Result<(), NetError>,
    /// Whether the known-hosts file was read.
    pub store_read: bool,
    /// What was written at the end of the known-hosts file, if anything.
    pub written: Option<String>,
    /// Whether the credential was sent.
    pub credential_sent: bool,
}

/// The attempt has ended before the known-hosts file was touched and before
/// the credential was sent.
pub open spec fn ends_untouched(a: Attempt) -> bool {
    a.outcome is Err && !a.store_read && a.written is None && !a.credential_sent
}

/// The outcome is an invalid-argument failure that says `msg`.
pub open spec fn is_invalid(outcome: Result<(), NetError>, msg: Seq<char>) -> bool {
    outcome matches Err(NetError::Invalid(m)) && m@ == msg
}

/// The outcome is the rejection of the key of `host` for `reason`.
pub open spec fn is_rejected(outcome: Result<(), NetError>, host: Seq<char>, reason: HostKeyError)
    -> bool {
    outcome matches Err(NetError::HostKey { host: h, reason: r }) && h@ == host && r == reason
}

/// The outcome of an attempt that got as far as sending the credential.
pub open spec fn is_authenticated_as(
    outcome: Result<(), NetError>,
    cfg: SshConfig,
    report: AuthReport,
) -> bool {
    match auth_outcome_spec(cfg.auth, report) {
        Ok(_) => outcome is Ok,
        Err(e) => outcome == Err::<(), NetError>(NetError::Auth(e)),
    }
}

/// Whether `a` is what comes of the request `cfg` against `script`.
///
/// A request that is not valid ends before anything is opened. A transport
/// that does not open ends the attempt. Without a check the credential is
/// sent at once. With a check, a host without a key to show and a request
/// without a known-hosts file end the attempt before the file is touched;
/// otherwise the file is read, the key is decided on, and only a key that
/// is trusted, and written where it is new, lets the credential be sent.
pub open spec fn attempt_spec(cfg: SshConfig, script: Script, a: Attempt) -> bool {
    if cfg.host@.len() == 0 {
        is_invalid(a.outcome, MSG_NO_HOST@) && ends_untouched(a)
    } else if cfg.auth.username_view().len() == 0 {
        is_invalid(a.outcome, MSG_NO_USER@) && ends_untouched(a)
    } else {
        match script.opened {
            Opened::TcpFails(e) => a.outcome == Err::<(), NetError>(NetError::Tcp(e))
                && ends_untouched(a),
            Opened::HandshakeFails(e) => a.outcome == Err::<(), NetError>(NetError::Ssh(e))
                && ends_untouched(a),
            Opened::Connects { key } => if cfg.hostkey_policy == HostKeyPolicy::InsecureIgnore {
                &&& is_authenticated_as(a.outcome, cfg, script.report)
                &&& !a.store_read
                &&& a.written is None
                &&& a.credential_sent
            } else {
                match key {
                    None => is_invalid(a.outcome, MSG_NO_KEY@) && ends_untouched(a),
                    Some(k) => if cfg.known_hosts is None {
                        is_rejected(a.outcome, cfg.host@, HostKeyError::Untrusted)
                            && ends_untouched(a)
                    } else {
                        a.store_read && checked_spec(cfg, script, k, a)
                    },
                }
            },
        }
    }
}

/// Whether `a` is what comes of the request once the known-hosts file was
/// asked for, with `key` offered.
pub open spec fn checked_spec(cfg: SshConfig, script: Script, key: HostKey, a: Attempt) -> bool {
    match script.store {
        None => is_invalid(a.outcome, MSG_STORE_UNREADABLE@) && a.written is None
            && !a.credential_sent,
        Some(text) => match decision_on(cfg, key, text@) {
            Decision::Trust => {
                &&& is_authenticated_as(a.outcome, cfg, script.report)
                &&& a.written is None
                &&& a.credential_sent
            },
            Decision::Reject(reason) => {
                &&& is_rejected(a.outcome, cfg.host@, reason)
                &&& a.written is None
                &&& !a.credential_sent
            },
            Decision::TrustAndPersist => if script.store_writable {
                &&& is_authenticated_as(a.outcome, cfg, script.report)
                &&& a.written matches Some(line)
                &&& line@ == appended_spec(text@, wanted_record(cfg, key))
                &&& a.credential_sent
            } else {
                &&& is_invalid(a.outcome, MSG_STORE_UNWRITABLE@)
                &&& a.written is None
                &&& !a.credential_sent
            },
        },
    }
}

fn authenticate(
    cfg: &SshConfig,
    report: AuthReport,
    store_read: bool,
    written: Option<String>,
) -> (a: Attempt)
    ensures
        is_authenticated_as(a.outcome, *cfg, report),
        a.store_read == store_read,
        a.written == written,
        a.credential_sent,
{
    let (_, action) = step(cfg, Stage::Authenticating, Event::AuthFinished { report });
    let outcome = match action {
        Action::Fail { error } => Err(error),
        _ => Ok(()),
    };
    Attempt { outcome, store_read, written, credential_sent: true }
}

fn ended(error: NetError, store_read: bool) -> (a: Attempt)
    ensures
        a.outcome == Err::<(), NetError>(error),
        a.store_read == store_read,
        a.written is None,
        !a.credential_sent,
{
    Attempt { outcome: Err(error), store_read, written: None, credential_sent: false }
}

/// Plays the request `cfg` against `script` from the first stage to the
/// last.
pub fn attempt(cfg: &SshConfig, script: Script) -> (a: Attempt)
    ensures
        attempt_spec(*cfg, script, a),
{
    let (stage, action) = step(cfg, Stage::Start, Event::Begin);
    match action {
        Action::Fail { error } => {
            return ended(error, false);
        },
        _ => {},
    }
    let event = match script.opened {
        Opened::TcpFails(e) => Event::TcpFailed(e),
        Opened::HandshakeFails(e) => Event::HandshakeFailed(e),
        Opened::Connects { key } => Event::Connected { key },
    };
    let (stage, action) = step(cfg, stage, event);
    match action {
        Action::Fail { error } => {
            return ended(error, false);
        },
        Action::Authenticate => {
            return authenticate(cfg, script.report, false, None);
        },
        _ => {},
    }
    let event = match script.store {
        Some(text) => Event::StoreLoaded { text },
        None => Event::StoreUnreadable,
    };
    let (stage, action) = step(cfg, stage, event);
    match action {
        Action::Fail { error } => ended(error, true),
        Action::Record { text } => {
            let event = if script.store_writable {
                Event::StoreWritten
            } else {
                Event::StoreUnwritable
            };
            let (_, action) = step(cfg, stage, event);
            match action {
                Action::Fail { error } => ended(error, true),
                _ => authenticate(cfg, script.report, true, Some(text)),
            }
        },
        _ => authenticate(cfg, script.report, true, None),
    }
}

/// The host answers: the transport opens and the host offers `key`.
pub open spec fn offers(script: Script, key: HostKey) -> bool {
    script.opened matches Opened::Connects { key: Some(k) } && k == key
}

/// Under the strict policy, an attempt against a host that an empty store
/// does not know fails as untrusted, and the file is not written.
pub proof fn lemma_strict_attempt_on_empty_store(
    cfg: SshConfig,
    script: Script,
    key: HostKey,
    a: Attempt,
)
    requires
        cfg.is_valid(),
        cfg.hostkey_policy == HostKeyPolicy::Strict,
        cfg.known_hosts is Some,
        offers(script, key),
        script.store matches Some(text) && parse_spec(text@).len() == 0,
        attempt_spec(cfg, script, a),
    ensures
        is_rejected(a.outcome, cfg.host@, HostKeyError::Untrusted),
        a.written is None,
        !a.credential_sent,
{
}

/// Where new keys are accepted, an attempt against a host that an empty
/// store does not know goes on to authentication, and what is written is
/// the line of the host's record, whose host-spec on port 2222 is the host
/// in square brackets and `:2222`. Where the record can stand on a line,
/// the file then holds that record and no other.
pub proof fn lemma_accept_new_attempt_on_empty_store(
    cfg: SshConfig,
    script: Script,
    key: HostKey,
    a: Attempt,
)
    requires
        cfg.is_valid(),
        cfg.hostkey_policy == HostKeyPolicy::AcceptNew,
        cfg.known_hosts is Some,
        offers(script, key),
        script.store matches Some(text) && parse_spec(text@).len() == 0,
        script.store_writable,
        attempt_spec(cfg, script, a),
    ensures
        a.credential_sent,
        is_authenticated_as(a.outcome, cfg, script.report),
        auth_outcome_spec(cfg.auth, script.report) is Ok ==> a.outcome is Ok,
        a.written matches Some(line) && line@ == appended_spec(
            script.store->0@,
            wanted_record(cfg, key),
        ),
        cfg.port == 2222 ==> wanted_record(cfg, key).host_spec == seq!['['] + cfg.host@
            + seq![']', ':', '2', '2', '2', '2'],
        is_storable(wanted_record(cfg, key)) ==> parse_spec(
            script.store->0@ + a.written->0@,
        ) == seq![wanted_record(cfg, key)],
{
    let text = script.store->0@;
    let wanted = wanted_record(cfg, key);
    lemma_accept_new_records_unknown_host(cfg.host@, cfg.port, key.key_type@, key.blob@);
    if is_storable(wanted) {
        lemma_append_adds_the_record(text, wanted);
        assert(parse_spec(text).push(wanted) =~= seq![wanted]);
    }
}

/// An attempt against a host for which the store holds records, and none
/// with the offered key, fails as a mismatch under every policy that checks,
/// and the file is not written: accepting new keys does not accept a
/// changed one.
pub proof fn lemma_attempt_with_changed_key(
    cfg: SshConfig,
    script: Script,
    key: HostKey,
    a: Attempt,
    at: int,
)
    requires
        cfg.is_valid(),
        cfg.hostkey_policy != HostKeyPolicy::InsecureIgnore,
        cfg.known_hosts is Some,
        offers(script, key),
        script.store is Some,
        0 <= at < parse_spec(script.store->0@).len(),
        parse_spec(script.store->0@)[at].host_spec == wanted_record(cfg, key).host_spec,
        forall|i: int|
            0 <= i < parse_spec(script.store->0@).len() ==> parse_spec(script.store->0@)[i]
                != wanted_record(cfg, key),
        attempt_spec(cfg, script, a),
    ensures
        is_rejected(a.outcome, cfg.host@, HostKeyError::Mismatch),
        a.written is None,
        !a.credential_sent,
{
    lemma_mismatch_always_rejects(
        cfg.hostkey_policy,
        parse_spec(script.store->0@),
        wanted_record(cfg, key),
        at,
    );
}

/// Without a check, an attempt whose transport opens always sends the
/// credential, whatever the store holds and whatever key is offered, and
/// the file is neither read nor written.
pub proof fn lemma_insecure_attempt_leaves_the_store(cfg: SshConfig, script: Script, a: Attempt)
    requires
        cfg.is_valid(),
        cfg.hostkey_policy == HostKeyPolicy::InsecureIgnore,
        script.opened is Connects,
        attempt_spec(cfg, script, a),
    ensures
        a.credential_sent,
        !a.store_read,
        a.written is None,
        is_authenticated_as(a.outcome, cfg, script.report),
{
}

/// The credential is never sent to a host whose key was not trusted: where
/// the key is checked, the credential was sent only after the file was read
/// and the key was found in it or newly written to it.
pub proof fn lemma_credential_needs_trust(cfg: SshConfig, script: Script, a: Attempt)
    requires
        cfg.hostkey_policy != HostKeyPolicy::InsecureIgnore,
        attempt_spec(cfg, script, a),
        a.credential_sent,
    ensures
        a.store_read,
        script.opened matches Opened::Connects { key: Some(k) } && (script.store matches Some(text)
            && (decision_on(cfg, k, text@) == Decision::Trust || (decision_on(cfg, k, text@)
            == Decision::TrustAndPersist && a.written is Some))),
{
}

/// A session is ready only where the credential was sent and the attempt
/// ended with the authenticated flag set.
pub proof fn lemma_ready_needs_authentication(cfg: SshConfig, script: Script, a: Attempt)
    requires
        attempt_spec(cfg, script, a),
        a.outcome is Ok,
    ensures
        a.credential_sent,
        script.report.authenticated,
        auth_outcome_spec(cfg.auth, script.report) is Ok,
{
}

/// An attempt with a key file that cannot be read, once the host is
/// trusted, fails with an unreadable key and never with a rejection.
pub proof fn lemma_attempt_with_unreadable_key(cfg: SshConfig, script: Script, a: Attempt)
    requires
        cfg.auth is KeyFile,
        !script.report.key_readable,
        attempt_spec(cfg, script, a),
        a.credential_sent,
    ensures
        a.outcome == Err::<(), NetError>(NetError::Auth(AuthError::KeyUnreadable)),
{
}

} // verus!
