//! The stages of a connection attempt.
//!
//! A connection is opened, its host key is checked, the local identity is
//! proved, and only then is the session handed out. Each stage is a gate:
//! what fails there ends the attempt, and nothing is tried twice. The caller
//! performs each action and hands back the event that it led to.

use vstd::prelude::*;
use crate::auth::{auth_outcome, auth_outcome_spec, AuthReport};
use crate::config::{HostKeyPolicy, SshConfig, MSG_NO_HOST, MSG_NO_USER};
use crate::error::{HostKeyError, NetError};
use crate::hostkey::{
    decide_spec, lemma_accept_new_records_unknown_host, lemma_mismatch_always_rejects,
    verify_host_key, Decision,
};
use crate::known_hosts::{
    appended, appended_spec, is_storable, lemma_append_adds_the_record, lookup_spec, parse_spec,
    record_for, HostKey, HostRecord, KnownHostsStore, RecordView,
};

verus! {

/// How far a connection attempt has come.
pub enum Stage {
    /// Nothing was done yet.
    Start,
    /// The transport is being opened.
    Opening,
    /// The host offered `key`, and the known-hosts file is being read.
    CheckingHost { key: HostKey },
    /// The host's key is newly trusted and is being written to the file.
    Recording,
    /// The host is trusted and the credential was sent.
    Authenticating,
    /// The session is authenticated and may be used.
    Ready,
    /// The attempt has ended without a session.
    Failed,
}

impl Stage {
    /// Whether the session may be used for transfers and listings: only an
    /// authenticated session may.
    pub fn is_ready(&self) -> (r: bool)
        ensures
            r == (self is Ready),
    {
        match self {
            Stage::Ready => true,
            _ => false,
        }
    }

    /// Refuses the use of a session that is not authenticated, before
    /// anything is sent over it.
    pub fn require_ready(&self) -> (r: Result<(), NetError>)
        ensures
            r is Ok <==> self is Ready,
            r is Err ==> (r matches Err(NetError::Invalid(m)) && m@ == MSG_NOT_READY@),
    {
        if self.is_ready() {
            Ok(())
        } else {
            Err(NetError::Invalid(MSG_NOT_READY.to_owned()))
        }
    }
}

/// What the caller found when it did what it was asked to.
pub enum Event {
    /// The attempt begins.
    Begin,
    /// The TCP connection was refused or timed out.
    TcpFailed(std::io::Error),
    /// The handshake failed.
    HandshakeFailed(ssh2::Error),
    /// The handshake is done; `key` is the key the host offered, if the
    /// transport has one to show.
    Connected { key: Option<HostKey> },
    /// The known-hosts file holds `text`.
    StoreLoaded { text: String },
    /// The known-hosts file could not be read.
    StoreUnreadable,
    /// The known-hosts file was written.
    StoreWritten,
    /// The known-hosts file could not be written.
    StoreUnwritable,
    /// The authentication attempt ended as `report` says.
    AuthFinished { report: AuthReport },
}

/// What the caller is to do next.
pub enum Action {
    /// Open the TCP connection to the configured host and port, with the
    /// configured timeout, and run the handshake.
    Open,
    /// Read the configured known-hosts file.
    LoadStore,
    /// Write `text` at the end of the configured known-hosts file.
    Record { text: String },
    /// Send the configured credential.
    Authenticate,
    /// Hand the session out.
    Finish,
    /// Close the connection and report `error`.
    Fail { error: NetError },
}

/// What is told where the transport has no host key to show.
pub const MSG_NO_KEY: &'static str = "missing host key";

/// What is told where the known-hosts file cannot be read.
pub const MSG_STORE_UNREADABLE: &'static str = "known-hosts file cannot be read";

/// What is told where the known-hosts file cannot be written.
pub const MSG_STORE_UNWRITABLE: &'static str = "known-hosts file cannot be written";

/// What is told where an event is handed in at a stage it does not follow.
pub const MSG_OUT_OF_ORDER: &'static str = "event does not belong to this stage";

/// What is told where a session is used before it is authenticated.
pub const MSG_NOT_READY: &'static str = "session is not authenticated";

/// The attempt ends with an invalid-argument failure that says `msg`.
pub open spec fn ends_invalid(next: Stage, action: Action, msg: Seq<char>) -> bool {
    &&& next is Failed
    &&& action matches Action::Fail { error: NetError::Invalid(m) }
    &&& m@ == msg
}

/// The attempt ends because the key of `host` was not trusted, for `reason`.
pub open spec fn ends_rejected(next: Stage, action: Action, host: Seq<char>, reason: HostKeyError)
    -> bool {
    &&& next is Failed
    &&& action matches Action::Fail { error: NetError::HostKey { host: h, reason: r } }
    &&& h@ == host
    &&& r == reason
}

/// The record under which the configured host would be trusted with `key`.
pub open spec fn wanted_record(cfg: SshConfig, key: HostKey) -> RecordView {
    record_for(cfg.host@, cfg.port, key.key_type@, key.blob@)
}

/// The decision on `key` for the configured host, given the text of the
/// known-hosts file.
pub open spec fn decision_on(cfg: SshConfig, key: HostKey, text: Seq<char>) -> Decision {
    decide_spec(
        cfg.hostkey_policy,
        Some(lookup_spec(parse_spec(text), wanted_record(cfg, key))),
    )
}

/// Whether `next` and `action` are what follows `event` at `stage`.
///
/// Strings are compared by their characters. An event that does not belong
/// to the stage ends the attempt.
pub open spec fn step_spec(cfg: SshConfig, stage: Stage, event: Event, next: Stage, action: Action)
    -> bool {
    match (stage, event) {
        (Stage::Start, Event::Begin) => if cfg.host@.len() == 0 {
            ends_invalid(next, action, MSG_NO_HOST@)
        } else if cfg.auth.username_view().len() == 0 {
            ends_invalid(next, action, MSG_NO_USER@)
        } else {
            next is Opening && action is Open
        },
        (Stage::Opening, Event::TcpFailed(e)) => next is Failed && action == (Action::Fail {
            error: NetError::Tcp(e),
        }),
        (Stage::Opening, Event::HandshakeFailed(e)) => next is Failed && action == (Action::Fail {
            error: NetError::Ssh(e),
        }),
        (Stage::Opening, Event::Connected { key }) => if cfg.hostkey_policy
            == HostKeyPolicy::InsecureIgnore {
            next is Authenticating && action is Authenticate
        } else {
            match key {
                None => ends_invalid(next, action, MSG_NO_KEY@),
                Some(k) => if cfg.known_hosts is None {
                    ends_rejected(next, action, cfg.host@, HostKeyError::Untrusted)
                } else {
                    &&& next matches Stage::CheckingHost { key: held }
                    &&& held@ == k@
                    &&& action is LoadStore
                },
            }
        },
        (Stage::CheckingHost { key }, Event::StoreLoaded { text }) => match decision_on(
            cfg,
            key,
            text@,
        ) {
            Decision::Trust => next is Authenticating && action is Authenticate,
            Decision::TrustAndPersist => {
                &&& next is Recording
                &&& action matches Action::Record { text: line }
                &&& line@ == appended_spec(text@, wanted_record(cfg, key))
            },
            Decision::Reject(reason) => ends_rejected(next, action, cfg.host@, reason),
        },
        (Stage::CheckingHost { .. }, Event::StoreUnreadable) => ends_invalid(
            next,
            action,
            MSG_STORE_UNREADABLE@,
        ),
        (Stage::Recording, Event::StoreWritten) => next is Authenticating && action
            is Authenticate,
        (Stage::Recording, Event::StoreUnwritable) => ends_invalid(
            next,
            action,
            MSG_STORE_UNWRITABLE@,
        ),
        (Stage::Authenticating, Event::AuthFinished { report }) => match auth_outcome_spec(
            cfg.auth,
            report,
        ) {
            Ok(_) => next is Ready && action is Finish,
            Err(e) => next is Failed && action == (Action::Fail { error: NetError::Auth(e) }),
        },
        _ => ends_invalid(next, action, MSG_OUT_OF_ORDER@),
    }
}

fn invalid(msg: &str) -> (r: (Stage, Action))
    ensures
        ends_invalid(r.0, r.1, msg@),
{
    (Stage::Failed, Action::Fail { error: NetError::Invalid(msg.to_owned()) })
}

fn rejected(cfg: &SshConfig, reason: HostKeyError) -> (r: (Stage, Action))
    ensures
        ends_rejected(r.0, r.1, cfg.host@, reason),
{
    (
        Stage::Failed,
        Action::Fail { error: NetError::HostKey { host: cfg.host.clone(), reason } },
    )
}

fn check_host(cfg: &SshConfig, key: HostKey, text: String) -> (r: (Stage, Action))
    ensures
        step_spec(*cfg, Stage::CheckingHost { key }, Event::StoreLoaded { text }, r.0, r.1),
{
    let mut store = Some(KnownHostsStore::parse(text.as_str()));
    match verify_host_key(cfg.hostkey_policy, &mut store, cfg.host.as_str(), cfg.port, &key) {
        Decision::Trust => (Stage::Authenticating, Action::Authenticate),
        Decision::TrustAndPersist => {
            let record = HostRecord::new(cfg.host.as_str(), cfg.port, &key);
            let line = appended(text.as_str(), &record);
            (Stage::Recording, Action::Record { text: line })
        },
        Decision::Reject(reason) => rejected(cfg, reason),
    }
}

/// What follows `event` at `stage`: the next stage, and what the caller is
/// to do.
pub fn step(cfg: &SshConfig, stage: Stage, event: Event) -> (r: (Stage, Action))
    ensures
        step_spec(*cfg, stage, event, r.0, r.1),
{
    match (stage, event) {
        (Stage::Start, Event::Begin) => match cfg.validate() {
            Ok(_) => (Stage::Opening, Action::Open),
            Err(error) => (Stage::Failed, Action::Fail { error }),
        },
        (Stage::Opening, Event::TcpFailed(e)) => (
            Stage::Failed,
            Action::Fail { error: NetError::Tcp(e) },
        ),
        (Stage::Opening, Event::HandshakeFailed(e)) => (
            Stage::Failed,
            Action::Fail { error: NetError::Ssh(e) },
        ),
        (Stage::Opening, Event::Connected { key }) => {
            match cfg.hostkey_policy {
                HostKeyPolicy::InsecureIgnore => (Stage::Authenticating, Action::Authenticate),
                _ => match key {
                    None => invalid(MSG_NO_KEY),
                    Some(k) => {
                        if cfg.known_hosts.is_none() {
                            rejected(cfg, HostKeyError::Untrusted)
                        } else {
                            (Stage::CheckingHost { key: k }, Action::LoadStore)
                        }
                    },
                },
            }
        },
        (Stage::CheckingHost { key }, Event::StoreLoaded { text }) => check_host(cfg, key, text),
        (Stage::CheckingHost { .. }, Event::StoreUnreadable) => invalid(MSG_STORE_UNREADABLE),
        (Stage::Recording, Event::StoreWritten) => (Stage::Authenticating, Action::Authenticate),
        (Stage::Recording, Event::StoreUnwritable) => invalid(MSG_STORE_UNWRITABLE),
        (Stage::Authenticating, Event::AuthFinished { report }) => {
            match auth_outcome(&cfg.auth, report) {
                Ok(_) => (Stage::Ready, Action::Finish),
                Err(e) => (Stage::Failed, Action::Fail { error: NetError::Auth(e) }),
            }
        },
        _ => invalid(MSG_OUT_OF_ORDER),
    }
}

/// Whether an action touches the known-hosts file.
pub open spec fn touches_store(action: Action) -> bool {
    action is LoadStore || action is Record
}

/// Under the strict policy, a host that the loaded store does not know ends
/// the attempt as untrusted, and nothing is written to the file.
pub proof fn lemma_strict_unknown_host_fails(
    cfg: SshConfig,
    key: HostKey,
    text: String,
    next: Stage,
    action: Action,
)
    requires
        cfg.hostkey_policy == HostKeyPolicy::Strict,
        parse_spec(text@).len() == 0,
        step_spec(cfg, Stage::CheckingHost { key }, Event::StoreLoaded { text }, next, action),
    ensures
        ends_rejected(next, action, cfg.host@, HostKeyError::Untrusted),
        !(action is Record),
{
}

/// Where new keys are accepted, a host that the loaded store does not know
/// goes on to be recorded: the line to be written is that of its record,
/// whose host-spec on port 2222 is the host in square brackets and `:2222`.
/// Where the record can stand on a line, the file then holds that record
/// and no other.
pub proof fn lemma_accept_new_unknown_host_is_recorded(
    cfg: SshConfig,
    key: HostKey,
    text: String,
    next: Stage,
    action: Action,
)
    requires
        cfg.hostkey_policy == HostKeyPolicy::AcceptNew,
        parse_spec(text@).len() == 0,
        step_spec(cfg, Stage::CheckingHost { key }, Event::StoreLoaded { text }, next, action),
    ensures
        next is Recording,
        action matches Action::Record { text: line } && line@ == appended_spec(
            text@,
            wanted_record(cfg, key),
        ),
        cfg.port == 2222 ==> wanted_record(cfg, key).host_spec == seq!['['] + cfg.host@
            + seq![']', ':', '2', '2', '2', '2'],
        is_storable(wanted_record(cfg, key)) ==> parse_spec(
            text@ + appended_spec(text@, wanted_record(cfg, key)),
        ) == seq![wanted_record(cfg, key)],
{
    lemma_accept_new_records_unknown_host(cfg.host@, cfg.port, key.key_type@, key.blob@);
    if is_storable(wanted_record(cfg, key)) {
        lemma_append_adds_the_record(text@, wanted_record(cfg, key));
        assert(parse_spec(text@).push(wanted_record(cfg, key)) =~= seq![wanted_record(cfg, key)]);
    }
}

/// A loaded store that holds records for the host, and none with the offered
/// key, ends the attempt as a mismatch under every policy that checks, and
/// nothing is written to the file.
pub proof fn lemma_changed_key_fails(
    cfg: SshConfig,
    key: HostKey,
    text: String,
    next: Stage,
    action: Action,
    at: int,
)
    requires
        cfg.hostkey_policy != HostKeyPolicy::InsecureIgnore,
        0 <= at < parse_spec(text@).len(),
        parse_spec(text@)[at].host_spec == wanted_record(cfg, key).host_spec,
        forall|i: int|
            0 <= i < parse_spec(text@).len() ==> parse_spec(text@)[i] != wanted_record(cfg, key),
        step_spec(cfg, Stage::CheckingHost { key }, Event::StoreLoaded { text }, next, action),
    ensures
        ends_rejected(next, action, cfg.host@, HostKeyError::Mismatch),
        !(action is Record),
{
    lemma_mismatch_always_rejects(
        cfg.hostkey_policy,
        parse_spec(text@),
        wanted_record(cfg, key),
        at,
    );
}

/// Without a check the handshake is followed by authentication at once: the
/// known-hosts file is neither read nor written, whatever it holds and
/// whatever key the host offered.
pub proof fn lemma_insecure_ignore_skips_store(
    cfg: SshConfig,
    key: Option<HostKey>,
    next: Stage,
    action: Action,
)
    requires
        cfg.hostkey_policy == HostKeyPolicy::InsecureIgnore,
        step_spec(cfg, Stage::Opening, Event::Connected { key }, next, action),
    ensures
        next is Authenticating,
        action is Authenticate,
        !touches_store(action),
{
}

/// The stages from which the file is touched are never reached without a
/// check: only checking the host asks for the file, and only a loaded file
/// is written to.
pub proof fn lemma_store_touched_only_when_checking(
    cfg: SshConfig,
    stage: Stage,
    event: Event,
    next: Stage,
    action: Action,
)
    requires
        step_spec(cfg, stage, event, next, action),
        touches_store(action),
    ensures
        cfg.hostkey_policy != HostKeyPolicy::InsecureIgnore,
        action is LoadStore ==> stage is Opening && event is Connected && next is CheckingHost,
        action is Record ==> stage is CheckingHost && event is StoreLoaded && next is Recording
            && cfg.hostkey_policy == HostKeyPolicy::AcceptNew,
{
}

/// The credential is sent only behind the host-key gate: right after the
/// handshake where nothing is checked, after a check that trusted the key,
/// or after the newly trusted key was written.
pub proof fn lemma_credential_sent_after_gate(
    cfg: SshConfig,
    stage: Stage,
    event: Event,
    next: Stage,
    action: Action,
)
    requires
        step_spec(cfg, stage, event, next, action),
        action is Authenticate,
    ensures
        next is Authenticating,
        ({
            ||| stage is Opening && event is Connected && cfg.hostkey_policy
                == HostKeyPolicy::InsecureIgnore
            ||| stage matches Stage::CheckingHost { key } && event matches Event::StoreLoaded {
                text,
            } && decision_on(cfg, key, text@) == Decision::Trust
            ||| stage is Recording && event is StoreWritten
        }),
{
}

/// The session is handed out only after an authentication attempt that
/// succeeded with the authenticated flag set.
pub proof fn lemma_ready_only_after_authentication(
    cfg: SshConfig,
    stage: Stage,
    event: Event,
    next: Stage,
    action: Action,
)
    requires
        step_spec(cfg, stage, event, next, action),
        next is Ready || action is Finish,
    ensures
        next is Ready && action is Finish,
        stage is Authenticating,
        event matches Event::AuthFinished { report } && report.authenticated && auth_outcome_spec(
            cfg.auth,
            report,
        ) is Ok,
{
}

/// The credential is tried once: whatever comes of the attempt, the session
/// is ready or the attempt has failed, and nothing asks for a second try.
pub proof fn lemma_authentication_is_tried_once(
    cfg: SshConfig,
    event: Event,
    next: Stage,
    action: Action,
)
    requires
        step_spec(cfg, Stage::Authenticating, event, next, action),
    ensures
        next is Ready || next is Failed,
        !(action is Authenticate),
{
}

/// Nothing is retried: a failed attempt stays failed, whatever comes after.
pub proof fn lemma_failure_is_final(
    cfg: SshConfig,
    event: Event,
    next: Stage,
    action: Action,
)
    requires
        step_spec(cfg, Stage::Failed, event, next, action),
    ensures
        next is Failed,
        action is Fail,
{
}

/// A request that names no host or no user fails before anything is opened.
pub proof fn lemma_invalid_request_opens_nothing(cfg: SshConfig, next: Stage, action: Action)
    requires
        !cfg.is_valid(),
        step_spec(cfg, Stage::Start, Event::Begin, next, action),
    ensures
        next is Failed,
        action matches Action::Fail { error } && error is Invalid,
{
}

} // verus!
