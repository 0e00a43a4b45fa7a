use sftp_trust::attempt::{attempt, Attempt, Opened, Script};
use sftp_trust::auth::AuthReport;
use sftp_trust::config::{Auth, HostKeyPolicy, SshConfig};
use sftp_trust::error::{AuthError, HostKeyError, NetError};
use sftp_trust::known_hosts::{HostKey, KnownHostsStore};

fn config(policy: HostKeyPolicy, port: u16, known_hosts: Option<&str>) -> SshConfig {
    SshConfig {
        host: "h".to_string(),
        port,
        auth: Auth::Password { username: "alice".to_string(), password: "secret".to_string() },
        known_hosts: known_hosts.map(|p| p.to_string()),
        hostkey_policy: policy,
        timeout_ms: None,
    }
}

fn offered() -> HostKey {
    HostKey { key_type: "ssh-ed25519".to_string(), blob: b"offered key".to_vec() }
}

fn accepted() -> AuthReport {
    AuthReport { key_readable: true, failure: None, authenticated: true }
}

fn host(store: Option<&str>) -> Script {
    Script {
        opened: Opened::Connects { key: Some(offered()) },
        store: store.map(|s| s.to_string()),
        store_writable: true,
        report: accepted(),
    }
}

fn untouched(a: &Attempt) -> bool {
    !a.store_read && a.written.is_none() && !a.credential_sent
}

#[test]
fn strict_connect_with_an_empty_store_fails_as_untrusted() {
    let a = attempt(&config(HostKeyPolicy::Strict, 22, Some("kh")), host(Some("")));
    match a.outcome {
        Err(NetError::HostKey { host, reason }) => {
            assert_eq!(host, "h");
            assert_eq!(reason, HostKeyError::Untrusted);
        }
        other => panic!("unexpected: {:?}", other),
    }
    assert!(a.store_read);
    assert!(a.written.is_none());
    assert!(!a.credential_sent);
}

#[test]
fn accept_new_connect_with_an_empty_store_succeeds_and_records_the_host() {
    let a = attempt(&config(HostKeyPolicy::AcceptNew, 2222, Some("kh")), host(Some("")));
    assert!(a.outcome.is_ok());
    assert!(a.store_read);
    assert!(a.credential_sent);
    let written = a.written.unwrap();
    let store = KnownHostsStore::parse(&written);
    assert_eq!(store.len(), 1);
    assert_eq!(store.records[0].host_spec, "[h]:2222");
    assert_eq!(store.records[0].key_type, "ssh-ed25519");
    assert_eq!(store.records[0].key, "b2ZmZXJlZCBrZXk=");
}

#[test]
fn accept_new_connect_with_a_different_key_fails_as_mismatch() {
    let text = "[h]:2222 ssh-ed25519 c29tZSBvdGhlciBrZXk=\n";
    let a = attempt(&config(HostKeyPolicy::AcceptNew, 2222, Some("kh")), host(Some(text)));
    assert!(matches!(
        a.outcome,
        Err(NetError::HostKey { reason: HostKeyError::Mismatch, .. })
    ));
    assert!(a.written.is_none());
    assert!(!a.credential_sent);
}

#[test]
fn insecure_connect_reaches_authentication_and_leaves_the_store() {
    for store in [None, Some(""), Some("h ssh-ed25519 c29tZSBvdGhlciBrZXk=\n")] {
        for known_hosts in [None, Some("kh")] {
            for key in [None, Some(offered())] {
                let mut script = host(store);
                script.opened = Opened::Connects { key };
                let a = attempt(&config(HostKeyPolicy::InsecureIgnore, 22, known_hosts), script);
                assert!(a.outcome.is_ok());
                assert!(a.credential_sent);
                assert!(!a.store_read);
                assert!(a.written.is_none());
            }
        }
    }
}

#[test]
fn a_second_connect_finds_the_key_that_the_first_recorded() {
    let cfg = config(HostKeyPolicy::AcceptNew, 2222, Some("kh"));
    let before = "other ssh-rsa AAAA";
    let first = attempt(&cfg, host(Some(before)));
    let file = format!("{}{}", before, first.written.unwrap());
    assert_eq!(file, "other ssh-rsa AAAA\n[h]:2222 ssh-ed25519 b2ZmZXJlZCBrZXk=\n");
    let second = attempt(&cfg, host(Some(&file)));
    assert!(second.outcome.is_ok());
    assert!(second.written.is_none());
    let strict = attempt(&config(HostKeyPolicy::Strict, 2222, Some("kh")), host(Some(&file)));
    assert!(strict.outcome.is_ok());
    let mut changed = host(Some(&file));
    changed.opened = Opened::Connects {
        key: Some(HostKey { key_type: "ssh-ed25519".to_string(), blob: b"changed".to_vec() }),
    };
    let third = attempt(&cfg, changed);
    assert!(matches!(
        third.outcome,
        Err(NetError::HostKey { reason: HostKeyError::Mismatch, .. })
    ));
}

#[test]
fn an_invalid_request_ends_before_anything_is_touched() {
    let mut cfg = config(HostKeyPolicy::AcceptNew, 22, Some("kh"));
    cfg.host = String::new();
    let a = attempt(&cfg, host(Some("")));
    assert!(matches!(a.outcome, Err(NetError::Invalid(ref m)) if m == "host must not be empty"));
    assert!(untouched(&a));
}

#[test]
fn a_transport_that_does_not_open_ends_the_attempt() {
    let cfg = config(HostKeyPolicy::AcceptNew, 22, Some("kh"));
    let mut script = host(Some(""));
    script.opened = Opened::TcpFails(std::io::Error::new(std::io::ErrorKind::TimedOut, "late"));
    let a = attempt(&cfg, script);
    assert!(matches!(a.outcome, Err(NetError::Tcp(ref e)) if e.kind() == std::io::ErrorKind::TimedOut));
    assert!(untouched(&a));
    let mut script = host(Some(""));
    script.opened = Opened::HandshakeFails(ssh2::Error::from_errno(ssh2::ErrorCode::Session(-8)));
    let a = attempt(&cfg, script);
    assert!(matches!(a.outcome, Err(NetError::Ssh(ref e)) if e.code() == ssh2::ErrorCode::Session(-8)));
    assert!(untouched(&a));
}

#[test]
fn a_checking_policy_without_key_or_file_ends_before_the_file_is_touched() {
    for policy in [HostKeyPolicy::Strict, HostKeyPolicy::AcceptNew] {
        let mut script = host(Some(""));
        script.opened = Opened::Connects { key: None };
        let a = attempt(&config(policy, 22, Some("kh")), script);
        assert!(matches!(a.outcome, Err(NetError::Invalid(ref m)) if m == "missing host key"));
        assert!(untouched(&a));
        let a = attempt(&config(policy, 22, None), host(Some("")));
        assert!(matches!(
            a.outcome,
            Err(NetError::HostKey { reason: HostKeyError::Untrusted, .. })
        ));
        assert!(untouched(&a));
    }
}

#[test]
fn a_file_that_cannot_be_read_or_written_ends_the_attempt() {
    let cfg = config(HostKeyPolicy::AcceptNew, 22, Some("kh"));
    let a = attempt(&cfg, host(None));
    assert!(matches!(
        a.outcome,
        Err(NetError::Invalid(ref m)) if m == "known-hosts file cannot be read"
    ));
    assert!(a.store_read && a.written.is_none() && !a.credential_sent);
    let mut script = host(Some(""));
    script.store_writable = false;
    let a = attempt(&cfg, script);
    assert!(matches!(
        a.outcome,
        Err(NetError::Invalid(ref m)) if m == "known-hosts file cannot be written"
    ));
    assert!(a.store_read && a.written.is_none() && !a.credential_sent);
}

#[test]
fn a_trusted_host_may_still_refuse_the_identity() {
    let mut script = host(Some("h ssh-ed25519 b2ZmZXJlZCBrZXk=\n"));
    script.report = AuthReport { key_readable: true, failure: None, authenticated: false };
    let a = attempt(&config(HostKeyPolicy::Strict, 22, Some("kh")), script);
    assert!(matches!(a.outcome, Err(NetError::Auth(AuthError::Rejected))));
    assert!(a.credential_sent);
    let mut cfg = config(HostKeyPolicy::InsecureIgnore, 22, None);
    cfg.auth = Auth::KeyFile {
        username: "alice".to_string(),
        private_key: "/no/such/key".to_string(),
        passphrase: None,
        public_key: None,
    };
    let mut script = host(None);
    script.report = AuthReport { key_readable: false, failure: None, authenticated: false };
    let a = attempt(&cfg, script);
    assert!(matches!(a.outcome, Err(NetError::Auth(AuthError::KeyUnreadable))));
}
