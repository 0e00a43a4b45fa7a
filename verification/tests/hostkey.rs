use sftp_trust::base64::{decode, encode};
use sftp_trust::config::HostKeyPolicy;
use sftp_trust::error::HostKeyError;
use sftp_trust::hostkey::{decide, verify_host_key, Decision};
use sftp_trust::hostspec::host_spec;
use sftp_trust::known_hosts::{appended, HostKey, HostRecord, KnownHostsStore, Lookup};

fn key(kind: &str, blob: &[u8]) -> HostKey {
    HostKey { key_type: kind.to_string(), blob: blob.to_vec() }
}

fn fields(r: &HostRecord) -> (String, String, String) {
    (r.host_spec.clone(), r.key_type.clone(), r.key.clone())
}

#[test]
fn host_spec_is_bare_on_the_default_port() {
    assert_eq!(host_spec("example.com", 22), "example.com");
    assert_eq!(host_spec("", 22), "");
}

#[test]
fn host_spec_is_bracketed_on_other_ports() {
    assert_eq!(host_spec("example.com", 2222), "[example.com]:2222");
    assert_eq!(host_spec("h", 0), "[h]:0");
    assert_eq!(host_spec("h", 21), "[h]:21");
    assert_eq!(host_spec("h", 23), "[h]:23");
    assert_eq!(host_spec("10.0.0.1", 65535), "[10.0.0.1]:65535");
    assert_eq!(host_spec("h", 1000), "[h]:1000");
}

#[test]
fn base64_of_known_texts() {
    assert_eq!(encode(b""), "");
    assert_eq!(encode(b"M"), "TQ==");
    assert_eq!(encode(b"Ma"), "TWE=");
    assert_eq!(encode(b"Man"), "TWFu");
    assert_eq!(encode(b"foobar"), "Zm9vYmFy");
    assert_eq!(encode(b"fooba"), "Zm9vYmE=");
    assert_eq!(encode(&[0xfb, 0xff, 0xbf]), "+/+/");
    assert_eq!(encode(&[0, 0, 0]), "AAAA");
    assert_eq!(encode(&[255, 255, 255, 255]), "/////w==");
}

#[test]
fn base64_is_decoded_again() {
    let mut bytes: Vec<u8> = Vec::new();
    for n in 0..200usize {
        let text: Vec<char> = encode(&bytes).chars().collect();
        assert_eq!(decode(&text), Some(bytes.clone()));
        bytes.push((n * 37 % 256) as u8);
    }
}

#[test]
fn base64_decoding_refuses_what_is_no_base64() {
    let chars = |s: &str| s.chars().collect::<Vec<char>>();
    assert_eq!(decode(&chars("TWFu")), Some(b"Man".to_vec()));
    assert_eq!(decode(&chars("TWE=")), Some(b"Ma".to_vec()));
    assert_eq!(decode(&chars("TWE")), Some(b"Ma".to_vec()));
    assert_eq!(decode(&chars("")), Some(Vec::new()));
    assert_eq!(decode(&chars("T")), None);
    assert_eq!(decode(&chars("TWFuT")), None);
    assert_eq!(decode(&chars("TW Fu")), None);
    assert_eq!(decode(&chars("TW=u")), None);
    assert_eq!(decode(&chars("TW-u")), None);
}

#[test]
fn record_of_a_key() {
    let r = HostRecord::new("example.com", 2222, &key("ssh-ed25519", b"Man"));
    assert_eq!(
        fields(&r),
        ("[example.com]:2222".to_string(), "ssh-ed25519".to_string(), "TWFu".to_string())
    );
    assert_eq!(r.line(), "[example.com]:2222 ssh-ed25519 TWFu\n");
    let plain = HostRecord::new("example.com", 22, &key("ssh-rsa", b"M"));
    assert_eq!(plain.line(), "example.com ssh-rsa TQ==\n");
}

#[test]
fn store_is_read_from_its_lines() {
    let text = "# a comment\n\nexample.com ssh-rsa AAAA extra words\n  [h]:2222\tssh-ed25519  TWFu\r\nshort line\n#x y z\nlast ssh-rsa QQ==";
    let store = KnownHostsStore::parse(text);
    assert_eq!(store.len(), 3);
    assert_eq!(
        fields(&store.records[0]),
        ("example.com".to_string(), "ssh-rsa".to_string(), "AAAA".to_string())
    );
    assert_eq!(
        fields(&store.records[1]),
        ("[h]:2222".to_string(), "ssh-ed25519".to_string(), "TWFu".to_string())
    );
    assert_eq!(
        fields(&store.records[2]),
        ("last".to_string(), "ssh-rsa".to_string(), "QQ==".to_string())
    );
    assert_eq!(KnownHostsStore::parse("").len(), 0);
    assert_eq!(KnownHostsStore::parse("\n\n\n").len(), 0);
    assert_eq!(KnownHostsStore::new().len(), 0);
}

#[test]
fn store_text_is_read_back() {
    let mut store = KnownHostsStore::new();
    store.add("a.example", 22, &key("ssh-rsa", b"first key"));
    store.add("a.example", 2200, &key("ssh-ed25519", b"second"));
    store.add("b.example", 22, &key("ecdsa-sha2-nistp256", &[1, 2, 3, 4, 5]));
    let text = store.render();
    assert_eq!(
        text,
        "a.example ssh-rsa Zmlyc3Qga2V5\n[a.example]:2200 ssh-ed25519 c2Vjb25k\nb.example ecdsa-sha2-nistp256 AQIDBAU=\n"
    );
    let again = KnownHostsStore::parse(&text);
    assert_eq!(again.len(), 3);
    for i in 0..3 {
        assert!(again.records[i].same_as(&store.records[i]));
    }
    assert_eq!(KnownHostsStore::new().render(), "");
}

#[test]
fn lookup_goes_by_host_and_port() {
    let k = key("ssh-ed25519", b"the key");
    let other = key("ssh-ed25519", b"another key");
    let mut store = KnownHostsStore::new();
    assert_eq!(store.lookup("h", 22, &k), Lookup::NotFound);
    store.add("h", 22, &k);
    assert_eq!(store.lookup("h", 22, &k), Lookup::Match);
    assert_eq!(store.lookup("h", 22, &other), Lookup::Mismatch);
    assert_eq!(store.lookup("h", 2222, &k), Lookup::NotFound);
    assert_eq!(store.lookup("hh", 22, &k), Lookup::NotFound);
    assert_eq!(store.lookup("[h]:22", 22, &k), Lookup::NotFound);
    store.add("h", 2222, &other);
    assert_eq!(store.lookup("h", 2222, &other), Lookup::Match);
    assert_eq!(store.lookup("h", 2222, &k), Lookup::Mismatch);
}

#[test]
fn lookup_compares_the_type_with_the_bytes() {
    let mut store = KnownHostsStore::new();
    store.add("h", 22, &key("ssh-rsa", b"blob"));
    assert_eq!(store.lookup("h", 22, &key("ssh-ed25519", b"blob")), Lookup::Mismatch);
    assert_eq!(store.lookup("h", 22, &key("ssh-rsa", b"blob")), Lookup::Match);
}

#[test]
fn lookup_finds_any_of_several_keys_of_a_host() {
    let mut store = KnownHostsStore::new();
    store.add("h", 22, &key("ssh-rsa", b"rsa blob"));
    store.add("h", 22, &key("ssh-ed25519", b"ed blob"));
    assert_eq!(store.lookup("h", 22, &key("ssh-ed25519", b"ed blob")), Lookup::Match);
    assert_eq!(store.lookup("h", 22, &key("ssh-rsa", b"rsa blob")), Lookup::Match);
    assert_eq!(store.lookup("h", 22, &key("ssh-rsa", b"ed blob")), Lookup::Mismatch);
}

#[test]
fn decision_table() {
    let untrusted = Decision::Reject(HostKeyError::Untrusted);
    let mismatch = Decision::Reject(HostKeyError::Mismatch);
    let ignore = HostKeyPolicy::InsecureIgnore;
    let strict = HostKeyPolicy::Strict;
    let accept = HostKeyPolicy::AcceptNew;
    assert_eq!(decide(ignore, None), Decision::Trust);
    assert_eq!(decide(ignore, Some(Lookup::Match)), Decision::Trust);
    assert_eq!(decide(ignore, Some(Lookup::Mismatch)), Decision::Trust);
    assert_eq!(decide(ignore, Some(Lookup::NotFound)), Decision::Trust);
    assert_eq!(decide(strict, None), untrusted);
    assert_eq!(decide(strict, Some(Lookup::Match)), Decision::Trust);
    assert_eq!(decide(strict, Some(Lookup::Mismatch)), mismatch);
    assert_eq!(decide(strict, Some(Lookup::NotFound)), untrusted);
    assert_eq!(decide(accept, None), untrusted);
    assert_eq!(decide(accept, Some(Lookup::Match)), Decision::Trust);
    assert_eq!(decide(accept, Some(Lookup::Mismatch)), mismatch);
    assert_eq!(decide(accept, Some(Lookup::NotFound)), Decision::TrustAndPersist);
}

#[test]
fn strict_policy_rejects_an_unknown_host_and_leaves_the_store() {
    let mut store = Some(KnownHostsStore::new());
    let d = verify_host_key(HostKeyPolicy::Strict, &mut store, "h", 22, &key("ssh-rsa", b"k"));
    assert_eq!(d, Decision::Reject(HostKeyError::Untrusted));
    assert_eq!(store.unwrap().len(), 0);
}

#[test]
fn accept_new_records_an_unknown_host_under_its_port() {
    let mut store = Some(KnownHostsStore::new());
    let d = verify_host_key(HostKeyPolicy::AcceptNew, &mut store, "h", 2222, &key("ssh-rsa", b"k"));
    assert_eq!(d, Decision::TrustAndPersist);
    let store = store.unwrap();
    assert_eq!(store.len(), 1);
    assert_eq!(store.records[0].host_spec, "[h]:2222");
    assert_eq!(store.records[0].key_type, "ssh-rsa");
    assert_eq!(store.records[0].key, "aw==");
}

#[test]
fn accept_new_rejects_a_changed_key_and_leaves_the_store() {
    let mut store = KnownHostsStore::new();
    store.add("h", 2222, &key("ssh-rsa", b"old"));
    let before = store.render();
    let mut store = Some(store);
    let d = verify_host_key(HostKeyPolicy::AcceptNew, &mut store, "h", 2222, &key("ssh-rsa", b"new"));
    assert_eq!(d, Decision::Reject(HostKeyError::Mismatch));
    assert_eq!(store.unwrap().render(), before);
    let mut strict = Some(KnownHostsStore::parse(&before));
    let d = verify_host_key(HostKeyPolicy::Strict, &mut strict, "h", 2222, &key("ssh-rsa", b"new"));
    assert_eq!(d, Decision::Reject(HostKeyError::Mismatch));
}

#[test]
fn known_key_is_trusted_and_not_recorded_twice() {
    let mut store = KnownHostsStore::new();
    store.add("h", 22, &key("ssh-rsa", b"k"));
    let mut store = Some(store);
    for policy in [HostKeyPolicy::Strict, HostKeyPolicy::AcceptNew] {
        let d = verify_host_key(policy, &mut store, "h", 22, &key("ssh-rsa", b"k"));
        assert_eq!(d, Decision::Trust);
        assert_eq!(store.as_ref().unwrap().len(), 1);
    }
}

#[test]
fn insecure_ignore_trusts_whatever_the_store_holds() {
    let mut store = KnownHostsStore::new();
    store.add("h", 22, &key("ssh-rsa", b"old"));
    let mut some = Some(store);
    let d = verify_host_key(HostKeyPolicy::InsecureIgnore, &mut some, "h", 22, &key("ssh-rsa", b"new"));
    assert_eq!(d, Decision::Trust);
    assert_eq!(some.unwrap().len(), 1);
    let mut none: Option<KnownHostsStore> = None;
    let d = verify_host_key(HostKeyPolicy::InsecureIgnore, &mut none, "h", 22, &key("ssh-rsa", b"new"));
    assert_eq!(d, Decision::Trust);
    assert!(none.is_none());
}

#[test]
fn without_a_store_both_checking_policies_reject() {
    for policy in [HostKeyPolicy::Strict, HostKeyPolicy::AcceptNew] {
        let mut none: Option<KnownHostsStore> = None;
        let d = verify_host_key(policy, &mut none, "h", 22, &key("ssh-rsa", b"k"));
        assert_eq!(d, Decision::Reject(HostKeyError::Untrusted));
        assert!(none.is_none());
    }
}

#[test]
fn appended_text_starts_a_line_of_its_own() {
    let r = HostRecord::new("h", 2222, &key("ssh-rsa", b"k"));
    assert_eq!(appended("", &r), "[h]:2222 ssh-rsa aw==\n");
    assert_eq!(appended("a b c\n", &r), "[h]:2222 ssh-rsa aw==\n");
    assert_eq!(appended("a b c", &r), "\n[h]:2222 ssh-rsa aw==\n");
    let text = "x ssh-rsa AAAA";
    let whole = format!("{}{}", text, appended(text, &r));
    let store = KnownHostsStore::parse(&whole);
    assert_eq!(store.len(), 2);
    assert!(store.records[1].same_as(&r));
}

#[test]
fn decoding_agrees_with_the_strict_decoder_wherever_that_decodes() {
    let strict = |s: &str| base64::Engine::decode(&base64::engine::general_purpose::STANDARD, s).ok();
    let alphabet: Vec<char> = "AQgw/+9z=".chars().collect();
    let mut texts: Vec<String> = vec![String::new()];
    let mut layer: Vec<String> = vec![String::new()];
    for _ in 0..5 {
        let mut next = Vec::new();
        for t in &layer {
            for c in &alphabet {
                let mut longer = t.clone();
                longer.push(*c);
                next.push(longer);
            }
        }
        texts.extend(next.iter().cloned());
        layer = next;
    }
    for extra in ["TWFu TWFu", "TWFu\n", " TWFu", "TWFuTWE=", "TWFuTQ==", "TWFuTWF=", "TWFuTR==", "TWFu====", "-_-_"] {
        texts.push(extra.to_string());
    }
    let mut both = 0;
    for t in &texts {
        let chars: Vec<char> = t.chars().collect();
        if let Some(bytes) = strict(t) {
            assert_eq!(decode(&chars), Some(bytes), "{:?}", t);
            both += 1;
        }
    }
    assert!(both > 1000);
    let mut bytes: Vec<u8> = Vec::new();
    for n in 0..300usize {
        let text = encode(&bytes);
        assert_eq!(text, base64::Engine::encode(&base64::engine::general_purpose::STANDARD, &bytes));
        assert_eq!(strict(&text), Some(bytes.clone()));
        bytes.push((n * 89 % 256) as u8);
    }
}
