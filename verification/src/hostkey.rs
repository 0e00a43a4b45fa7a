//! Whether the key that a host offers may be trusted.

use vstd::prelude::*;
use crate::config::HostKeyPolicy;
use crate::error::HostKeyError;
use crate::base64::lemma_encode_injective;
use crate::hostspec::{decimal, host_spec_of};
use crate::known_hosts::{
    is_for, lookup_spec, record_for, HostKey, KnownHostsStore, Lookup, RecordView,
};

verus! {

/// What is to be done about an offered key.
#[derive(Clone, Copy, Debug, PartialEq, Eq, Structural)]
pub enum Decision {
    /// Go on.
    Trust,
    /// Store the key for the host, then go on.
    TrustAndPersist,
    /// Give the connection up.
    Reject(HostKeyError),
}

/// The decision for a policy and for what the store holds; `found` is `None`
/// where no store is configured.
///
/// Without a check everything is trusted. With one, a key that the store
/// holds for the host is trusted, another key for the host is rejected
/// whatever the policy, and an unknown host is accepted and stored only
/// where the policy accepts new keys and there is a store to hold them.
pub open spec fn decide_spec(policy: HostKeyPolicy, found: Option<Lookup>) -> Decision {
    match policy {
        HostKeyPolicy::InsecureIgnore => Decision::Trust,
        _ => match found {
            None => Decision::Reject(HostKeyError::Untrusted),
            Some(Lookup::Match) => Decision::Trust,
            Some(Lookup::Mismatch) => Decision::Reject(HostKeyError::Mismatch),
            Some(Lookup::NotFound) => if policy == HostKeyPolicy::AcceptNew {
                Decision::TrustAndPersist
            } else {
                Decision::Reject(HostKeyError::Untrusted)
            },
        },
    }
}

/// What a store, if there is one, holds for a record.
pub open spec fn found_in(store: Option<Seq<RecordView>>, wanted: RecordView) -> Option<Lookup> {
    match store {
        None => None,
        Some(s) => Some(lookup_spec(s, wanted)),
    }
}

/// The records of a store, if there is one.
pub open spec fn store_view(store: Option<KnownHostsStore>) -> Option<Seq<RecordView>> {
    match store {
        None => None,
        Some(s) => Some(s@),
    }
}

/// The decision for a policy and for what the store holds.
pub fn decide(policy: HostKeyPolicy, found: Option<Lookup>) -> (d: Decision)
    ensures
        d == decide_spec(policy, found),
{
    match policy {
        HostKeyPolicy::InsecureIgnore => Decision::Trust,
        _ => match found {
            None => Decision::Reject(HostKeyError::Untrusted),
            Some(Lookup::Match) => Decision::Trust,
            Some(Lookup::Mismatch) => Decision::Reject(HostKeyError::Mismatch),
            Some(Lookup::NotFound) => match policy {
                HostKeyPolicy::AcceptNew => Decision::TrustAndPersist,
                _ => Decision::Reject(HostKeyError::Untrusted),
            },
        },
    }
}

/// Decides on the key that `host` on `port` offers, and records it in the
/// store where it is newly trusted.
///
/// Under `InsecureIgnore` the store is not looked at. The store changes only
/// where the decision is `TrustAndPersist`: then the record of the key stands
/// at its end.
pub fn verify_host_key(
    policy: HostKeyPolicy,
    store: &mut Option<KnownHostsStore>,
    host: &str,
    port: u16,
    key: &HostKey,
) -> (d: Decision)
    ensures
        d == decide_spec(
            policy,
            found_in(store_view(*old(store)), record_for(host@, port, key.key_type@, key.blob@)),
        ),
        d == Decision::TrustAndPersist ==> store_view(*final(store)) == Some(
            store_view(*old(store))->0.push(record_for(host@, port, key.key_type@, key.blob@)),
        ),
        d != Decision::TrustAndPersist ==> store_view(*final(store)) == store_view(*old(store)),
{
    match policy {
        HostKeyPolicy::InsecureIgnore => Decision::Trust,
        _ => match store {
            None => decide(policy, None),
            Some(s) => {
                let found = s.lookup(host, port, key);
                let d = decide(policy, Some(found));
                match d {
                    Decision::TrustAndPersist => {
                        s.add(host, port, key);
                    },
                    _ => {},
                }
                d
            },
        },
    }
}

/// An empty store holds nothing for anybody.
pub proof fn lemma_empty_store_finds_nothing(wanted: RecordView)
    ensures
        lookup_spec(Seq::empty(), wanted) == Lookup::NotFound,
{
}

/// Under the strict policy a host that an empty store does not know is
/// rejected as untrusted, and a store given to `verify_host_key` stays as it
/// was.
pub proof fn lemma_strict_rejects_unknown_host(wanted: RecordView)
    ensures
        decide_spec(HostKeyPolicy::Strict, found_in(Some(Seq::empty()), wanted))
            == Decision::Reject(HostKeyError::Untrusted),
{
}

/// Where new keys are accepted, a host that an empty store does not know is
/// trusted and recorded: the store then holds one record, under the host in
/// square brackets, a colon and the port, where the port is not the default.
pub proof fn lemma_accept_new_records_unknown_host(
    host: Seq<char>,
    port: u16,
    key_type: Seq<char>,
    blob: Seq<u8>,
)
    ensures
        decide_spec(
            HostKeyPolicy::AcceptNew,
            found_in(Some(Seq::empty()), record_for(host, port, key_type, blob)),
        ) == Decision::TrustAndPersist,
        Seq::<RecordView>::empty().push(record_for(host, port, key_type, blob)).len() == 1,
        port != 22 ==> record_for(host, port, key_type, blob).host_spec == seq!['['] + host
            + seq![']', ':'] + decimal(port as nat),
        port == 2222 ==> record_for(host, port, key_type, blob).host_spec == seq!['['] + host
            + seq![']', ':', '2', '2', '2', '2'],
{
    reveal_with_fuel(decimal, 5);
    if port == 2222 {
        assert(decimal(2222) =~= seq!['2', '2', '2', '2']);
        assert(host_spec_of(host, port) =~= seq!['['] + host + seq![']', ':', '2', '2', '2', '2']);
    }
}

/// A store that holds records for the host, and none with the offered key,
/// makes a mismatch, and a mismatch is rejected under every policy that
/// checks at all: accepting new keys does not accept a changed one.
pub proof fn lemma_mismatch_always_rejects(
    policy: HostKeyPolicy,
    store: Seq<RecordView>,
    wanted: RecordView,
    at: int,
)
    requires
        policy != HostKeyPolicy::InsecureIgnore,
        0 <= at < store.len(),
        is_for(store[at], wanted.host_spec),
        forall|i: int| 0 <= i < store.len() ==> store[i] != wanted,
    ensures
        lookup_spec(store, wanted) == Lookup::Mismatch,
        decide_spec(policy, found_in(Some(store), wanted)) == Decision::Reject(
            HostKeyError::Mismatch,
        ),
{
}

/// A store whose only record for the host carries another key blob rejects
/// the offered one as a mismatch.
pub proof fn lemma_different_key_is_mismatch(
    policy: HostKeyPolicy,
    host: Seq<char>,
    port: u16,
    key_type: Seq<char>,
    stored: Seq<u8>,
    offered: Seq<u8>,
)
    requires
        policy != HostKeyPolicy::InsecureIgnore,
        stored != offered,
    ensures
        decide_spec(
            policy,
            found_in(
                Some(seq![record_for(host, port, key_type, stored)]),
                record_for(host, port, key_type, offered),
            ),
        ) == Decision::Reject(HostKeyError::Mismatch),
{
    let store = seq![record_for(host, port, key_type, stored)];
    let wanted = record_for(host, port, key_type, offered);
    if store[0] == wanted {
        lemma_encode_injective(stored, offered);
    }
    lemma_mismatch_always_rejects(policy, store, wanted, 0);
}

/// Without a check every key is trusted, whatever the store holds, and
/// nothing is to be recorded.
pub proof fn lemma_insecure_ignore_trusts(found: Option<Lookup>)
    ensures
        decide_spec(HostKeyPolicy::InsecureIgnore, found) == Decision::Trust,
{
}

/// Without a store nothing is verified: both checking policies reject.
pub proof fn lemma_no_store_rejects(policy: HostKeyPolicy)
    requires
        policy != HostKeyPolicy::InsecureIgnore,
    ensures
        decide_spec(policy, None) == Decision::Reject(HostKeyError::Untrusted),
{
}

} // verus!
