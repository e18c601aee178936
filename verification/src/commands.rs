//! The operations that the user interface asks for, as far as they compute:
//! each takes the store, the vault or the registry it works on, and reports a
//! failure in words.

use vstd::prelude::*;
use vstd::utf8::encode_utf8;
use crate::crypto::{
    holds_sealed, payload_fits, sealed_text, SecureStorage, VaultFailure, MAX_PLAINTEXT, NONCE_SIZE,
};
use crate::session::{
    found, listing, not_found_message, saved, ConnectionConfig, ConnectionProfile, SessionManager,
    StoredSession,
};
use crate::ssh::SshError;
use crate::text::{
    has_prefix, lemma_prefix_comes_off, prefixed, starts_with, strip_prefix, texts,
    without_prefix,
};

verus! {

/// What a listing shows of one profile: its name and how to reach the host,
/// without any credential.
#[derive(Debug, PartialEq, Eq)]
pub struct SessionSummary {
    pub name: String,
    pub host: String,
    pub port: u16,
    pub username: String,
    pub auth_type: String,
}

/// A `SessionSummary` as a mathematical value.
pub ghost struct Summary {
    pub name: Seq<char>,
    pub host: Seq<char>,
    pub port: u16,
    pub username: Seq<char>,
    pub auth_type: Seq<char>,
}

impl View for SessionSummary {
    type V = Summary;

    open spec fn view(&self) -> Summary {
        Summary {
            name: self.name@,
            host: self.host@,
            port: self.port,
            username: self.username@,
            auth_type: self.auth_type@,
        }
    }
}

/// The summary of a profile under a name.
pub open spec fn summary_of(name: Seq<char>, profile: ConnectionProfile) -> Summary {
    Summary {
        name,
        host: profile.host,
        port: profile.port,
        username: profile.username,
        auth_type: profile.auth_type,
    }
}

/// The words for a failure in the course of an operation: what was being
/// done, a colon, and what went wrong.
pub open spec fn failure_text(doing: Seq<char>, failure: Seq<char>) -> Seq<char> {
    doing + ": "@ + failure
}

fn explain(doing: &str, failure: &str) -> (r: String)
    ensures
        r@ == failure_text(doing@, failure@),
{
    let mut out = String::from_str(doing);
    out.append(": ");
    out.append(failure);
    out
}

/// The words for a failure of a session in the course of an operation.
pub fn session_failure(doing: &str, error: &SshError) -> (r: String)
    ensures
        r@ == failure_text(doing@, error@.message()),
{
    let message = error.message();
    explain(doing, message.as_str())
}

/// Saves a profile under a name. Its credential is sealed by the vault, and
/// only the sealed form is kept: the profile is stored without `auth_value`.
/// Where the vault refuses, nothing is saved.
pub fn save_session(
    sessions: &mut SessionManager,
    storage: &SecureStorage,
    name: &str,
    host: String,
    port: u16,
    username: String,
    auth_type: String,
    auth_value: String,
) -> (r: Result<(), String>)
    ensures
        storage.dummy() ==> r is Err && r->Err_0@ == failure_text(
            "Encryption failed"@,
            VaultFailure::Unavailable.message(),
        ) && final(sessions)@ == old(sessions)@,
        !storage.dummy() ==> exists|nonce: Seq<u8>|
            nonce.len() == NONCE_SIZE && match #[trigger] sealed_text(
                storage.key(),
                nonce,
                auth_value@,
            ) {
                Ok(payload) => r is Ok && final(sessions)@ == saved(
                    old(sessions)@,
                    name@,
                    StoredSession {
                        config: ConnectionProfile {
                            host: host@,
                            port,
                            username: username@,
                            auth_type: auth_type@,
                            auth_value: Seq::empty(),
                        },
                        encrypted_auth: payload,
                    },
                ),
                Err(e) => r is Err && r->Err_0@ == failure_text("Encryption failed"@, e.message())
                    && final(sessions)@ == old(sessions)@,
            },
        !storage.dummy() && encode_utf8(auth_value@).len() <= MAX_PLAINTEXT ==> r is Ok,
        r is Ok ==> found(final(sessions)@, name@) is Some && payload_fits(
            found(final(sessions)@, name@)->0.encrypted_auth,
            auth_value@,
        ),
{
    match storage.encrypt(auth_value.as_str()) {
        Err(e) => {
            let message = e.message();
            Err(explain("Encryption failed", message.as_str()))
        },
        Ok(encrypted_auth) => {
            let config = ConnectionConfig {
                host,
                port,
                username,
                auth_type,
                auth_value: String::new(),
            };
            sessions.save_session(name, config, encrypted_auth);
            Ok(())
        },
    }
}

/// The credential of the profile under a name, unsealed. A credential that
/// was sealed by this vault comes back as it was given.
pub fn get_session_credentials(sessions: &SessionManager, storage: &SecureStorage, name: &str) -> (r:
    Result<String, String>)
    ensures
        found(sessions@, name@) is None ==> r is Err && r->Err_0@ == failure_text(
            "Get credentials failed"@,
            not_found_message(name@),
        ),
        found(sessions@, name@) is Some && storage.dummy() ==> r is Err && r->Err_0@
            == failure_text("Decryption failed"@, VaultFailure::Unavailable.message()),
        forall|nonce: Seq<u8>, secret: Seq<char>|
            found(sessions@, name@) is Some && !storage.dummy() && nonce.len() == NONCE_SIZE
                && #[trigger] sealed_text(storage.key(), nonce, secret) == Ok::<
                Seq<char>,
                VaultFailure,
            >(found(sessions@, name@)->0.encrypted_auth) ==> r is Ok && r->Ok_0@ == secret,
        found(sessions@, name@) is Some && !storage.dummy() ==> match crate::crypto::unsealed_text(
            storage.key(),
            found(sessions@, name@)->0.encrypted_auth,
        ) {
            Ok(secret) => r is Ok && r->Ok_0@ == secret,
            Err(e) => r is Err && r->Err_0@ == failure_text("Decryption failed"@, e.message()),
        },
        r is Ok && encode_utf8(r->Ok_0@).len() <= MAX_PLAINTEXT ==> found(sessions@, name@)
            is Some && holds_sealed(
            storage.key(),
            found(sessions@, name@)->0.encrypted_auth,
            r->Ok_0@,
        ),
{
    match sessions.get_session(name) {
        Err(e) => {
            let message = e.message();
            Err(explain("Get credentials failed", message.as_str()))
        },
        Ok((_, encrypted_auth)) => match storage.decrypt(encrypted_auth.as_str()) {
            Ok(secret) => Ok(secret),
            Err(e) => {
                let message = e.message();
                Err(explain("Decryption failed", message.as_str()))
            },
        },
    }
}

/// The summaries of all saved profiles, each name once, in no particular
/// order.
pub fn load_sessions(sessions: &SessionManager) -> (r: Vec<SessionSummary>)
    ensures
        forall|i: int|
            0 <= i < r@.len() ==> listing(sessions@).contains_key(#[trigger] r@[i]@.name) && r@[i]@
                == summary_of(r@[i]@.name, listing(sessions@)[r@[i]@.name]),
        forall|i: int, j: int|
            0 <= i < r@.len() && 0 <= j < r@.len() && i != j ==> #[trigger] r@[i]@.name
                != #[trigger] r@[j]@.name,
        forall|name: Seq<char>| #[trigger]
            listing(sessions@).contains_key(name) ==> exists|i: int|
                0 <= i < r@.len() && #[trigger] r@[i]@.name == name,
{
    let listed = sessions.load_sessions();
    let mut out: Vec<SessionSummary> = Vec::new();
    let mut i: usize = 0;
    while i < listed.len()
        invariant
            i <= listed@.len(),
            out@.len() == i,
            forall|k: int|
                0 <= k < i ==> (#[trigger] out@[k])@ == summary_of(listed@[k].0@, listed@[k].1@),
        decreases listed.len() - i,
    {
        let entry = &listed[i];
        out.push(
            SessionSummary {
                name: entry.0.clone(),
                host: entry.1.host.clone(),
                port: entry.1.port,
                username: entry.1.username.clone(),
                auth_type: entry.1.auth_type.clone(),
            },
        );
        i = i + 1;
    }
    proof {
        assert forall|name: Seq<char>| #[trigger]
            listing(sessions@).contains_key(name) implies exists|k: int|
            0 <= k < out@.len() && #[trigger] out@[k]@.name == name by {
            let k = choose|k: int| 0 <= k < listed@.len() && #[trigger] listed@[k].0@ == name;
            assert(out@[k]@.name == name);
        }
        assert forall|a: int, b: int|
            0 <= a < out@.len() && 0 <= b < out@.len() && a != b implies #[trigger] out@[a]@.name
            != #[trigger] out@[b]@.name by {
            assert(listed@[a].0@ != listed@[b].0@);
        }
        assert forall|k: int| 0 <= k < out@.len() implies listing(sessions@).contains_key(
            #[trigger] out@[k]@.name,
        ) && out@[k]@ == summary_of(out@[k]@.name, listing(sessions@)[out@[k]@.name]) by {
            assert(listing(sessions@).contains_key(listed@[k].0@));
        }
    }
    out
}

/// The beginning of the names under which the vault keeps private keys.
pub open spec fn key_prefix() -> Seq<char> {
    "ssh_key_"@
}

/// The name under which the vault keeps the private key of a given name.
pub fn key_entry_name(name: &str) -> (r: String)
    ensures
        r@ == key_prefix() + name@,
{
    prefixed("ssh_key_", name)
}

/// The key names that a listing of vault entries shows: for each entry that
/// begins as a private key's does, in the order given, its name with that
/// beginning taken off once.
pub open spec fn listed_keys(entries: Seq<Seq<char>>) -> Seq<Seq<char>>
    decreases entries.len(),
{
    if entries.len() == 0 {
        Seq::empty()
    } else if starts_with(entries.last(), key_prefix()) {
        listed_keys(entries.drop_last()).push(without_prefix(entries.last(), key_prefix()))
    } else {
        listed_keys(entries.drop_last())
    }
}

/// A private key is listed under the name it was kept under, whatever the
/// name.
pub proof fn lemma_key_is_listed(name: Seq<char>)
    ensures
        listed_keys(seq![key_prefix() + name]) == seq![name],
{
    lemma_prefix_comes_off(key_prefix(), name);
    let entries = seq![key_prefix() + name];
    assert(entries.drop_last() =~= Seq::<Seq<char>>::empty());
    assert(entries.last() == key_prefix() + name);
    assert(listed_keys(entries.drop_last()) =~= Seq::<Seq<char>>::empty());
    assert(listed_keys(entries) =~= seq![name]);
}

/// The names of the private keys among the entries of the vault.
pub fn list_ssh_keys(entries: &Vec<String>) -> (r: Vec<String>)
    ensures
        texts(r@) == listed_keys(texts(entries@)),
{
    let mut keys: Vec<String> = Vec::new();
    let mut i: usize = 0;
    proof {
        assert(texts(entries@).take(0) =~= Seq::<Seq<char>>::empty());
        assert(texts(keys@) =~= Seq::<Seq<char>>::empty());
    }
    while i < entries.len()
        invariant
            i <= entries@.len(),
            texts(keys@) == listed_keys(texts(entries@).take(i as int)),
        decreases entries.len() - i,
    {
        let entry = entries[i].as_str();
        let ghost before = texts(keys@);
        proof {
            let shown = texts(entries@).take(i + 1);
            assert(shown.drop_last() =~= texts(entries@).take(i as int));
            assert(shown.last() == entry@);
        }
        if has_prefix(entry, "ssh_key_") {
            keys.push(strip_prefix(entry, "ssh_key_"));
            proof {
                assert(texts(keys@) =~= before.push(without_prefix(entry@, key_prefix())));
            }
        }
        i = i + 1;
    }
    proof {
        assert(texts(entries@).take(i as int) =~= texts(entries@));
    }
    keys
}

} // verus!
