//! Named connection profiles, each kept with its sealed credential.

use vstd::prelude::*;
use crate::table::{lemma_as_map, position_of, NameTable};
use crate::text::{prefixed, same_text};

verus! {

/// What is needed to reach a host and sign in. `auth_type` says what
/// `auth_value` means: the secret itself for `password`, the path of a
/// private key for `key`, nothing for `agent`.
#[derive(Debug, PartialEq, Eq)]
pub struct ConnectionConfig {
    pub host: String,
    pub port: u16,
    pub username: String,
    pub auth_type: String,
    pub auth_value: String,
}

/// A `ConnectionConfig` as a mathematical value.
pub ghost struct ConnectionProfile {
    pub host: Seq<char>,
    pub port: u16,
    pub username: Seq<char>,
    pub auth_type: Seq<char>,
    pub auth_value: Seq<char>,
}

impl View for ConnectionConfig {
    type V = ConnectionProfile;

    open spec fn view(&self) -> ConnectionProfile {
        ConnectionProfile {
            host: self.host@,
            port: self.port,
            username: self.username@,
            auth_type: self.auth_type@,
            auth_value: self.auth_value@,
        }
    }
}

impl Clone for ConnectionConfig {
    fn clone(&self) -> (r: Self)
        ensures
            r@ == self@,
    {
        ConnectionConfig {
            host: self.host.clone(),
            port: self.port,
            username: self.username.clone(),
            auth_type: self.auth_type.clone(),
            auth_value: self.auth_value.clone(),
        }
    }
}

/// The way to sign in.
#[derive(Debug, Clone, Copy, PartialEq, Eq, Structural)]
pub enum AuthMethod {
    Password,
    Key,
    Agent,
}

/// The way to sign in that an `auth_type` names, if it names one.
pub open spec fn auth_method_of(auth_type: Seq<char>) -> Option<AuthMethod> {
    if auth_type == "password"@ {
        Some(AuthMethod::Password)
    } else if auth_type == "key"@ {
        Some(AuthMethod::Key)
    } else if auth_type == "agent"@ {
        Some(AuthMethod::Agent)
    } else {
        None
    }
}

/// The part of a profile that is no secret: all but `auth_value`, which is
/// left empty.
pub open spec fn public_part(profile: ConnectionProfile) -> ConnectionProfile {
    ConnectionProfile { auth_value: Seq::empty(), ..profile }
}

impl ConnectionConfig {
    /// The way to sign in that `auth_type` names, if it names one.
    pub fn auth_method(&self) -> (r: Option<AuthMethod>)
        ensures
            r == auth_method_of(self@.auth_type),
    {
        let auth_type = self.auth_type.as_str();
        if same_text(auth_type, "password") {
            Some(AuthMethod::Password)
        } else if same_text(auth_type, "key") {
            Some(AuthMethod::Key)
        } else if same_text(auth_type, "agent") {
            Some(AuthMethod::Agent)
        } else {
            None
        }
    }

    /// The profile without its secret.
    pub fn without_secret(&self) -> (r: ConnectionConfig)
        ensures
            r@ == public_part(self@),
    {
        ConnectionConfig {
            host: self.host.clone(),
            port: self.port,
            username: self.username.clone(),
            auth_type: self.auth_type.clone(),
            auth_value: String::new(),
        }
    }
}

/// A profile as it is kept: with the credential sealed by the vault.
#[derive(Debug, PartialEq, Eq)]
pub struct SavedSession {
    pub config: ConnectionConfig,
    pub encrypted_auth: String,
}

/// A `SavedSession` as a mathematical value.
pub ghost struct StoredSession {
    pub config: ConnectionProfile,
    pub encrypted_auth: Seq<char>,
}

impl View for SavedSession {
    type V = StoredSession;

    open spec fn view(&self) -> StoredSession {
        StoredSession { config: self.config@, encrypted_auth: self.encrypted_auth@ }
    }
}

impl Clone for SavedSession {
    fn clone(&self) -> (r: Self)
        ensures
            r@ == self@,
    {
        SavedSession { config: self.config.clone(), encrypted_auth: self.encrypted_auth.clone() }
    }
}

/// Why the store refused.
#[derive(Debug, PartialEq, Eq)]
pub enum SessionError {
    /// No profile has the name.
    NotFound(String),
}

/// The words for the failure to find a name.
pub open spec fn not_found_message(name: Seq<char>) -> Seq<char> {
    "Session not found: "@ + name
}

impl SessionError {
    /// The words for the failure.
    pub fn message(&self) -> (r: String)
        ensures
            match self {
                SessionError::NotFound(name) => r@ == not_found_message(name@),
            },
    {
        match self {
            SessionError::NotFound(name) => prefixed("Session not found: ", name.as_str()),
        }
    }
}

/// The collection after a profile was saved under a name: the name now
/// stands for that profile alone, all else is as before.
pub open spec fn saved(
    sessions: Map<Seq<char>, StoredSession>,
    name: Seq<char>,
    session: StoredSession,
) -> Map<Seq<char>, StoredSession> {
    sessions.insert(name, session)
}

/// The collection after a name was deleted.
pub open spec fn deleted(sessions: Map<Seq<char>, StoredSession>, name: Seq<char>) -> Map<
    Seq<char>,
    StoredSession,
> {
    sessions.remove(name)
}

/// What a listing shows: every name with the public part of its profile.
pub open spec fn listing(sessions: Map<Seq<char>, StoredSession>) -> Map<
    Seq<char>,
    ConnectionProfile,
> {
    sessions.map_values(|s: StoredSession| public_part(s.config))
}

/// What asking for a name gives: its profile and sealed credential, or
/// nothing where no profile has the name.
pub open spec fn found(sessions: Map<Seq<char>, StoredSession>, name: Seq<char>) -> Option<
    StoredSession,
> {
    if sessions.contains_key(name) {
        Some(sessions[name])
    } else {
        None
    }
}

/// A saved profile is listed under its name with its host, port, user and
/// way to sign in, and without its secret.
pub proof fn lemma_saved_is_listed(
    sessions: Map<Seq<char>, StoredSession>,
    name: Seq<char>,
    session: StoredSession,
)
    ensures
        listing(saved(sessions, name, session)).contains_key(name),
        listing(saved(sessions, name, session))[name].host == session.config.host,
        listing(saved(sessions, name, session))[name].port == session.config.port,
        listing(saved(sessions, name, session))[name].username == session.config.username,
        listing(saved(sessions, name, session))[name].auth_type == session.config.auth_type,
        listing(saved(sessions, name, session))[name].auth_value.len() == 0,
{
}

/// A saved profile is found again as it was saved: the last one saved under
/// a name is the one that counts.
pub proof fn lemma_saved_is_found(
    sessions: Map<Seq<char>, StoredSession>,
    name: Seq<char>,
    session: StoredSession,
)
    ensures
        found(saved(sessions, name, session), name) == Some(session),
{
}

/// A deleted name is not found, and deleting it again changes nothing.
pub proof fn lemma_deleted_is_gone(sessions: Map<Seq<char>, StoredSession>, name: Seq<char>)
    ensures
        found(deleted(sessions, name), name) is None,
        !listing(deleted(sessions, name)).contains_key(name),
        deleted(deleted(sessions, name), name) == deleted(sessions, name),
{
    assert(deleted(deleted(sessions, name), name) =~= deleted(sessions, name));
}

/// Saving or deleting one name leaves every other name as it was.
pub proof fn lemma_other_names_stay(
    sessions: Map<Seq<char>, StoredSession>,
    name: Seq<char>,
    session: StoredSession,
    other: Seq<char>,
)
    requires
        other != name,
    ensures
        found(saved(sessions, name, session), other) == found(sessions, other),
        found(deleted(sessions, name), other) == found(sessions, other),
{
}

/// The store of named profiles. A name stands for one profile at most.
pub struct SessionManager {
    sessions: NameTable<SavedSession>,
}

impl View for SessionManager {
    type V = Map<Seq<char>, StoredSession>;

    closed spec fn view(&self) -> Map<Seq<char>, StoredSession> {
        self.sessions@.map_values(|s: SavedSession| s@)
    }
}

impl SessionManager {
    /// An empty store.
    pub fn new() -> (r: SessionManager)
        ensures
            r@ == Map::<Seq<char>, StoredSession>::empty(),
    {
        let r = SessionManager { sessions: NameTable::new() };
        proof {
            assert(r@ =~= Map::<Seq<char>, StoredSession>::empty());
        }
        r
    }

    /// Saves a profile under a name. A profile that had the name is replaced
    /// as a whole.
    pub fn save_session(&mut self, name: &str, config: ConnectionConfig, encrypted_auth: String)
        ensures
            final(self)@ == saved(
                old(self)@,
                name@,
                StoredSession { config: config@, encrypted_auth: encrypted_auth@ },
            ),
    {
        let session = SavedSession { config, encrypted_auth };
        self.sessions.insert(name, session);
        proof {
            assert(self@ =~= saved(old(self)@, name@, session@));
        }
    }

    /// Deletes the profile of a name. Where no profile has the name, nothing
    /// changes.
    pub fn delete_session(&mut self, name: &str)
        ensures
            final(self)@ == deleted(old(self)@, name@),
    {
        self.sessions.remove(name);
        proof {
            assert(self@ =~= deleted(old(self)@, name@));
        }
    }

    /// The profile of a name with its sealed credential.
    pub fn get_session(&self, name: &str) -> (r: Result<(ConnectionConfig, String), SessionError>)
        ensures
            match r {
                Ok((config, encrypted_auth)) => found(self@, name@) == Some(
                    StoredSession { config: config@, encrypted_auth: encrypted_auth@ },
                ),
                Err(SessionError::NotFound(missing)) => found(self@, name@) is None && missing@
                    == name@,
            },
    {
        match self.sessions.get(name) {
            Some(session) => Ok((session.config.clone(), session.encrypted_auth.clone())),
            None => Err(SessionError::NotFound(String::from_str(name))),
        }
    }

    /// Every name with the public part of its profile, each name once, in no
    /// particular order. No credential is part of it, sealed or not.
    pub fn load_sessions(&self) -> (r: Vec<(String, ConnectionConfig)>)
        ensures
            forall|i: int|
                0 <= i < r@.len() ==> listing(self@).contains_key(#[trigger] r@[i].0@) && r@[i].1@
                    == listing(self@)[r@[i].0@],
            forall|i: int, j: int|
                0 <= i < r@.len() && 0 <= j < r@.len() && i != j ==> #[trigger] r@[i].0@
                    != #[trigger] r@[j].0@,
            forall|name: Seq<char>| #[trigger]
                listing(self@).contains_key(name) ==> exists|i: int|
                    0 <= i < r@.len() && #[trigger] r@[i].0@ == name,
    {
        let mut out: Vec<(String, ConnectionConfig)> = Vec::new();
        let count = self.sessions.count();
        let ghost slots = self.sessions.slots();
        proof {
            lemma_as_map(slots);
        }
        let mut i: usize = 0;
        while i < count
            invariant
                i <= count,
                count == slots.len(),
                slots == self.sessions.slots(),
                out@.len() == i,
                forall|k: int|
                    0 <= k < i ==> (#[trigger] out@[k]).0@ == slots[k].0@ && out@[k].1@
                        == public_part(slots[k].1@.config),
            decreases count - i,
        {
            let name = self.sessions.name_at(i).clone();
            let config = self.sessions.value_at(i).config.without_secret();
            out.push((name, config));
            i = i + 1;
        }
        proof {
            assert forall|name: Seq<char>| #[trigger]
                listing(self@).contains_key(name) implies exists|k: int|
                0 <= k < out@.len() && #[trigger] out@[k].0@ == name by {
                let p = position_of(slots, name);
                assert(out@[p].0@ == name);
            }
        }
        out
    }

    /// Every name with its profile as it is kept, each name once, in no
    /// particular order: what is written when the store is persisted.
    pub fn saved_sessions(&self) -> (r: Vec<(String, SavedSession)>)
        ensures
            forall|i: int|
                0 <= i < r@.len() ==> found(self@, #[trigger] r@[i].0@) == Some(r@[i].1@),
            forall|i: int, j: int|
                0 <= i < r@.len() && 0 <= j < r@.len() && i != j ==> #[trigger] r@[i].0@
                    != #[trigger] r@[j].0@,
            forall|name: Seq<char>| #[trigger]
                self@.contains_key(name) ==> exists|i: int|
                    0 <= i < r@.len() && #[trigger] r@[i].0@ == name,
    {
        let mut out: Vec<(String, SavedSession)> = Vec::new();
        let count = self.sessions.count();
        let ghost slots = self.sessions.slots();
        proof {
            lemma_as_map(slots);
        }
        let mut i: usize = 0;
        while i < count
            invariant
                i <= count,
                count == slots.len(),
                slots == self.sessions.slots(),
                out@.len() == i,
                forall|k: int|
                    0 <= k < i ==> (#[trigger] out@[k]).0@ == slots[k].0@ && out@[k].1@
                        == slots[k].1@,
            decreases count - i,
        {
            let name = self.sessions.name_at(i).clone();
            let session = self.sessions.value_at(i).clone();
            out.push((name, session));
            i = i + 1;
        }
        proof {
            assert forall|name: Seq<char>| #[trigger]
                self@.contains_key(name) implies exists|k: int|
                0 <= k < out@.len() && #[trigger] out@[k].0@ == name by {
                let p = position_of(slots, name);
                assert(out@[p].0@ == name);
            }
        }
        out
    }

    /// The store that holds the given profiles: each saved under its name in
    /// turn, so that of two with one name the later stays.
    pub fn restore(entries: &Vec<(String, SavedSession)>) -> (r: SessionManager)
        ensures
            r@ == restored(entries@),
    {
        let mut store = SessionManager::new();
        let mut i: usize = 0;
        proof {
            assert(entries@.take(0) =~= Seq::<(String, SavedSession)>::empty());
        }
        while i < entries.len()
            invariant
                i <= entries@.len(),
                store@ == restored(entries@.take(i as int)),
            decreases entries.len() - i,
        {
            let entry = &entries[i];
            proof {
                assert(entries@.take(i + 1).drop_last() =~= entries@.take(i as int));
                assert(entries@.take(i + 1).last() == entries@[i as int]);
            }
            store.save_session(
                entry.0.as_str(),
                entry.1.config.clone(),
                entry.1.encrypted_auth.clone(),
            );
            i = i + 1;
        }
        proof {
            assert(entries@.take(i as int) =~= entries@);
        }
        store
    }
}

/// The collection that saving the given profiles in turn makes up.
pub open spec fn restored(entries: Seq<(String, SavedSession)>) -> Map<Seq<char>, StoredSession>
    decreases entries.len(),
{
    if entries.len() == 0 {
        Map::empty()
    } else {
        saved(restored(entries.drop_last()), entries.last().0@, entries.last().1@)
    }
}

} // verus!
