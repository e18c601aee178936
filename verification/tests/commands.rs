use ssh_terminal::commands::{
    get_session_credentials, key_entry_name, list_ssh_keys, load_sessions, save_session,
    session_failure, SessionSummary,
};
use ssh_terminal::crypto::SecureStorage;
use ssh_terminal::session::SessionManager;
use ssh_terminal::ssh::SshError;

fn vault() -> SecureStorage {
    match SecureStorage::with_key(vec![42u8; 32]) {
        Ok(storage) => storage,
        Err(e) => panic!("no vault: {:?}", e),
    }
}

fn save(sessions: &mut SessionManager, storage: &SecureStorage, name: &str, secret: &str) -> Result<(), String> {
    save_session(
        sessions,
        storage,
        name,
        "example.org".to_string(),
        22,
        "alice".to_string(),
        "password".to_string(),
        secret.to_string(),
    )
}

#[test]
fn credentials_come_back_exactly() {
    let storage = vault();
    let mut sessions = SessionManager::new();
    assert_eq!(save(&mut sessions, &storage, "x", "secret"), Ok(()));
    assert_eq!(get_session_credentials(&sessions, &storage, "x"), Ok("secret".to_string()));
    assert_eq!(save(&mut sessions, &storage, "empty", ""), Ok(()));
    assert_eq!(get_session_credentials(&sessions, &storage, "empty"), Ok(String::new()));
    assert_eq!(save(&mut sessions, &storage, "x", " s\u{e9}cret\n"), Ok(()));
    assert_eq!(get_session_credentials(&sessions, &storage, "x"), Ok(" s\u{e9}cret\n".to_string()));
}

#[test]
fn saved_profile_is_listed_without_the_secret() {
    let storage = vault();
    let mut sessions = SessionManager::new();
    assert_eq!(save(&mut sessions, &storage, "x", "hunter2"), Ok(()));
    assert_eq!(
        load_sessions(&sessions),
        vec![SessionSummary {
            name: "x".to_string(),
            host: "example.org".to_string(),
            port: 22,
            username: "alice".to_string(),
            auth_type: "password".to_string(),
        }]
    );
    assert!(!format!("{:?}", load_sessions(&sessions)).contains("hunter2"));
    assert!(!format!("{:?}", sessions.saved_sessions()).contains("hunter2"));
    let (config, sealed) = sessions.get_session("x").unwrap();
    assert_eq!(config.auth_value, "");
    assert_ne!(sealed, "hunter2");
    assert_eq!(storage.decrypt(&sealed), Ok("hunter2".to_string()));
}

#[test]
fn deleted_profile_has_no_credentials() {
    let storage = vault();
    let mut sessions = SessionManager::new();
    assert_eq!(save(&mut sessions, &storage, "x", "secret"), Ok(()));
    sessions.delete_session("x");
    assert_eq!(
        get_session_credentials(&sessions, &storage, "x"),
        Err("Get credentials failed: Session not found: x".to_string())
    );
    assert_eq!(load_sessions(&sessions), vec![]);
}

#[test]
fn save_without_vault_saves_nothing() {
    let storage = SecureStorage::new_dummy();
    let mut sessions = SessionManager::new();
    assert_eq!(
        save(&mut sessions, &storage, "x", "secret"),
        Err("Encryption failed: Storage not available".to_string())
    );
    assert_eq!(load_sessions(&sessions), vec![]);
}

#[test]
fn credentials_sealed_by_another_vault_are_refused() {
    let mut sessions = SessionManager::new();
    assert_eq!(save(&mut sessions, &vault(), "x", "secret"), Ok(()));
    let other = match SecureStorage::with_key(vec![1u8; 32]) {
        Ok(storage) => storage,
        Err(e) => panic!("no vault: {:?}", e),
    };
    assert_eq!(
        get_session_credentials(&sessions, &other, "x"),
        Err("Decryption failed: Decryption failed: Error".to_string())
    );
    assert_eq!(
        get_session_credentials(&sessions, &SecureStorage::new_dummy(), "x"),
        Err("Decryption failed: Storage not available".to_string())
    );
}

#[test]
fn summaries_list_each_profile_once() {
    let storage = vault();
    let mut sessions = SessionManager::new();
    for name in ["a", "b", "c", "a"] {
        assert_eq!(save(&mut sessions, &storage, name, name), Ok(()));
    }
    let mut names: Vec<String> = load_sessions(&sessions).into_iter().map(|s| s.name).collect();
    names.sort();
    assert_eq!(names, vec!["a".to_string(), "b".to_string(), "c".to_string()]);
}

#[test]
fn key_entries_are_namespaced() {
    assert_eq!(key_entry_name("id"), "ssh_key_id");
    assert_eq!(key_entry_name(""), "ssh_key_");
}

#[test]
fn list_ssh_keys_shows_keys_only() {
    let entries: Vec<String> = ["ssh_key_id", "token", "ssh_key_", "ssh_key_ssh_key_x", "my_ssh_key_y", "ssh_key"]
        .iter()
        .map(|s| s.to_string())
        .collect();
    assert_eq!(
        list_ssh_keys(&entries),
        vec!["id".to_string(), String::new(), "ssh_key_x".to_string()]
    );
    assert_eq!(list_ssh_keys(&vec![]), Vec::<String>::new());
}

#[test]
fn keys_are_listed_under_the_names_they_were_kept_under() {
    let names = ["id", "ssh_key_x", "ssh_key_", "", "a.enc"];
    let entries: Vec<String> = names.iter().map(|name| key_entry_name(name)).collect();
    let expected: Vec<String> = names.iter().map(|name| name.to_string()).collect();
    assert_eq!(list_ssh_keys(&entries), expected);
}

#[test]
fn session_failure_says_what_was_being_done() {
    assert_eq!(
        session_failure("Connection failed", &SshError::HandshakeFailed("eof".to_string())),
        "Connection failed: Handshake failed: eof"
    );
    assert_eq!(
        session_failure("Read failed", &SshError::SessionNotFound),
        "Read failed: Session not found"
    );
}
