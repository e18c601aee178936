use ssh_terminal::session::{
    AuthMethod, ConnectionConfig, SavedSession, SessionError, SessionManager,
};
use ssh_terminal::table::NameTable;

fn config(host: &str, auth_type: &str, auth_value: &str) -> ConnectionConfig {
    ConnectionConfig {
        host: host.to_string(),
        port: 22,
        username: "root".to_string(),
        auth_type: auth_type.to_string(),
        auth_value: auth_value.to_string(),
    }
}

fn sorted(mut listed: Vec<(String, ConnectionConfig)>) -> Vec<(String, ConnectionConfig)> {
    listed.sort_by(|a, b| a.0.cmp(&b.0));
    listed
}

#[test]
fn new_store_is_empty() {
    let store = SessionManager::new();
    assert_eq!(store.load_sessions(), vec![]);
    assert_eq!(store.saved_sessions(), vec![]);
    assert_eq!(store.get_session("x"), Err(SessionError::NotFound("x".to_string())));
}

#[test]
fn saved_session_is_listed_without_secret() {
    let mut store = SessionManager::new();
    store.save_session("x", config("example.org", "password", "hunter2"), "c2VhbGVk".to_string());
    let listed = store.load_sessions();
    assert_eq!(listed.len(), 1);
    assert_eq!(listed[0].0, "x");
    assert_eq!(listed[0].1.host, "example.org");
    assert_eq!(listed[0].1.port, 22);
    assert_eq!(listed[0].1.username, "root");
    assert_eq!(listed[0].1.auth_type, "password");
    assert_eq!(listed[0].1.auth_value, "");
    let shown = format!("{:?}", listed);
    assert!(!shown.contains("hunter2"));
    assert!(!shown.contains("c2VhbGVk"));
}

#[test]
fn saved_session_is_found_as_saved() {
    let mut store = SessionManager::new();
    store.save_session("x", config("example.org", "password", ""), "sealed".to_string());
    assert_eq!(
        store.get_session("x"),
        Ok((config("example.org", "password", ""), "sealed".to_string()))
    );
    assert_eq!(store.get_session("X"), Err(SessionError::NotFound("X".to_string())));
    assert_eq!(store.get_session(""), Err(SessionError::NotFound(String::new())));
}

#[test]
fn last_write_wins_on_one_name() {
    let mut store = SessionManager::new();
    store.save_session("x", config("first.example", "password", ""), "one".to_string());
    store.save_session("y", config("other.example", "agent", ""), "other".to_string());
    store.save_session("x", config("second.example", "key", ""), "two".to_string());
    assert_eq!(
        store.get_session("x"),
        Ok((config("second.example", "key", ""), "two".to_string()))
    );
    assert_eq!(
        store.get_session("y"),
        Ok((config("other.example", "agent", ""), "other".to_string()))
    );
    assert_eq!(
        sorted(store.load_sessions()),
        vec![
            ("x".to_string(), config("second.example", "key", "")),
            ("y".to_string(), config("other.example", "agent", "")),
        ]
    );
}

#[test]
fn deleted_session_is_not_found() {
    let mut store = SessionManager::new();
    store.save_session("x", config("example.org", "password", ""), "sealed".to_string());
    store.save_session("y", config("other.example", "agent", ""), "other".to_string());
    store.delete_session("x");
    assert_eq!(store.get_session("x"), Err(SessionError::NotFound("x".to_string())));
    assert_eq!(
        store.load_sessions(),
        vec![("y".to_string(), config("other.example", "agent", ""))]
    );
}

#[test]
fn deleting_twice_or_nothing_changes_nothing() {
    let mut store = SessionManager::new();
    store.delete_session("x");
    assert_eq!(store.load_sessions(), vec![]);
    store.save_session("y", config("other.example", "agent", ""), "other".to_string());
    store.delete_session("x");
    store.delete_session("x");
    assert_eq!(store.load_sessions().len(), 1);
    store.delete_session("y");
    store.delete_session("y");
    assert_eq!(store.load_sessions(), vec![]);
}

#[test]
fn names_are_told_apart_by_every_character() {
    let mut store = SessionManager::new();
    store.save_session("prod", config("a", "agent", ""), "1".to_string());
    store.save_session("prod ", config("b", "agent", ""), "2".to_string());
    store.save_session("Prod", config("c", "agent", ""), "3".to_string());
    store.save_session("", config("d", "agent", ""), "4".to_string());
    assert_eq!(store.load_sessions().len(), 4);
    assert_eq!(store.get_session("prod").unwrap().1, "1");
    assert_eq!(store.get_session("prod ").unwrap().1, "2");
    assert_eq!(store.get_session("Prod").unwrap().1, "3");
    assert_eq!(store.get_session("").unwrap().1, "4");
}

#[test]
fn saved_sessions_keep_everything() {
    let mut store = SessionManager::new();
    store.save_session("x", config("example.org", "key", "/home/u/.ssh/id"), "sealed".to_string());
    assert_eq!(
        store.saved_sessions(),
        vec![(
            "x".to_string(),
            SavedSession {
                config: config("example.org", "key", "/home/u/.ssh/id"),
                encrypted_auth: "sealed".to_string(),
            }
        )]
    );
}

#[test]
fn restore_saves_each_in_turn() {
    let entries = vec![
        (
            "x".to_string(),
            SavedSession { config: config("first", "agent", ""), encrypted_auth: "1".to_string() },
        ),
        (
            "y".to_string(),
            SavedSession { config: config("other", "agent", ""), encrypted_auth: "2".to_string() },
        ),
        (
            "x".to_string(),
            SavedSession { config: config("second", "agent", ""), encrypted_auth: "3".to_string() },
        ),
    ];
    let store = SessionManager::restore(&entries);
    assert_eq!(store.load_sessions().len(), 2);
    assert_eq!(store.get_session("x"), Ok((config("second", "agent", ""), "3".to_string())));
    assert_eq!(store.get_session("y"), Ok((config("other", "agent", ""), "2".to_string())));
    let again = SessionManager::restore(&store.saved_sessions());
    assert_eq!(sorted(again.load_sessions()), sorted(store.load_sessions()));
}

#[test]
fn auth_type_names_the_way_to_sign_in() {
    assert_eq!(config("h", "password", "").auth_method(), Some(AuthMethod::Password));
    assert_eq!(config("h", "key", "").auth_method(), Some(AuthMethod::Key));
    assert_eq!(config("h", "agent", "").auth_method(), Some(AuthMethod::Agent));
    assert_eq!(config("h", "", "").auth_method(), None);
    assert_eq!(config("h", "Password", "").auth_method(), None);
    assert_eq!(config("h", "keyboard", "").auth_method(), None);
    assert_eq!(config("h", " agent", "").auth_method(), None);
}

#[test]
fn without_secret_blanks_auth_value_only() {
    let full = config("example.org", "password", "hunter2");
    assert_eq!(full.without_secret(), config("example.org", "password", ""));
    assert_eq!(full.clone(), full);
}

#[test]
fn session_error_has_words() {
    assert_eq!(SessionError::NotFound("x".to_string()).message(), "Session not found: x");
}

#[test]
fn name_table_holds_one_value_per_name() {
    let mut table: NameTable<u32> = NameTable::new();
    assert_eq!(table.get("a"), None);
    assert_eq!(table.insert("a", 1), None);
    assert_eq!(table.insert("b", 2), None);
    assert_eq!(table.insert("a", 3), Some(1));
    assert_eq!(table.get("a"), Some(&3));
    assert_eq!(table.get("b"), Some(&2));
    assert_eq!(table.get("c"), None);
    assert_eq!(table.remove("c"), None);
    assert_eq!(table.remove("a"), Some(3));
    assert_eq!(table.remove("a"), None);
    assert_eq!(table.get("b"), Some(&2));
}
