use ssh_terminal::config::themes::{
    get_colour, get_dark_theme, get_dracula_theme, get_light_theme,
};
use ssh_terminal::config::SecurityConfig;

const PARTS: [&str; 20] = [
    "background", "foreground", "cursor", "selection", "black", "red", "green", "yellow", "blue",
    "magenta", "cyan", "white", "brightBlack", "brightRed", "brightGreen", "brightYellow",
    "brightBlue", "brightMagenta", "brightCyan", "brightWhite",
];

#[test]
fn security_defaults_are_strict() {
    let config = SecurityConfig::default();
    assert_eq!(config.auto_lock_timeout, 300);
    assert!(!config.require_password_on_startup);
    assert!(!config.ssh_key_passphrase_cache);
    assert!(config.verify_host_keys);
    assert!(config.strict_host_key_checking);
}

#[test]
fn every_theme_names_every_part_once() {
    for theme in [get_dark_theme(), get_light_theme(), get_dracula_theme()] {
        let names: Vec<&str> = theme.iter().map(|entry| entry.0.as_str()).collect();
        assert_eq!(names, PARTS);
        for entry in &theme {
            assert_eq!(entry.1.len(), 7);
            assert!(entry.1.starts_with('#'));
            assert!(entry.1[1..].chars().all(|c| c.is_ascii_hexdigit()));
        }
    }
}

#[test]
fn dark_theme_colours() {
    let theme = get_dark_theme();
    assert_eq!(get_colour(&theme, "background"), Some(&"#1e1e1e".to_string()));
    assert_eq!(get_colour(&theme, "foreground"), Some(&"#d4d4d4".to_string()));
    assert_eq!(get_colour(&theme, "selection"), Some(&"#264f78".to_string()));
    assert_eq!(get_colour(&theme, "brightWhite"), Some(&"#ffffff".to_string()));
    assert_eq!(get_colour(&theme, "brightBlue"), Some(&"#9cdcfe".to_string()));
}

#[test]
fn light_theme_colours() {
    let theme = get_light_theme();
    assert_eq!(get_colour(&theme, "background"), Some(&"#ffffff".to_string()));
    assert_eq!(get_colour(&theme, "foreground"), Some(&"#323232".to_string()));
    assert_eq!(get_colour(&theme, "green"), Some(&"#00bc00".to_string()));
    assert_eq!(get_colour(&theme, "brightWhite"), Some(&"#a5a5a5".to_string()));
}

#[test]
fn dracula_theme_colours() {
    let theme = get_dracula_theme();
    assert_eq!(get_colour(&theme, "background"), Some(&"#282a36".to_string()));
    assert_eq!(get_colour(&theme, "magenta"), Some(&"#ff79c6".to_string()));
    assert_eq!(get_colour(&theme, "brightCyan"), Some(&"#a4ffff".to_string()));
    assert_eq!(get_colour(&theme, "brightWhite"), Some(&"#ffffff".to_string()));
}

#[test]
fn unknown_part_has_no_colour() {
    let theme = get_dark_theme();
    assert_eq!(get_colour(&theme, "Background"), None);
    assert_eq!(get_colour(&theme, ""), None);
    assert_eq!(get_colour(&vec![], "background"), None);
}
