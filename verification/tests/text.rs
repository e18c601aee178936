use ssh_terminal::text::{
    chars_of, decimal_string, has_prefix, has_suffix, prefixed, same_text, strip_prefix,
    strip_suffix, trim,
};

#[test]
fn decimal_string_writes_numbers() {
    assert_eq!(decimal_string(0), "0");
    assert_eq!(decimal_string(7), "7");
    assert_eq!(decimal_string(10), "10");
    assert_eq!(decimal_string(22), "22");
    assert_eq!(decimal_string(65535), "65535");
    assert_eq!(decimal_string(1_000_000), "1000000");
    assert_eq!(decimal_string(u64::MAX), "18446744073709551615");
}

#[test]
fn same_text_compares_characters() {
    assert!(same_text("", ""));
    assert!(same_text("password", "password"));
    assert!(!same_text("password", "Password"));
    assert!(!same_text("key", "keys"));
    assert!(!same_text("keys", "key"));
    assert!(same_text("gr\u{fc}n", "gr\u{fc}n"));
    assert!(!same_text("gr\u{fc}n", "grun"));
}

#[test]
fn prefix_and_suffix_are_found() {
    assert!(has_suffix("a.enc", ".enc"));
    assert!(has_suffix(".enc", ".enc"));
    assert!(!has_suffix("enc", ".enc"));
    assert!(!has_suffix("a.enc ", ".enc"));
    assert!(has_suffix("anything", ""));
    assert!(has_prefix("ssh_key_a", "ssh_key_"));
    assert!(!has_prefix("ssh_key", "ssh_key_"));
    assert!(!has_prefix(" ssh_key_a", "ssh_key_"));
    assert!(has_prefix("", ""));
    assert!(has_suffix("\u{e9}t\u{e9}.enc", ".enc"));
}

#[test]
fn suffix_is_taken_off_once() {
    assert_eq!(strip_suffix("a.enc", ".enc"), "a");
    assert_eq!(strip_suffix("a.enc.enc", ".enc"), "a.enc");
    assert_eq!(strip_suffix(".enc", ".enc"), "");
    assert_eq!(strip_suffix("a.enc.txt", ".enc"), "a.enc.txt");
    assert_eq!(strip_suffix("enc", ".enc"), "enc");
    assert_eq!(strip_suffix("abc", ""), "abc");
    assert_eq!(strip_suffix("\u{e9}.enc", ".enc"), "\u{e9}");
}

#[test]
fn prefix_is_taken_off_once() {
    assert_eq!(strip_prefix("ssh_key_a", "ssh_key_"), "a");
    assert_eq!(strip_prefix("ssh_key_ssh_key_a", "ssh_key_"), "ssh_key_a");
    assert_eq!(strip_prefix("ssh_key_", "ssh_key_"), "");
    assert_eq!(strip_prefix("my_ssh_key_a", "ssh_key_"), "my_ssh_key_a");
    assert_eq!(strip_prefix("abc", ""), "abc");
    assert_eq!(strip_prefix("\u{e9}a", "\u{e9}"), "a");
}

#[test]
fn prefixed_joins_two_texts() {
    assert_eq!(prefixed("Read failed: ", "closed"), "Read failed: closed");
    assert_eq!(prefixed("", ""), "");
}

#[test]
fn chars_of_lists_characters() {
    assert_eq!(chars_of(""), Vec::<char>::new());
    assert_eq!(chars_of("a\u{e9}\u{1f511}"), vec!['a', '\u{e9}', '\u{1f511}']);
}

#[test]
fn trim_takes_white_space_off_both_ends() {
    assert_eq!(trim(""), "");
    assert_eq!(trim("   "), "");
    assert_eq!(trim("abc"), "abc");
    assert_eq!(trim("  a b \t\r\n"), "a b");
    assert_eq!(trim("\u{a0}\u{2003}x\u{3000}\u{85}"), "x");
    assert_eq!(trim("\u{200b}x\u{200b}"), "\u{200b}x\u{200b}");
    assert_eq!(trim(" \u{e9} "), "\u{e9}");
}

#[test]
fn trim_agrees_with_the_standard_library_on_every_character() {
    for code in 0..=0x2FFFFu32 {
        if let Some(c) = char::from_u32(code) {
            let text = format!("{}a{}", c, c);
            assert_eq!(trim(&text), text.trim(), "U+{:04X}", code);
        }
    }
}
