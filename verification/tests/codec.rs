use ssh_terminal::crypto::base64::{decode, decode_byte, encode, PAD};

#[test]
fn encode_known_text() {
    assert_eq!(encode(b""), "");
    assert_eq!(encode(b"f"), "Zg==");
    assert_eq!(encode(b"fo"), "Zm8=");
    assert_eq!(encode(b"foo"), "Zm9v");
    assert_eq!(encode(b"foob"), "Zm9vYg==");
    assert_eq!(encode(b"fooba"), "Zm9vYmE=");
    assert_eq!(encode(b"foobar"), "Zm9vYmFy");
}

#[test]
fn encode_uses_whole_alphabet() {
    assert_eq!(encode(&[0xfb, 0xff, 0xbf]), "+/+/");
    assert_eq!(encode(&[0x00, 0x10, 0x83]), "ABCD");
    assert_eq!(encode(&[0xff, 0xff, 0xff]), "////");
    assert_eq!(encode(&[0x69, 0xb7, 0x1d]), "abcd");
    assert_eq!(encode(&[0xd3, 0x5d, 0xb7]), "0123");
}

#[test]
fn decode_known_text() {
    assert_eq!(decode(""), Ok(vec![]));
    assert_eq!(decode("Zg=="), Ok(b"f".to_vec()));
    assert_eq!(decode("Zm8="), Ok(b"fo".to_vec()));
    assert_eq!(decode("Zm9v"), Ok(b"foo".to_vec()));
    assert_eq!(decode("Zm9vYg=="), Ok(b"foob".to_vec()));
    assert_eq!(decode("Zm9vYmE="), Ok(b"fooba".to_vec()));
    assert_eq!(decode("Zm9vYmFy"), Ok(b"foobar".to_vec()));
    assert_eq!(decode("+/+/"), Ok(vec![0xfb, 0xff, 0xbf]));
}

#[test]
fn decode_undoes_encode_for_every_length() {
    let mut bytes: Vec<u8> = Vec::new();
    for n in 0..200usize {
        assert_eq!(decode(&encode(&bytes)), Ok(bytes.clone()), "length {}", n);
        bytes.push((n * 37 % 256) as u8);
    }
}

#[test]
fn decode_undoes_encode_for_every_byte_value() {
    let bytes: Vec<u8> = (0..=255u8).collect();
    let text = encode(&bytes);
    assert_eq!(text.len(), 4 * ((256 + 2) / 3));
    assert_eq!(decode(&text), Ok(bytes));
}

#[test]
fn encoded_length_is_four_per_three() {
    for n in 0..50usize {
        let bytes = vec![0x5au8; n];
        assert_eq!(encode(&bytes).len(), 4 * ((n + 2) / 3));
    }
}

#[test]
fn decode_ignores_surrounding_white_space() {
    assert_eq!(decode("  Zm9v\n"), Ok(b"foo".to_vec()));
    assert_eq!(decode("\t\r\nZg==\u{a0}\u{2003}"), Ok(b"f".to_vec()));
    assert_eq!(decode("   "), Ok(vec![]));
}

#[test]
fn decode_refuses_white_space_inside() {
    assert_eq!(decode("Zm 9v"), Err("Invalid base64 character: 32".to_string()));
}

#[test]
fn decode_names_the_first_invalid_byte() {
    assert_eq!(decode("Zm9v!"), Err("Invalid base64 character: 33".to_string()));
    assert_eq!(decode("Z*9v!"), Err("Invalid base64 character: 42".to_string()));
    assert_eq!(decode("-m9v"), Err("Invalid base64 character: 45".to_string()));
    assert_eq!(decode("Zm9v\u{e9}"), Err("Invalid base64 character: 195".to_string()));
    assert_eq!(decode("\u{0}"), Err("Invalid base64 character: 0".to_string()));
}

#[test]
fn decode_takes_incomplete_groups() {
    assert_eq!(decode("Zg"), Ok(b"f".to_vec()));
    assert_eq!(decode("Zm8"), Ok(b"fo".to_vec()));
    assert_eq!(decode("Z"), Ok(vec![0x64]));
    assert_eq!(decode("="), Ok(vec![0x00]));
    assert_eq!(decode("Zm9vZg"), Ok(b"foof".to_vec()));
}

#[test]
fn decode_byte_gives_values() {
    assert_eq!(decode_byte(b'A'), Ok(0));
    assert_eq!(decode_byte(b'Z'), Ok(25));
    assert_eq!(decode_byte(b'a'), Ok(26));
    assert_eq!(decode_byte(b'z'), Ok(51));
    assert_eq!(decode_byte(b'0'), Ok(52));
    assert_eq!(decode_byte(b'9'), Ok(61));
    assert_eq!(decode_byte(b'+'), Ok(62));
    assert_eq!(decode_byte(b'/'), Ok(63));
    assert_eq!(decode_byte(b'='), Ok(0));
    assert_eq!(PAD, b'=');
}

#[test]
fn decode_byte_refuses_other_bytes() {
    assert_eq!(decode_byte(b'-'), Err("Invalid base64 character: 45".to_string()));
    assert_eq!(decode_byte(b'_'), Err("Invalid base64 character: 95".to_string()));
    assert_eq!(decode_byte(0), Err("Invalid base64 character: 0".to_string()));
    assert_eq!(decode_byte(255), Err("Invalid base64 character: 255".to_string()));
    assert_eq!(decode_byte(b'@'), Err("Invalid base64 character: 64".to_string()));
    assert_eq!(decode_byte(b'['), Err("Invalid base64 character: 91".to_string()));
    assert_eq!(decode_byte(b'`'), Err("Invalid base64 character: 96".to_string()));
    assert_eq!(decode_byte(b'{'), Err("Invalid base64 character: 123".to_string()));
}

#[test]
fn decode_byte_inverts_every_symbol() {
    let alphabet = b"ABCDEFGHIJKLMNOPQRSTUVWXYZabcdefghijklmnopqrstuvwxyz0123456789+/";
    for (value, symbol) in alphabet.iter().enumerate() {
        assert_eq!(decode_byte(*symbol), Ok(value as u8));
    }
}
