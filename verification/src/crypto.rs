//! The secure vault: authenticated encryption of secrets under one key that
//! is made once and kept.

pub mod base64;

use aes_gcm::aead::{Aead, KeyInit};
use aes_gcm::{Aes256Gcm, Nonce};
use rand::Rng;
use vstd::prelude::*;
use vstd::utf8::{decode_utf8, encode_utf8, valid_utf8};
use vstd::utf8::{decode_utf8_encode_utf8, encode_utf8_decode_utf8, encode_utf8_valid_utf8};
use crate::crypto::base64::{
    decode_result, encoded, lemma_decode_encode, lemma_decoded_length, lemma_encoded_symbols,
};
use crate::text::{ascii_text, string_from_utf8, texts, trimmed, ends_with, without_suffix};
use crate::text::{
    has_suffix, lemma_suffix_comes_off, lemma_trimmed_is_shorter, prefixed, strip_suffix,
};

verus! {

/// Bytes in a nonce.
pub const NONCE_SIZE: usize = 12;

/// Bytes in the vault key.
pub const KEY_SIZE: usize = 32;

/// Bytes in the authentication tag that closes a sealed message.
pub const TAG_SIZE: usize = 16;

/// The longest plaintext, in bytes, that the cipher takes.
pub const MAX_PLAINTEXT: u64 = 0x10_0000_0000;

/// Why the vault refused.
#[derive(Debug, PartialEq, Eq)]
pub enum VaultError {
    /// The vault holds no key, so nothing can be sealed or opened.
    Unavailable,
    /// The vault holds no key, so it keeps no entries.
    DummyMode,
    /// A nonce must have `NONCE_SIZE` bytes.
    InvalidNonceLength,
    /// A key must have `KEY_SIZE` bytes.
    InvalidKeyLength,
    /// The stored key is not base64 text; the message names the byte.
    KeyDecodeFailed(String),
    /// The payload is not base64 text; the message names the byte.
    DecodeFailed(String),
    /// The payload is shorter than a nonce.
    Malformed,
    /// The cipher refused the plaintext.
    EncryptionFailed,
    /// The cipher did not open the payload: its tag does not fit under this key.
    AuthenticationFailed,
    /// The plaintext is not UTF-8.
    InvalidUtf8,
}

/// A `VaultError` as a mathematical value.
pub ghost enum VaultFailure {
    Unavailable,
    DummyMode,
    InvalidNonceLength,
    InvalidKeyLength,
    KeyDecodeFailed(Seq<char>),
    DecodeFailed(Seq<char>),
    Malformed,
    EncryptionFailed,
    AuthenticationFailed,
    InvalidUtf8,
}

impl View for VaultError {
    type V = VaultFailure;

    open spec fn view(&self) -> VaultFailure {
        match self {
            VaultError::Unavailable => VaultFailure::Unavailable,
            VaultError::DummyMode => VaultFailure::DummyMode,
            VaultError::InvalidNonceLength => VaultFailure::InvalidNonceLength,
            VaultError::InvalidKeyLength => VaultFailure::InvalidKeyLength,
            VaultError::KeyDecodeFailed(message) => VaultFailure::KeyDecodeFailed(message@),
            VaultError::DecodeFailed(message) => VaultFailure::DecodeFailed(message@),
            VaultError::Malformed => VaultFailure::Malformed,
            VaultError::EncryptionFailed => VaultFailure::EncryptionFailed,
            VaultError::AuthenticationFailed => VaultFailure::AuthenticationFailed,
            VaultError::InvalidUtf8 => VaultFailure::InvalidUtf8,
        }
    }
}

impl VaultFailure {
    /// The words for a failure.
    pub open spec fn message(self) -> Seq<char> {
        match self {
            VaultFailure::Unavailable => "Storage not available"@,
            VaultFailure::DummyMode => "Storage not available in dummy mode"@,
            VaultFailure::InvalidNonceLength => "Invalid nonce length"@,
            VaultFailure::InvalidKeyLength => "Failed to create cipher: invalid key length"@,
            VaultFailure::KeyDecodeFailed(e) => "Failed to decode key: "@ + e,
            VaultFailure::DecodeFailed(e) => "Base64 decode failed: "@ + e,
            VaultFailure::Malformed => "Invalid encrypted data"@,
            VaultFailure::EncryptionFailed => "Encryption failed: Error"@,
            VaultFailure::AuthenticationFailed => "Decryption failed: Error"@,
            VaultFailure::InvalidUtf8 => "Invalid UTF-8 in decrypted data"@,
        }
    }
}

impl VaultError {
    /// The words for the failure.
    pub fn message(&self) -> (r: String)
        ensures
            r@ == self@.message(),
    {
        match self {
            VaultError::Unavailable => String::from_str("Storage not available"),
            VaultError::DummyMode => String::from_str("Storage not available in dummy mode"),
            VaultError::InvalidNonceLength => String::from_str("Invalid nonce length"),
            VaultError::InvalidKeyLength => String::from_str(
                "Failed to create cipher: invalid key length",
            ),
            VaultError::KeyDecodeFailed(e) => prefixed("Failed to decode key: ", e.as_str()),
            VaultError::DecodeFailed(e) => prefixed("Base64 decode failed: ", e.as_str()),
            VaultError::Malformed => String::from_str("Invalid encrypted data"),
            VaultError::EncryptionFailed => String::from_str("Encryption failed: Error"),
            VaultError::AuthenticationFailed => String::from_str("Decryption failed: Error"),
            VaultError::InvalidUtf8 => String::from_str("Invalid UTF-8 in decrypted data"),
        }
    }
}

/// A text or an error, as mathematical values.
pub open spec fn text_outcome(r: Result<String, VaultError>) -> Result<Seq<char>, VaultFailure> {
    match r {
        Ok(text) => Ok(text@),
        Err(e) => Err(e@),
    }
}

/// Bytes or nothing, as mathematical values.
pub open spec fn bytes_outcome(r: Option<Vec<u8>>) -> Option<Seq<u8>> {
    match r {
        Some(bytes) => Some(bytes@),
        None => None,
    }
}

/// What AES-256-GCM gives for a plaintext under a key and a nonce, with no
/// associated data: the ciphertext followed by its tag, or nothing where the
/// cipher refuses.
pub uninterp spec fn gcm_seal(key: Seq<u8>, nonce: Seq<u8>, plaintext: Seq<u8>) -> Option<Seq<u8>>;

/// What AES-256-GCM recovers from a sealed message under a key and a nonce,
/// with no associated data: the plaintext, or nothing where the tag does not
/// fit.
pub uninterp spec fn gcm_open(key: Seq<u8>, nonce: Seq<u8>, sealed: Seq<u8>) -> Option<Seq<u8>>;

/// `Rng::gen` on `rand::thread_rng()`: one byte from the thread's
/// cryptographically secure generator. Nothing is known of its value.
#[verifier::external_body]
fn random_byte() -> u8 {
    rand::thread_rng().gen()
}

/// `Aead::encrypt` of `Aes256Gcm`, made from the key by
/// `KeyInit::new_from_slice`: the sealed message is a function of key, nonce
/// and plaintext; it is refused only beyond `MAX_PLAINTEXT` bytes, and is
/// `TAG_SIZE` bytes longer than the plaintext.
#[verifier::external_body]
fn seal(key: &[u8], nonce: &[u8], plaintext: &[u8]) -> (r: Option<Vec<u8>>)
    requires
        key@.len() == KEY_SIZE,
        nonce@.len() == NONCE_SIZE,
    ensures
        bytes_outcome(r) == gcm_seal(key@, nonce@, plaintext@),
        plaintext@.len() <= MAX_PLAINTEXT ==> r is Some,
        r is Some ==> r->0@.len() == plaintext@.len() + TAG_SIZE,
{
    match Aes256Gcm::new_from_slice(key) {
        Ok(cipher) => cipher.encrypt(Nonce::from_slice(nonce), plaintext).ok(),
        Err(_) => None,
    }
}

/// Two sealed messages of one length hold the same ciphertext and different
/// tags: they are alike but in their last `TAG_SIZE` bytes.
pub open spec fn differs_in_tag_alone(genuine: Seq<u8>, given: Seq<u8>) -> bool {
    &&& genuine.len() == given.len()
    &&& genuine.len() >= TAG_SIZE
    &&& genuine.subrange(0, genuine.len() - TAG_SIZE) == given.subrange(0, given.len() - TAG_SIZE)
    &&& genuine != given
}

/// `Aead::decrypt` of `Aes256Gcm`, made from the key by
/// `KeyInit::new_from_slice`. The outcome is a function of key, nonce and
/// sealed message. A message is opened exactly where the tag that the
/// cipher computes over its ciphertext, under the key and the nonce, is the
/// tag it ends with; so
/// - a message that was sealed under the same key and nonce opens to the
///   plaintext it was made from;
/// - one too short to hold a tag is refused;
/// - one that differs in its tag alone from what the cipher seals under that
///   key and nonce is refused;
/// - one that was sealed under another nonce is refused, since the tag is
///   masked with the nonce's block enciphered under the key, and different
///   blocks encipher differently;
/// - one that opens is what the cipher seals of the plaintext it opens to,
///   as long as that is not longer than the cipher seals.
#[verifier::external_body]
fn unseal(key: &[u8], nonce: &[u8], sealed: &[u8]) -> (r: Option<Vec<u8>>)
    requires
        key@.len() == KEY_SIZE,
        nonce@.len() == NONCE_SIZE,
    ensures
        bytes_outcome(r) == gcm_open(key@, nonce@, sealed@),
        forall|plaintext: Seq<u8>| #[trigger]
            gcm_seal(key@, nonce@, plaintext) == Some(sealed@) ==> bytes_outcome(r) == Some(
                plaintext,
            ),
        sealed@.len() < TAG_SIZE ==> r is None,
        forall|plaintext: Seq<u8>|
            (#[trigger] gcm_seal(key@, nonce@, plaintext)) is Some && differs_in_tag_alone(
                gcm_seal(key@, nonce@, plaintext)->0,
                sealed@,
            ) ==> r is None,
        forall|other: Seq<u8>, plaintext: Seq<u8>|
            other.len() == NONCE_SIZE && other != nonce@ && #[trigger] gcm_seal(
                key@,
                other,
                plaintext,
            ) == Some(sealed@) ==> r is None,
        r is Some && r->0@.len() <= MAX_PLAINTEXT ==> gcm_seal(key@, nonce@, r->0@) == Some(
            sealed@,
        ),
{
    match Aes256Gcm::new_from_slice(key) {
        Ok(cipher) => cipher.decrypt(Nonce::from_slice(nonce), sealed).ok(),
        Err(_) => None,
    }
}

/// The payload for a sealed message: the text of the nonce followed by the
/// sealed bytes; a failure where the cipher refused.
pub open spec fn framed(nonce: Seq<u8>, sealed: Option<Seq<u8>>) -> Result<Seq<char>, VaultFailure> {
    match sealed {
        Some(bytes) => Ok(ascii_text(encoded(nonce + bytes))),
        None => Err(VaultFailure::EncryptionFailed),
    }
}

/// The payload that sealing a text under a key and a nonce gives.
pub open spec fn sealed_text(key: Seq<u8>, nonce: Seq<u8>, plaintext: Seq<char>) -> Result<
    Seq<char>,
    VaultFailure,
> {
    framed(nonce, gcm_seal(key, nonce, encode_utf8(plaintext)))
}

/// The nonce and the sealed bytes that a payload holds: a failure where the
/// payload is not base64 text or is shorter than a nonce.
pub open spec fn payload_parts(payload: Seq<char>) -> Result<(Seq<u8>, Seq<u8>), VaultFailure> {
    match decode_result(payload) {
        Err(message) => Err(VaultFailure::DecodeFailed(message)),
        Ok(data) => if data.len() < NONCE_SIZE {
            Err(VaultFailure::Malformed)
        } else {
            Ok((data.take(NONCE_SIZE as int), data.skip(NONCE_SIZE as int)))
        },
    }
}

/// The payload has the measure of a sealed text: it holds a nonce and a
/// sealed message that is one tag longer than the text, in four symbols for
/// every three bytes begun.
pub open spec fn payload_fits(payload: Seq<char>, plaintext: Seq<char>) -> bool {
    let size = encode_utf8(plaintext).len();
    &&& payload_parts(payload) is Ok
    &&& payload_parts(payload)->Ok_0.0.len() == NONCE_SIZE
    &&& payload_parts(payload)->Ok_0.1.len() == size + TAG_SIZE
    &&& payload.len() == 4 * ((NONCE_SIZE + size + TAG_SIZE + 2) / 3)
}

/// The text that opened bytes hold: a failure where nothing was opened or the
/// bytes are not UTF-8.
pub open spec fn opened_text(opened: Option<Seq<u8>>) -> Result<Seq<char>, VaultFailure> {
    match opened {
        None => Err(VaultFailure::AuthenticationFailed),
        Some(bytes) => if valid_utf8(bytes) {
            Ok(decode_utf8(bytes))
        } else {
            Err(VaultFailure::InvalidUtf8)
        },
    }
}

/// The payload holds the nonce and the ciphertext of a genuine one, and
/// another tag.
pub open spec fn altered_in_tag_alone(genuine: Seq<char>, payload: Seq<char>) -> bool {
    &&& payload_parts(genuine) is Ok
    &&& payload_parts(payload) is Ok
    &&& payload_parts(genuine)->Ok_0.0 == payload_parts(payload)->Ok_0.0
    &&& differs_in_tag_alone(payload_parts(genuine)->Ok_0.1, payload_parts(payload)->Ok_0.1)
}

/// The payload holds the sealed message of a genuine one, and another
/// nonce.
pub open spec fn altered_in_nonce_alone(genuine: Seq<char>, payload: Seq<char>) -> bool {
    &&& payload_parts(genuine) is Ok
    &&& payload_parts(payload) is Ok
    &&& payload_parts(genuine)->Ok_0.0 != payload_parts(payload)->Ok_0.0
    &&& payload_parts(genuine)->Ok_0.1 == payload_parts(payload)->Ok_0.1
}

/// The payload holds a nonce and, sealed under the key and that nonce, the
/// text.
pub open spec fn holds_sealed(key: Seq<u8>, payload: Seq<char>, plaintext: Seq<char>) -> bool {
    &&& payload_parts(payload) is Ok
    &&& gcm_seal(key, payload_parts(payload)->Ok_0.0, encode_utf8(plaintext)) == Some(
        payload_parts(payload)->Ok_0.1,
    )
}

/// What opening a payload under a key gives.
pub open spec fn unsealed_text(key: Seq<u8>, payload: Seq<char>) -> Result<Seq<char>, VaultFailure> {
    match payload_parts(payload) {
        Err(e) => Err(e),
        Ok((nonce, sealed)) => opened_text(gcm_open(key, nonce, sealed)),
    }
}

fn copy_range(source: &[u8], from: usize, to: usize) -> (r: Vec<u8>)
    requires
        from <= to <= source@.len(),
    ensures
        r@ == source@.subrange(from as int, to as int),
{
    let mut out: Vec<u8> = Vec::new();
    let mut i: usize = from;
    while i < to
        invariant
            from <= i <= to <= source@.len(),
            out@ == source@.subrange(from as int, i as int),
        decreases to - i,
    {
        out.push(source[i]);
        proof {
            assert(out@ =~= source@.subrange(from as int, i + 1));
        }
        i = i + 1;
    }
    out
}

/// The given number of bytes from the thread's secure random generator.
pub fn random_bytes(count: usize) -> (r: Vec<u8>)
    ensures
        r@.len() == count,
{
    let mut out: Vec<u8> = Vec::new();
    let mut i: usize = 0;
    while i < count
        invariant
            i <= count,
            out@.len() == i,
        decreases count - i,
    {
        out.push(random_byte());
        i = i + 1;
    }
    out
}

/// Puts a nonce and what the cipher made of the plaintext into one payload.
pub fn frame_payload(nonce: &[u8], sealed: Option<Vec<u8>>) -> (r: Result<String, VaultError>)
    ensures
        text_outcome(r) == framed(nonce@, bytes_outcome(sealed)),
{
    match sealed {
        Some(bytes) => {
            let mut data = copy_range(nonce, 0, nonce.len());
            let mut tail = bytes;
            proof {
                assert(data@ =~= nonce@);
            }
            data.append(&mut tail);
            Ok(base64::encode(data.as_slice()))
        },
        None => Err(VaultError::EncryptionFailed),
    }
}

/// Takes a payload apart into its nonce and the sealed bytes.
pub fn split_payload(payload: &str) -> (r: Result<(Vec<u8>, Vec<u8>), VaultError>)
    ensures
        match r {
            Ok((nonce, sealed)) => payload_parts(payload@) == Ok::<
                (Seq<u8>, Seq<u8>),
                VaultFailure,
            >((nonce@, sealed@)),
            Err(e) => payload_parts(payload@) == Err::<(Seq<u8>, Seq<u8>), VaultFailure>(e@),
        },
{
    match base64::decode(payload) {
        Err(message) => Err(VaultError::DecodeFailed(message)),
        Ok(data) => {
            if data.len() < NONCE_SIZE {
                Err(VaultError::Malformed)
            } else {
                let nonce = copy_range(data.as_slice(), 0, NONCE_SIZE);
                let sealed = copy_range(data.as_slice(), NONCE_SIZE, data.len());
                Ok((nonce, sealed))
            }
        },
    }
}

/// Reads what the cipher opened as a text.
pub fn plaintext_of(opened: Option<Vec<u8>>) -> (r: Result<String, VaultError>)
    ensures
        text_outcome(r) == opened_text(bytes_outcome(opened)),
{
    match opened {
        None => Err(VaultError::AuthenticationFailed),
        Some(bytes) => match string_from_utf8(bytes) {
            Some(text) => Ok(text),
            None => Err(VaultError::InvalidUtf8),
        },
    }
}

/// A payload holds the nonce and the sealed bytes that it was framed from.
pub proof fn lemma_unsealed_parts(nonce: Seq<u8>, sealed: Seq<u8>)
    requires
        nonce.len() == NONCE_SIZE,
    ensures
        payload_parts(ascii_text(encoded(nonce + sealed))) == Ok::<
            (Seq<u8>, Seq<u8>),
            VaultFailure,
        >((nonce, sealed)),
{
    lemma_decode_encode(nonce + sealed);
    assert((nonce + sealed).take(NONCE_SIZE as int) =~= nonce);
    assert((nonce + sealed).skip(NONCE_SIZE as int) =~= sealed);
}

/// A sealed payload tells its nonce and what the cipher made of the text.
pub proof fn lemma_sealed_parts(key: Seq<u8>, nonce: Seq<u8>, plaintext: Seq<char>)
    requires
        nonce.len() == NONCE_SIZE,
        sealed_text(key, nonce, plaintext) is Ok,
    ensures
        gcm_seal(key, nonce, encode_utf8(plaintext)) is Some,
        payload_parts(sealed_text(key, nonce, plaintext)->Ok_0) == Ok::<
            (Seq<u8>, Seq<u8>),
            VaultFailure,
        >((nonce, gcm_seal(key, nonce, encode_utf8(plaintext))->0)),
{
    lemma_unsealed_parts(nonce, gcm_seal(key, nonce, encode_utf8(plaintext))->0);
}

/// Payloads sealed under different nonces differ, whatever the key and the
/// texts: a nonce that is fresh gives a payload that is new.
pub proof fn lemma_nonce_tells_payloads_apart(
    key: Seq<u8>,
    nonce_a: Seq<u8>,
    text_a: Seq<char>,
    nonce_b: Seq<u8>,
    text_b: Seq<char>,
)
    requires
        nonce_a.len() == NONCE_SIZE,
        nonce_b.len() == NONCE_SIZE,
        nonce_a != nonce_b,
        sealed_text(key, nonce_a, text_a) is Ok,
        sealed_text(key, nonce_b, text_b) is Ok,
    ensures
        sealed_text(key, nonce_a, text_a) != sealed_text(key, nonce_b, text_b),
{
    lemma_sealed_parts(key, nonce_a, text_a);
    lemma_sealed_parts(key, nonce_b, text_b);
}

/// A payload that is no base64 text, or that holds fewer bytes than a nonce,
/// is refused as that, whatever the key: nothing is opened. So is every
/// payload whose own text is shorter than a nonce.
pub proof fn lemma_malformed_payload_refused(key: Seq<u8>, payload: Seq<char>)
    ensures
        decode_result(payload) is Err ==> unsealed_text(key, payload) == Err::<
            Seq<char>,
            VaultFailure,
        >(VaultFailure::DecodeFailed(decode_result(payload)->Err_0)),
        decode_result(payload) is Ok && decode_result(payload)->Ok_0.len() < NONCE_SIZE
            ==> unsealed_text(key, payload) == Err::<Seq<char>, VaultFailure>(
            VaultFailure::Malformed,
        ),
        encode_utf8(payload).len() < NONCE_SIZE ==> unsealed_text(key, payload) is Err && (
        unsealed_text(key, payload)->Err_0 is DecodeFailed || unsealed_text(key, payload)->Err_0
            == VaultFailure::Malformed),
{
    lemma_trimmed_is_shorter(payload);
    lemma_decoded_length(encode_utf8(trimmed(payload)));
}

/// A payload whose message does not fit its nonce under the key is refused
/// for that: what decides is the cipher alone.
pub proof fn lemma_unauthentic_payload_refused(key: Seq<u8>, payload: Seq<char>)
    requires
        payload_parts(payload) is Ok,
        gcm_open(key, payload_parts(payload)->Ok_0.0, payload_parts(payload)->Ok_0.1) is None,
    ensures
        unsealed_text(key, payload) == Err::<Seq<char>, VaultFailure>(
            VaultFailure::AuthenticationFailed,
        ),
{
}

/// A bit that is flipped in a byte makes another byte of it.
proof fn lemma_flipped_bit_differs(byte: u8, bit: u8)
    by (bit_vector)
    requires
        bit < 8,
    ensures
        byte ^ (1u8 << bit) != byte,
{
}

/// The bytes with one bit of one byte flipped.
pub open spec fn with_bit_flipped(data: Seq<u8>, at: int, bit: u8) -> Seq<u8> {
    data.update(at, data[at] ^ (1u8 << bit))
}

/// A payload with any one bit of its tag flipped is a payload altered in
/// its tag alone: `SecureStorage::decrypt` refuses it as unauthentic.
pub proof fn lemma_flipped_tag_bit_alters_tag_alone(data: Seq<u8>, at: int, bit: u8)
    requires
        data.len() >= NONCE_SIZE + TAG_SIZE,
        data.len() - TAG_SIZE <= at < data.len(),
        bit < 8,
    ensures
        altered_in_tag_alone(
            ascii_text(encoded(data)),
            ascii_text(encoded(with_bit_flipped(data, at, bit))),
        ),
{
    let flipped = with_bit_flipped(data, at, bit);
    let nonce = data.take(NONCE_SIZE as int);
    let sealed = data.skip(NONCE_SIZE as int);
    let sealed_flipped = flipped.skip(NONCE_SIZE as int);
    lemma_flipped_bit_differs(data[at], bit);
    assert(data =~= nonce + sealed);
    assert(flipped =~= nonce + sealed_flipped);
    lemma_unsealed_parts(nonce, sealed);
    lemma_unsealed_parts(nonce, sealed_flipped);
    assert(sealed.subrange(0, sealed.len() - TAG_SIZE) =~= sealed_flipped.subrange(
        0,
        sealed_flipped.len() - TAG_SIZE,
    ));
    assert(sealed[at - NONCE_SIZE] != sealed_flipped[at - NONCE_SIZE]);
}

/// A payload with any one bit of its nonce flipped is a payload altered in
/// its nonce alone: `SecureStorage::decrypt` refuses it as unauthentic.
pub proof fn lemma_flipped_nonce_bit_alters_nonce_alone(data: Seq<u8>, at: int, bit: u8)
    requires
        data.len() >= NONCE_SIZE,
        0 <= at < NONCE_SIZE,
        bit < 8,
    ensures
        altered_in_nonce_alone(
            ascii_text(encoded(data)),
            ascii_text(encoded(with_bit_flipped(data, at, bit))),
        ),
{
    let flipped = with_bit_flipped(data, at, bit);
    let nonce = data.take(NONCE_SIZE as int);
    let nonce_flipped = flipped.take(NONCE_SIZE as int);
    let sealed = data.skip(NONCE_SIZE as int);
    lemma_flipped_bit_differs(data[at], bit);
    assert(data =~= nonce + sealed);
    assert(flipped =~= nonce_flipped + sealed);
    lemma_unsealed_parts(nonce, sealed);
    lemma_unsealed_parts(nonce_flipped, sealed);
    assert(nonce[at] != nonce_flipped[at]);
}

/// Nothing is returned that the cipher did not open: a text comes back only
/// where the payload holds a nonce and a message that fits it under the key.
pub proof fn lemma_fails_closed(key: Seq<u8>, payload: Seq<char>)
    requires
        unsealed_text(key, payload) is Ok,
    ensures
        payload_parts(payload) is Ok,
        gcm_open(key, payload_parts(payload)->Ok_0.0, payload_parts(payload)->Ok_0.1) is Some,
        valid_utf8(gcm_open(key, payload_parts(payload)->Ok_0.0, payload_parts(payload)->Ok_0.1)->0),
        encode_utf8(unsealed_text(key, payload)->Ok_0) == gcm_open(
            key,
            payload_parts(payload)->Ok_0.0,
            payload_parts(payload)->Ok_0.1,
        )->0,
{
    let parts = payload_parts(payload)->Ok_0;
    decode_utf8_encode_utf8(gcm_open(key, parts.0, parts.1)->0);
}

/// The file that holds the entry of the given name.
pub open spec fn entry_file_name(name: Seq<char>) -> Seq<char> {
    name + entry_suffix()
}

/// The ending of the files that hold entries.
pub open spec fn entry_suffix() -> Seq<char> {
    seq!['.', 'e', 'n', 'c']
}

/// The entry names that a listing of file names shows: for each file with
/// the entry ending, in the order given, its name with that ending taken off
/// once.
pub open spec fn listed_entries(files: Seq<Seq<char>>) -> Seq<Seq<char>>
    decreases files.len(),
{
    if files.len() == 0 {
        Seq::empty()
    } else if ends_with(files.last(), entry_suffix()) {
        listed_entries(files.drop_last()).push(without_suffix(files.last(), entry_suffix()))
    } else {
        listed_entries(files.drop_last())
    }
}

/// Each entry has a file of its own, and the listing of that file shows the
/// entry's name as it was given, whatever the name.
pub proof fn lemma_entry_is_listed(name: Seq<char>, other: Seq<char>)
    ensures
        entry_file_name(name) == entry_file_name(other) ==> name == other,
        listed_entries(seq![entry_file_name(name)]) == seq![name],
{
    lemma_suffix_comes_off(name, entry_suffix());
    lemma_suffix_comes_off(other, entry_suffix());
    let files = seq![entry_file_name(name)];
    assert(files.drop_last() =~= Seq::<Seq<char>>::empty());
    assert(files.last() == entry_file_name(name));
    assert(listed_entries(files.drop_last()) =~= Seq::<Seq<char>>::empty());
    assert(listed_entries(files) =~= seq![name]);
}

/// The listing shows the names of the entries whose files are given, each
/// as it was stored, in the order of the files.
pub proof fn lemma_entries_are_listed(names: Seq<Seq<char>>)
    ensures
        listed_entries(names.map_values(|name: Seq<char>| entry_file_name(name))) == names,
    decreases names.len(),
{
    let files = names.map_values(|name: Seq<char>| entry_file_name(name));
    if names.len() == 0 {
        assert(listed_entries(files) =~= names);
    } else {
        lemma_entries_are_listed(names.drop_last());
        lemma_suffix_comes_off(names.last(), entry_suffix());
        assert(files.drop_last() =~= names.drop_last().map_values(
            |name: Seq<char>| entry_file_name(name),
        ));
        assert(files.last() == entry_file_name(names.last()));
        assert(listed_entries(files) =~= names);
    }
}

/// The listing shows stored names only, and all of them: each name listed
/// is the name of an entry whose file is among those given, and each entry
/// file among them has its name listed.
pub proof fn lemma_listing_is_exact(files: Seq<Seq<char>>)
    ensures
        forall|i: int|
            0 <= i < listed_entries(files).len() ==> files.contains(
                entry_file_name(#[trigger] listed_entries(files)[i]),
            ),
        forall|j: int|
            0 <= j < files.len() && ends_with(#[trigger] files[j], entry_suffix())
                ==> listed_entries(files).contains(without_suffix(files[j], entry_suffix())),
    decreases files.len(),
{
    if files.len() > 0 {
        let earlier = files.drop_last();
        let last = files.last();
        lemma_listing_is_exact(earlier);
        let listed = listed_entries(files);
        assert forall|i: int| 0 <= i < listed.len() implies files.contains(
            entry_file_name(#[trigger] listed[i]),
        ) by {
            if i < listed_entries(earlier).len() {
                let name = listed_entries(earlier)[i];
                assert(listed[i] == name);
                let j = choose|j: int| 0 <= j < earlier.len() && earlier[j] == entry_file_name(name);
                assert(files[j] == entry_file_name(name));
            } else {
                assert(listed[i] == without_suffix(last, entry_suffix()));
                assert(entry_file_name(listed[i]) =~= last);
                assert(files[files.len() - 1] == last);
            }
        }
        assert forall|j: int|
            0 <= j < files.len() && ends_with(
                #[trigger] files[j],
                entry_suffix(),
            ) implies listed.contains(without_suffix(files[j], entry_suffix())) by {
            if j < earlier.len() {
                assert(earlier[j] == files[j]);
                let name = without_suffix(files[j], entry_suffix());
                let i = choose|i: int|
                    0 <= i < listed_entries(earlier).len() && listed_entries(earlier)[i] == name;
                assert(listed[i] == name);
            } else {
                assert(listed[listed.len() - 1] == without_suffix(last, entry_suffix()));
            }
        }
    }
}

/// The vault. It holds the key, or none: without a key it only refuses.
pub struct SecureStorage {
    key: Option<Vec<u8>>,
}

impl SecureStorage {
    #[verifier::type_invariant]
    spec fn key_fits(&self) -> bool {
        self.key is Some ==> self.key->0@.len() == KEY_SIZE
    }

    /// The vault holds no key.
    pub closed spec fn dummy(&self) -> bool {
        self.key is None
    }

    /// The key of the vault.
    pub closed spec fn key(&self) -> Seq<u8> {
        match self.key {
            Some(key) => key@,
            None => Seq::empty(),
        }
    }

    /// The key to work with: read from its stored text where there is one,
    /// else made anew from `KEY_SIZE` random bytes, together with the text to
    /// store for it. A stored key is taken as it is and never replaced.
    fn get_or_create_key(stored: Option<&str>) -> (r: Result<
        (Vec<u8>, Option<String>),
        VaultError,
    >)
        ensures
            match stored {
                Some(text) => match decode_result(text@) {
                    Ok(bytes) => r is Ok && r->Ok_0.0@ == bytes && r->Ok_0.1 is None,
                    Err(message) => r is Err && r->Err_0@ == VaultFailure::KeyDecodeFailed(
                        message,
                    ),
                },
                None => r is Ok && r->Ok_0.0@.len() == KEY_SIZE && r->Ok_0.1 is Some
                    && r->Ok_0.1->0@ == ascii_text(encoded(r->Ok_0.0@)) && decode_result(
                    r->Ok_0.1->0@,
                ) == Ok::<Seq<u8>, Seq<char>>(r->Ok_0.0@),
            },
    {
        match stored {
            Some(text) => match base64::decode(text) {
                Ok(key) => Ok((key, None)),
                Err(message) => Err(VaultError::KeyDecodeFailed(message)),
            },
            None => {
                let key = random_bytes(KEY_SIZE);
                let text = base64::encode(key.as_slice());
                proof {
                    lemma_decode_encode(key@);
                }
                Ok((key, Some(text)))
            },
        }
    }

    /// A vault with the given key.
    pub fn with_key(key: Vec<u8>) -> (r: Result<SecureStorage, VaultError>)
        ensures
            key@.len() == KEY_SIZE ==> r is Ok && !r->Ok_0.dummy() && r->Ok_0.key() == key@,
            key@.len() != KEY_SIZE ==> r is Err && r->Err_0@ == VaultFailure::InvalidKeyLength,
    {
        if key.len() == KEY_SIZE {
            Ok(SecureStorage { key: Some(key) })
        } else {
            Err(VaultError::InvalidKeyLength)
        }
    }

    /// The vault for an installation: with the stored key where its text is
    /// given, else with a fresh one, whose text is handed back to be stored.
    pub fn new(stored_key: Option<&str>) -> (r: Result<(SecureStorage, Option<String>), VaultError>)
        ensures
            match stored_key {
                Some(text) => match decode_result(text@) {
                    Ok(bytes) => if bytes.len() == KEY_SIZE {
                        r is Ok && !r->Ok_0.0.dummy() && r->Ok_0.0.key() == bytes && r->Ok_0.1
                            is None
                    } else {
                        r is Err && r->Err_0@ == VaultFailure::InvalidKeyLength
                    },
                    Err(message) => r is Err && r->Err_0@ == VaultFailure::KeyDecodeFailed(
                        message,
                    ),
                },
                None => r is Ok && !r->Ok_0.0.dummy() && r->Ok_0.0.key().len() == KEY_SIZE
                    && r->Ok_0.1 is Some && decode_result(r->Ok_0.1->0@) == Ok::<
                    Seq<u8>,
                    Seq<char>,
                >(r->Ok_0.0.key()),
            },
    {
        match Self::get_or_create_key(stored_key) {
            Err(e) => Err(e),
            Ok((key, text)) => match Self::with_key(key) {
                Err(e) => Err(e),
                Ok(storage) => Ok((storage, text)),
            },
        }
    }

    /// A vault without a key.
    pub fn new_dummy() -> (r: SecureStorage)
        ensures
            r.dummy(),
    {
        SecureStorage { key: None }
    }

    /// Seals the text under the key and the given nonce.
    pub fn seal_with_nonce(&self, nonce: &[u8], plaintext: &str) -> (r: Result<String, VaultError>)
        ensures
            self.dummy() ==> text_outcome(r) == Err::<Seq<char>, VaultFailure>(
                VaultFailure::Unavailable,
            ),
            !self.dummy() && nonce@.len() != NONCE_SIZE ==> text_outcome(r) == Err::<
                Seq<char>,
                VaultFailure,
            >(VaultFailure::InvalidNonceLength),
            !self.dummy() && nonce@.len() == NONCE_SIZE ==> text_outcome(r) == sealed_text(
                self.key(),
                nonce@,
                plaintext@,
            ),
            !self.dummy() && nonce@.len() == NONCE_SIZE && encode_utf8(plaintext@).len()
                <= MAX_PLAINTEXT ==> r is Ok,
            r is Ok ==> payload_fits(r->Ok_0@, plaintext@) && payload_parts(r->Ok_0@)->Ok_0.0
                == nonce@,
    {
        proof {
            use_type_invariant(self);
        }
        match &self.key {
            None => Err(VaultError::Unavailable),
            Some(key) => {
                if nonce.len() != NONCE_SIZE {
                    Err(VaultError::InvalidNonceLength)
                } else {
                    let sealed = seal(key.as_slice(), nonce, plaintext.as_bytes());
                    proof {
                        if sealed is Some {
                            lemma_unsealed_parts(nonce@, sealed->0@);
                            lemma_encoded_symbols(nonce@ + sealed->0@);
                        }
                    }
                    frame_payload(nonce, sealed)
                }
            },
        }
    }

    /// Seals the text under the key and a fresh random nonce.
    pub fn encrypt(&self, plaintext: &str) -> (r: Result<String, VaultError>)
        ensures
            self.dummy() ==> text_outcome(r) == Err::<Seq<char>, VaultFailure>(
                VaultFailure::Unavailable,
            ),
            !self.dummy() ==> exists|nonce: Seq<u8>|
                nonce.len() == NONCE_SIZE && text_outcome(r) == #[trigger] sealed_text(
                    self.key(),
                    nonce,
                    plaintext@,
                ),
            !self.dummy() && encode_utf8(plaintext@).len() <= MAX_PLAINTEXT ==> r is Ok,
            r is Ok ==> payload_fits(r->Ok_0@, plaintext@),
    {
        match &self.key {
            None => Err(VaultError::Unavailable),
            Some(_) => {
                let nonce = random_bytes(NONCE_SIZE);
                let r = self.seal_with_nonce(nonce.as_slice(), plaintext);
                proof {
                    assert(text_outcome(r) == sealed_text(self.key(), nonce@, plaintext@));
                }
                r
            },
        }
    }

    /// Opens a payload. Whatever was sealed under this key comes back as it
    /// was. A text comes back only from a payload that holds, sealed under
    /// this key and the payload's nonce, that text. A payload that the
    /// cipher does not open is refused, and nothing of it is returned; among
    /// these are the payloads without a whole tag, and those that differ
    /// from a sealed one in the tag alone or in the nonce alone. Of a
    /// payload that differs from a sealed one in its ciphertext nothing more
    /// is stated: under a key whose hash subkey is zero the tag does not
    /// depend on the ciphertext, and the cipher opens such a payload.
    pub fn decrypt(&self, payload: &str) -> (r: Result<String, VaultError>)
        ensures
            self.dummy() ==> text_outcome(r) == Err::<Seq<char>, VaultFailure>(
                VaultFailure::Unavailable,
            ),
            !self.dummy() ==> text_outcome(r) == unsealed_text(self.key(), payload@),
            !self.dummy() && payload_parts(payload@) is Ok && payload_parts(payload@)->Ok_0.1.len()
                < TAG_SIZE ==> text_outcome(r) == Err::<Seq<char>, VaultFailure>(
                VaultFailure::AuthenticationFailed,
            ),
            forall|nonce: Seq<u8>, plaintext: Seq<char>|
                !self.dummy() && nonce.len() == NONCE_SIZE && #[trigger] sealed_text(
                    self.key(),
                    nonce,
                    plaintext,
                ) == Ok::<Seq<char>, VaultFailure>(payload@) ==> text_outcome(r) == Ok::<
                    Seq<char>,
                    VaultFailure,
                >(plaintext),
            forall|nonce: Seq<u8>, plaintext: Seq<char>|
                !self.dummy() && nonce.len() == NONCE_SIZE && (#[trigger] sealed_text(
                    self.key(),
                    nonce,
                    plaintext,
                )) is Ok && (altered_in_tag_alone(
                    sealed_text(self.key(), nonce, plaintext)->Ok_0,
                    payload@,
                ) || altered_in_nonce_alone(
                    sealed_text(self.key(), nonce, plaintext)->Ok_0,
                    payload@,
                )) ==> text_outcome(r) == Err::<Seq<char>, VaultFailure>(
                    VaultFailure::AuthenticationFailed,
                ),
            r is Ok && encode_utf8(r->Ok_0@).len() <= MAX_PLAINTEXT ==> holds_sealed(
                self.key(),
                payload@,
                r->Ok_0@,
            ),
    {
        proof {
            use_type_invariant(self);
        }
        match &self.key {
            None => Err(VaultError::Unavailable),
            Some(key) => {
                proof {
                    assert forall|nonce: Seq<u8>, plaintext: Seq<char>|
                        nonce.len() == NONCE_SIZE && (#[trigger] sealed_text(
                            self.key(),
                            nonce,
                            plaintext,
                        )) is Ok implies payload_parts(
                        sealed_text(self.key(), nonce, plaintext)->Ok_0,
                    ) == Ok::<(Seq<u8>, Seq<u8>), VaultFailure>(
                        (nonce, gcm_seal(self.key(), nonce, encode_utf8(plaintext))->0),
                    ) && gcm_seal(self.key(), nonce, encode_utf8(plaintext)) is Some by {
                        lemma_sealed_parts(self.key(), nonce, plaintext);
                    }
                    assert forall|nonce: Seq<u8>, plaintext: Seq<char>|
                        nonce.len() == NONCE_SIZE && #[trigger] sealed_text(
                            self.key(),
                            nonce,
                            plaintext,
                        ) == Ok::<Seq<char>, VaultFailure>(payload@) implies payload_parts(
                        payload@,
                    ) == Ok::<(Seq<u8>, Seq<u8>), VaultFailure>(
                        (nonce, gcm_seal(self.key(), nonce, encode_utf8(plaintext))->0),
                    ) && gcm_seal(self.key(), nonce, encode_utf8(plaintext)) is Some by {
                        lemma_sealed_parts(self.key(), nonce, plaintext);
                    }
                }
                match split_payload(payload) {
                    Err(e) => Err(e),
                    Ok((nonce, sealed)) => {
                        let opened = unseal(key.as_slice(), nonce.as_slice(), sealed.as_slice());
                        let ghost opened_bytes = bytes_outcome(opened);
                        let r = plaintext_of(opened);
                        proof {
                            if r is Ok {
                                decode_utf8_encode_utf8(opened_bytes->0);
                            }
                            assert forall|n: Seq<u8>, plaintext: Seq<char>|
                                n.len() == NONCE_SIZE && #[trigger] sealed_text(
                                    self.key(),
                                    n,
                                    plaintext,
                                ) == Ok::<Seq<char>, VaultFailure>(
                                    payload@,
                                ) implies text_outcome(r) == Ok::<Seq<char>, VaultFailure>(
                                plaintext,
                            ) by {
                                let bytes = encode_utf8(plaintext);
                                assert(gcm_seal(key@, nonce@, bytes) == Some(sealed@));
                                encode_utf8_valid_utf8(plaintext);
                                encode_utf8_decode_utf8(plaintext);
                            }
                        }
                        r
                    },
                }
            },
        }
    }

    /// The file that holds the named entry.
    pub fn entry_file(&self, name: &str) -> (r: Result<String, VaultError>)
        ensures
            self.dummy() ==> text_outcome(r) == Err::<Seq<char>, VaultFailure>(
                VaultFailure::DummyMode,
            ),
            !self.dummy() ==> text_outcome(r) == Ok::<Seq<char>, VaultFailure>(
                entry_file_name(name@),
            ),
    {
        match &self.key {
            None => Err(VaultError::DummyMode),
            Some(_) => {
                let mut file = String::from_str(name);
                file.append(".enc");
                proof {
                    reveal_strlit(".enc");
                    assert(".enc"@ =~= entry_suffix());
                }
                Ok(file)
            },
        }
    }

    /// What to write for an entry: the file that holds it, and the value
    /// sealed under a fresh nonce.
    pub fn store(&self, name: &str, value: &str) -> (r: Result<(String, String), VaultError>)
        ensures
            self.dummy() ==> r is Err && r->Err_0@ == VaultFailure::DummyMode,
            !self.dummy() ==> exists|nonce: Seq<u8>|
                nonce.len() == NONCE_SIZE && match #[trigger] sealed_text(
                    self.key(),
                    nonce,
                    value@,
                ) {
                    Ok(payload) => r is Ok && r->Ok_0.0@ == entry_file_name(name@) && r->Ok_0.1@
                        == payload,
                    Err(e) => r is Err && r->Err_0@ == e,
                },
            !self.dummy() && encode_utf8(value@).len() <= MAX_PLAINTEXT ==> r is Ok,
            r is Ok ==> payload_fits(r->Ok_0.1@, value@),
    {
        match self.entry_file(name) {
            Err(e) => Err(e),
            Ok(file) => match self.encrypt(value) {
                Err(e) => Err(e),
                Ok(payload) => Ok((file, payload)),
            },
        }
    }

    /// The value of an entry, from what its file holds.
    pub fn retrieve(&self, contents: &str) -> (r: Result<String, VaultError>)
        ensures
            self.dummy() ==> text_outcome(r) == Err::<Seq<char>, VaultFailure>(
                VaultFailure::DummyMode,
            ),
            !self.dummy() ==> text_outcome(r) == unsealed_text(self.key(), contents@),
            !self.dummy() && payload_parts(contents@) is Ok && payload_parts(
                contents@,
            )->Ok_0.1.len() < TAG_SIZE ==> text_outcome(r) == Err::<Seq<char>, VaultFailure>(
                VaultFailure::AuthenticationFailed,
            ),
            forall|nonce: Seq<u8>, value: Seq<char>|
                !self.dummy() && nonce.len() == NONCE_SIZE && #[trigger] sealed_text(
                    self.key(),
                    nonce,
                    value,
                ) == Ok::<Seq<char>, VaultFailure>(contents@) ==> text_outcome(r) == Ok::<
                    Seq<char>,
                    VaultFailure,
                >(value),
            forall|nonce: Seq<u8>, value: Seq<char>|
                !self.dummy() && nonce.len() == NONCE_SIZE && (#[trigger] sealed_text(
                    self.key(),
                    nonce,
                    value,
                )) is Ok && (altered_in_tag_alone(
                    sealed_text(self.key(), nonce, value)->Ok_0,
                    contents@,
                ) || altered_in_nonce_alone(
                    sealed_text(self.key(), nonce, value)->Ok_0,
                    contents@,
                )) ==> text_outcome(r) == Err::<Seq<char>, VaultFailure>(
                    VaultFailure::AuthenticationFailed,
                ),
            r is Ok && encode_utf8(r->Ok_0@).len() <= MAX_PLAINTEXT ==> holds_sealed(
                self.key(),
                contents@,
                r->Ok_0@,
            ),
    {
        match &self.key {
            None => Err(VaultError::DummyMode),
            Some(_) => self.decrypt(contents),
        }
    }

    /// The file to remove for an entry.
    pub fn delete(&self, name: &str) -> (r: Result<String, VaultError>)
        ensures
            self.dummy() ==> text_outcome(r) == Err::<Seq<char>, VaultFailure>(
                VaultFailure::DummyMode,
            ),
            !self.dummy() ==> text_outcome(r) == Ok::<Seq<char>, VaultFailure>(
                entry_file_name(name@),
            ),
    {
        self.entry_file(name)
    }

    /// The names of the entries among the given file names. A vault without
    /// a key lists nothing.
    pub fn list_keys(&self, files: &Vec<String>) -> (r: Result<Vec<String>, VaultError>)
        ensures
            r is Ok,
            self.dummy() ==> r->Ok_0@.len() == 0,
            !self.dummy() ==> texts(r->Ok_0@) == listed_entries(texts(files@)),
    {
        let mut keys: Vec<String> = Vec::new();
        if self.key.is_none() {
            return Ok(keys);
        }
        let mut i: usize = 0;
        proof {
            assert(texts(files@).take(0) =~= Seq::<Seq<char>>::empty());
            assert(texts(keys@) =~= Seq::<Seq<char>>::empty());
        }
        while i < files.len()
            invariant
                i <= files@.len(),
                texts(keys@) == listed_entries(texts(files@).take(i as int)),
            decreases files.len() - i,
        {
            let file = files[i].as_str();
            let ghost before = texts(keys@);
            proof {
                reveal_strlit(".enc");
                assert(".enc"@ =~= entry_suffix());
                let shown = texts(files@).take(i + 1);
                assert(shown.drop_last() =~= texts(files@).take(i as int));
                assert(shown.last() == file@);
            }
            if has_suffix(file, ".enc") {
                keys.push(strip_suffix(file, ".enc"));
                proof {
                    assert(texts(keys@) =~= before.push(without_suffix(file@, entry_suffix())));
                }
            }
            i = i + 1;
        }
        proof {
            assert(texts(files@).take(i as int) =~= texts(files@));
        }
        Ok(keys)
    }
}

} // verus!
