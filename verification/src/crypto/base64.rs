//! Base64 with the standard alphabet and `=` padding: the text form in which
//! keys and ciphertext are stored.

use vstd::prelude::*;
use vstd::utf8::encode_utf8;
use crate::text::{
    all_ascii, ascii_string, ascii_text, decimal, decimal_string, lemma_ascii_utf8, trim, trimmed,
};

verus! {

/// The padding symbol, `=`.
pub const PAD: u8 = 61;

/// `A`, the symbol for 0.
pub const UPPER_A: u8 = 65;

/// `Z`, the symbol for 25.
pub const UPPER_Z: u8 = 90;

/// `a`, the symbol for 26.
pub const LOWER_A: u8 = 97;

/// `z`, the symbol for 51.
pub const LOWER_Z: u8 = 122;

/// `0`, the symbol for 52.
pub const DIGIT_0: u8 = 48;

/// `9`, the symbol for 61.
pub const DIGIT_9: u8 = 57;

/// `+`, the symbol for 62.
pub const PLUS: u8 = 43;

/// `/`, the symbol for 63.
pub const SLASH: u8 = 47;

/// The symbol that stands for a six-bit value.
pub open spec fn symbol_of(v: u8) -> u8
    recommends
        v < 64,
{
    if v < 26 {
        (UPPER_A + v) as u8
    } else if v < 52 {
        (LOWER_A + (v - 26)) as u8
    } else if v < 62 {
        (DIGIT_0 + (v - 52)) as u8
    } else if v == 62 {
        PLUS
    } else {
        SLASH
    }
}

/// A symbol of the alphabet, or the padding symbol.
pub open spec fn is_symbol(byte: u8) -> bool {
    (UPPER_A <= byte <= UPPER_Z) || (LOWER_A <= byte <= LOWER_Z) || (DIGIT_0 <= byte <= DIGIT_9)
        || byte == PLUS || byte == SLASH || byte == PAD
}

/// The six-bit value that a symbol stands for; padding stands for zero.
pub open spec fn value_of(byte: u8) -> u8 {
    if UPPER_A <= byte <= UPPER_Z {
        (byte - UPPER_A) as u8
    } else if LOWER_A <= byte <= LOWER_Z {
        (byte - LOWER_A + 26) as u8
    } else if DIGIT_0 <= byte <= DIGIT_9 {
        (byte - DIGIT_0 + 52) as u8
    } else if byte == PLUS {
        62
    } else if byte == SLASH {
        63
    } else {
        0
    }
}

/// The four symbols for a group of one to three bytes.
pub open spec fn encode_group(group: Seq<u8>) -> Seq<u8>
    recommends
        1 <= group.len() <= 3,
{
    let b0 = group[0];
    let b1 = if group.len() > 1 { group[1] } else { 0u8 };
    let b2 = if group.len() > 2 { group[2] } else { 0u8 };
    seq![
        symbol_of(b0 >> 2),
        symbol_of(((b0 & 0x03) << 4) | (b1 >> 4)),
        if group.len() > 1 { symbol_of(((b1 & 0x0f) << 2) | (b2 >> 6)) } else { PAD },
        if group.len() > 2 { symbol_of(b2 & 0x3f) } else { PAD },
    ]
}

/// The symbols for a sequence of bytes: group after group of three, the last
/// one padded.
pub open spec fn encoded(bytes: Seq<u8>) -> Seq<u8>
    decreases bytes.len(),
{
    if bytes.len() == 0 {
        Seq::empty()
    } else if bytes.len() <= 3 {
        encode_group(bytes)
    } else {
        encode_group(bytes.take(3)) + encoded(bytes.skip(3))
    }
}

/// How many leading symbols of a group come before the first padding symbol.
pub open spec fn data_symbols(group: Seq<u8>) -> nat
    decreases group.len(),
{
    if group.len() == 0 || group[0] == PAD {
        0
    } else {
        1 + data_symbols(group.drop_first())
    }
}

/// The bytes that a group of one to four symbols stands for: one byte, a
/// second if three symbols come before the padding, a third if four do.
pub open spec fn decode_group(group: Seq<u8>) -> Seq<u8>
    recommends
        1 <= group.len() <= 4,
{
    let v0 = value_of(group[0]);
    let v1 = if group.len() > 1 { value_of(group[1]) } else { 0u8 };
    let v2 = if group.len() > 2 { value_of(group[2]) } else { 0u8 };
    let v3 = if group.len() > 3 { value_of(group[3]) } else { 0u8 };
    let n = data_symbols(group);
    let first = seq![(v0 << 2) | (v1 >> 4)];
    let second = if n > 2 { first.push((v1 << 4) | (v2 >> 2)) } else { first };
    if n > 3 { second.push((v2 << 6) | v3) } else { second }
}

/// The bytes that a sequence of symbols stands for, group after group of four.
pub open spec fn decoded(symbols: Seq<u8>) -> Seq<u8>
    decreases symbols.len(),
{
    if symbols.len() == 0 {
        Seq::empty()
    } else if symbols.len() <= 4 {
        decode_group(symbols)
    } else {
        decode_group(symbols.take(4)) + decoded(symbols.skip(4))
    }
}

/// Every byte is a symbol of the alphabet or padding.
pub open spec fn all_symbols(bytes: Seq<u8>) -> bool {
    forall|i: int| 0 <= i < bytes.len() ==> is_symbol(#[trigger] bytes[i])
}

/// The position of the first byte that is no symbol, or the length if all are.
pub open spec fn first_invalid(bytes: Seq<u8>) -> int
    decreases bytes.len(),
{
    if bytes.len() == 0 || !is_symbol(bytes[0]) {
        0
    } else {
        1 + first_invalid(bytes.drop_first())
    }
}

fn symbol(v: u8) -> (r: u8)
    requires
        v < 64,
    ensures
        r == symbol_of(v),
        r < 128,
{
    if v < 26 {
        UPPER_A + v
    } else if v < 52 {
        LOWER_A + (v - 26)
    } else if v < 62 {
        DIGIT_0 + (v - 52)
    } else if v == 62 {
        PLUS
    } else {
        SLASH
    }
}

/// The message for a byte that is no symbol.
pub open spec fn invalid_message(byte: u8) -> Seq<char> {
    "Invalid base64 character: "@ + ascii_text(decimal(byte as nat))
}

/// What decoding a text gives: the bytes for its symbols once surrounding
/// white space is removed, or the message for the first byte that is no symbol.
pub open spec fn decode_result(text: Seq<char>) -> Result<Seq<u8>, Seq<char>> {
    let symbols = encode_utf8(trimmed(text));
    if all_symbols(symbols) {
        Ok(decoded(symbols))
    } else {
        Err(invalid_message(symbols[first_invalid(symbols)]))
    }
}

proof fn lemma_six_bits(b0: u8, b1: u8, b2: u8)
    by (bit_vector)
    ensures
        b0 >> 2 < 64,
        ((b0 & 0x03) << 4) | (b1 >> 4) < 64,
        ((b1 & 0x0f) << 2) | (b2 >> 6) < 64,
        b2 & 0x3f < 64,
{
}

proof fn lemma_regroup(b0: u8, b1: u8, b2: u8)
    by (bit_vector)
    ensures
        ((b0 >> 2) << 2) | ((((b0 & 0x03) << 4) | (b1 >> 4)) >> 4) == b0,
        ((((b0 & 0x03) << 4) | (b1 >> 4)) << 4) | ((((b1 & 0x0f) << 2) | (b2 >> 6)) >> 2) == b1,
        ((((b1 & 0x0f) << 2) | (b2 >> 6)) << 6) | (b2 & 0x3f) == b2,
{
}

proof fn lemma_symbol_value(v: u8)
    requires
        v < 64,
    ensures
        is_symbol(symbol_of(v)),
        symbol_of(v) != PAD,
        symbol_of(v) < 128,
        value_of(symbol_of(v)) == v,
{
}

/// A group of symbols made from one to three bytes stands for those bytes.
proof fn lemma_group_round_trip(group: Seq<u8>)
    requires
        1 <= group.len() <= 3,
    ensures
        encode_group(group).len() == 4,
        all_symbols(encode_group(group)),
        all_ascii(encode_group(group)),
        decode_group(encode_group(group)) == group,
{
    let b0 = group[0];
    let b1 = if group.len() > 1 { group[1] } else { 0u8 };
    let b2 = if group.len() > 2 { group[2] } else { 0u8 };
    let s0 = b0 >> 2;
    let s1 = ((b0 & 0x03) << 4) | (b1 >> 4);
    let s2 = ((b1 & 0x0f) << 2) | (b2 >> 6);
    let s3 = b2 & 0x3f;
    lemma_six_bits(b0, b1, b2);
    lemma_regroup(b0, b1, b2);
    lemma_symbol_value(s0);
    lemma_symbol_value(s1);
    lemma_symbol_value(s2);
    lemma_symbol_value(s3);
    let e = encode_group(group);
    assert(e[0] == symbol_of(s0));
    assert(e[1] == symbol_of(s1));
    reveal_with_fuel(data_symbols, 6);
    assert(e.drop_first().drop_first().drop_first().drop_first().len() == 0);
    if group.len() == 1 {
        assert(e[2] == PAD);
        assert(data_symbols(e) == 2);
        assert(decode_group(e) =~= group);
    } else if group.len() == 2 {
        assert(e[2] == symbol_of(s2));
        assert(e[3] == PAD);
        assert(data_symbols(e) == 3);
        assert((s2 >> 2) == (((b1 & 0x0f) << 2) >> 2)) by (bit_vector)
            requires
                s2 == ((b1 & 0x0f) << 2) | (b2 >> 6),
                b2 == 0,
        ;
        assert(decode_group(e) =~= group);
    } else {
        assert(e[2] == symbol_of(s2));
        assert(e[3] == symbol_of(s3));
        assert(data_symbols(e) == 4);
        assert(decode_group(e) =~= group);
    }
}

/// What was encoded consists of symbols, four for every three bytes begun.
pub proof fn lemma_encoded_symbols(bytes: Seq<u8>)
    ensures
        all_symbols(encoded(bytes)),
        all_ascii(encoded(bytes)),
        encoded(bytes).len() == 4 * ((bytes.len() + 2) / 3),
    decreases bytes.len(),
{
    if bytes.len() == 0 {
    } else if bytes.len() <= 3 {
        lemma_group_round_trip(bytes);
    } else {
        lemma_group_round_trip(bytes.take(3));
        lemma_encoded_symbols(bytes.skip(3));
    }
}

/// Decoding undoes encoding: the symbols made from any bytes stand for
/// exactly those bytes.
pub proof fn lemma_decoded_encoded(bytes: Seq<u8>)
    ensures
        decoded(encoded(bytes)) == bytes,
    decreases bytes.len(),
{
    if bytes.len() == 0 {
    } else if bytes.len() <= 3 {
        lemma_group_round_trip(bytes);
    } else {
        let head = encode_group(bytes.take(3));
        let tail = encoded(bytes.skip(3));
        lemma_group_round_trip(bytes.take(3));
        lemma_decoded_encoded(bytes.skip(3));
        lemma_encoded_symbols(bytes.skip(3));
        assert((head + tail).take(4) =~= head);
        assert((head + tail).skip(4) =~= tail);
        assert(bytes.take(3) + bytes.skip(3) =~= bytes);
    }
}

/// Symbols stand for three bytes at most for every four of them begun.
pub proof fn lemma_decoded_length(symbols: Seq<u8>)
    ensures
        decoded(symbols).len() <= 3 * ((symbols.len() + 3) / 4),
    decreases symbols.len(),
{
    if symbols.len() > 4 {
        lemma_decoded_length(symbols.skip(4));
    }
}

/// Decoding the text of any bytes gives those bytes back.
pub proof fn lemma_decode_encode(bytes: Seq<u8>)
    ensures
        decode_result(ascii_text(encoded(bytes))) == Ok::<Seq<u8>, Seq<char>>(bytes),
{
    let symbols = encoded(bytes);
    let text = ascii_text(symbols);
    lemma_encoded_symbols(bytes);
    lemma_decoded_encoded(bytes);
    lemma_ascii_utf8(symbols);
    if text.len() > 0 {
        assert(is_symbol(symbols[0]));
        assert(text[0] == symbols[0] as char);
        assert(is_symbol(symbols[symbols.len() - 1]));
        assert(text.last() == symbols[symbols.len() - 1] as char);
    }
    assert(trimmed(text) == text);
}

/// Texts of different bytes differ.
pub proof fn lemma_encode_injective(a: Seq<u8>, b: Seq<u8>)
    requires
        encoded(a) == encoded(b),
    ensures
        a == b,
{
    lemma_decoded_encoded(a);
    lemma_decoded_encoded(b);
}

/// The first byte that is no symbol is found by its position: every byte
/// before it is a symbol.
proof fn lemma_first_invalid(bytes: Seq<u8>, at: int)
    requires
        0 <= at <= bytes.len(),
        all_symbols(bytes.take(at)),
        at < bytes.len() ==> !is_symbol(bytes[at]),
    ensures
        first_invalid(bytes) == at,
        at == bytes.len() <==> all_symbols(bytes),
    decreases at,
{
    if at == 0 {
        if bytes.len() > 0 {
            assert(!is_symbol(bytes[0]));
        }
    } else {
        assert(bytes.take(at)[0] == bytes[0]);
        assert forall|i: int| 0 <= i < at - 1 implies is_symbol(
            #[trigger] bytes.drop_first().take(at - 1)[i],
        ) by {
            assert(bytes.drop_first().take(at - 1)[i] == bytes.take(at)[i + 1]);
        }
        lemma_first_invalid(bytes.drop_first(), at - 1);
        if at == bytes.len() {
            assert(bytes.take(at) =~= bytes);
        } else {
            assert(!is_symbol(bytes[at]));
        }
    }
}

/// The text for the given bytes.
pub fn encode(input: &[u8]) -> (r: String)
    ensures
        r@ == ascii_text(encoded(input@)),
        encode_utf8(r@) == encoded(input@),
{
    let mut out: Vec<u8> = Vec::new();
    let mut i: usize = 0;
    proof {
        assert(input@.skip(0) =~= input@);
        assert(out@ + encoded(input@) =~= encoded(input@));
    }
    while i < input.len()
        invariant
            i <= input.len(),
            all_ascii(out@),
            out@ + encoded(input@.skip(i as int)) == encoded(input@),
        decreases input.len() - i,
    {
        let rest: usize = input.len() - i;
        let b0: u8 = input[i];
        let b1: u8 = if rest > 1 { input[i + 1] } else { 0 };
        let b2: u8 = if rest > 2 { input[i + 2] } else { 0 };
        proof {
            lemma_six_bits(b0, b1, b2);
        }
        let ghost before = out@;
        let ghost tail = input@.skip(i as int);
        out.push(symbol(b0 >> 2));
        out.push(symbol(((b0 & 0x03) << 4) | (b1 >> 4)));
        if rest > 1 {
            out.push(symbol(((b1 & 0x0f) << 2) | (b2 >> 6)));
        } else {
            out.push(PAD);
        }
        if rest > 2 {
            out.push(symbol(b2 & 0x3f));
        } else {
            out.push(PAD);
        }
        let step: usize = if rest > 3 { 3 } else { rest };
        proof {
            let group = tail.take(step as int);
            assert(out@ =~= before + encode_group(group));
            if rest > 3 {
                assert(tail.skip(3) =~= input@.skip(i + 3));
                assert(encoded(tail) == encode_group(group) + encoded(tail.skip(3)));
            } else {
                assert(group =~= tail);
                assert(input@.skip(i + step).len() == 0);
                assert(encoded(input@.skip(i + step)) =~= Seq::<u8>::empty());
            }
            assert(out@ + encoded(input@.skip(i + step)) =~= before + encoded(tail));
        }
        i = i + step;
    }
    proof {
        assert(encoded(input@.skip(i as int)) =~= Seq::<u8>::empty());
        assert(out@ =~= encoded(input@));
    }
    ascii_string(out)
}

/// The six-bit value of a symbol, or the message that names the byte.
pub fn decode_byte(byte: u8) -> (r: Result<u8, String>)
    ensures
        is_symbol(byte) ==> r == Ok::<u8, String>(value_of(byte)),
        !is_symbol(byte) ==> r is Err && r->Err_0@ == invalid_message(byte),
{
    if UPPER_A <= byte && byte <= UPPER_Z {
        Ok(byte - UPPER_A)
    } else if LOWER_A <= byte && byte <= LOWER_Z {
        Ok(byte - LOWER_A + 26)
    } else if DIGIT_0 <= byte && byte <= DIGIT_9 {
        Ok(byte - DIGIT_0 + 52)
    } else if byte == PLUS {
        Ok(62)
    } else if byte == SLASH {
        Ok(63)
    } else if byte == PAD {
        Ok(0)
    } else {
        let mut message = String::from_str("Invalid base64 character: ");
        let number = decimal_string(byte as u64);
        message.append(number.as_str());
        Err(message)
    }
}

/// The bytes that the text stands for. White space around the text is
/// ignored; a byte that is no symbol is refused, the first one by name.
pub fn decode(input: &str) -> (r: Result<Vec<u8>, String>)
    ensures
        match r {
            Ok(bytes) => decode_result(input@) == Ok::<Seq<u8>, Seq<char>>(bytes@),
            Err(message) => decode_result(input@) == Err::<Seq<u8>, Seq<char>>(message@),
        },
{
    let stripped = trim(input);
    let symbols = stripped.as_bytes();
    let mut values: Vec<u8> = Vec::new();
    let mut j: usize = 0;
    while j < symbols.len()
        invariant
            j <= symbols.len(),
            symbols@ == encode_utf8(trimmed(input@)),
            all_symbols(symbols@.take(j as int)),
            values@.len() == j,
            forall|k: int| 0 <= k < j ==> values@[k] == value_of(symbols@[k]),
        decreases symbols.len() - j,
    {
        match decode_byte(symbols[j]) {
            Ok(v) => {
                values.push(v);
            },
            Err(message) => {
                proof {
                    lemma_first_invalid(symbols@, j as int);
                }
                return Err(message);
            },
        }
        proof {
            assert forall|k: int| 0 <= k < j + 1 implies is_symbol(
                #[trigger] symbols@.take(j + 1)[k],
            ) by {
                if k < j {
                    assert(symbols@.take(j as int)[k] == symbols@[k]);
                }
            }
        }
        j = j + 1;
    }
    proof {
        lemma_first_invalid(symbols@, j as int);
    }
    let mut out: Vec<u8> = Vec::new();
    let mut i: usize = 0;
    proof {
        assert(symbols@.skip(0) =~= symbols@);
        assert(out@ + decoded(symbols@) =~= decoded(symbols@));
    }
    while i < symbols.len()
        invariant
            i <= symbols.len(),
            values@.len() == symbols@.len(),
            forall|k: int| 0 <= k < symbols@.len() ==> values@[k] == value_of(symbols@[k]),
            out@ + decoded(symbols@.skip(i as int)) == decoded(symbols@),
        decreases symbols.len() - i,
    {
        let rest: usize = symbols.len() - i;
        let v0: u8 = values[i];
        let v1: u8 = if rest > 1 { values[i + 1] } else { 0 };
        let v2: u8 = if rest > 2 { values[i + 2] } else { 0 };
        let v3: u8 = if rest > 3 { values[i + 3] } else { 0 };
        let data: usize = if symbols[i] == PAD {
            0
        } else if rest < 2 || symbols[i + 1] == PAD {
            1
        } else if rest < 3 || symbols[i + 2] == PAD {
            2
        } else if rest < 4 || symbols[i + 3] == PAD {
            3
        } else {
            4
        };
        let ghost before = out@;
        let ghost tail = symbols@.skip(i as int);
        out.push((v0 << 2) | (v1 >> 4));
        if data > 2 {
            out.push((v1 << 4) | (v2 >> 2));
        }
        if data > 3 {
            out.push((v2 << 6) | v3);
        }
        let step: usize = if rest > 4 { 4 } else { rest };
        proof {
            let group = tail.take(step as int);
            reveal_with_fuel(data_symbols, 6);
            assert(group.len() == step);
            assert(group[0] == symbols@[i as int]);
            if step > 1 {
                assert(group.drop_first()[0] == symbols@[i + 1]);
            }
            if step > 2 {
                assert(group.drop_first().drop_first()[0] == symbols@[i + 2]);
            }
            if step > 3 {
                assert(group.drop_first().drop_first().drop_first()[0] == symbols@[i + 3]);
                assert(group.drop_first().drop_first().drop_first().drop_first().len() == 0);
            }
            assert(data_symbols(group) == data);
            assert(out@ =~= before + decode_group(group));
            if rest > 4 {
                assert(tail.skip(4) =~= symbols@.skip(i + 4));
                assert(decoded(tail) == decode_group(group) + decoded(tail.skip(4)));
            } else {
                assert(group =~= tail);
                assert(symbols@.skip(i + step).len() == 0);
                assert(decoded(symbols@.skip(i + step)) =~= Seq::<u8>::empty());
            }
            assert(out@ + decoded(symbols@.skip(i + step)) =~= before + decoded(tail));
        }
        i = i + step;
    }
    proof {
        assert(decoded(symbols@.skip(i as int)) =~= Seq::<u8>::empty());
        assert(out@ =~= decoded(symbols@));
    }
    Ok(out)
}

} // verus!
