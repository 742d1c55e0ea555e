//! Base58 text, as bs58 reads and writes it with its default alphabet.
//!
//! The text is the number that the bytes stand for, written in base 58, after a zero digit for
//! every zero byte that the bytes start with.
use crate::numeral::{are_digits, converted, lemma_converted_back};
use vstd::prelude::*;

verus! {

/// The value of a digit. The digits are, in this order, the numbers from 1 to 9, the capital
/// letters without I and O, and the small letters without l.
pub open spec fn digit_value(c: char) -> Option<nat> {
    if '1' <= c <= '9' {
        Some((c as int - '1' as int) as nat)
    } else if 'A' <= c <= 'H' {
        Some((c as int - 'A' as int + 9) as nat)
    } else if 'J' <= c <= 'N' {
        Some((c as int - 'J' as int + 17) as nat)
    } else if 'P' <= c <= 'Z' {
        Some((c as int - 'P' as int + 22) as nat)
    } else if 'a' <= c <= 'k' {
        Some((c as int - 'a' as int + 33) as nat)
    } else if 'm' <= c <= 'z' {
        Some((c as int - 'm' as int + 44) as nat)
    } else {
        None
    }
}

/// The digit of a value below 58.
pub open spec fn digit(v: nat) -> char {
    if v < 9 {
        (v + '1' as int) as char
    } else if v < 17 {
        (v - 9 + 'A' as int) as char
    } else if v < 22 {
        (v - 17 + 'J' as int) as char
    } else if v < 33 {
        (v - 22 + 'P' as int) as char
    } else if v < 44 {
        (v - 33 + 'a' as int) as char
    } else {
        (v - 44 + 'm' as int) as char
    }
}

/// Whether every character of a text is a digit.
pub open spec fn is_base58(text: Seq<char>) -> bool {
    forall|i: int| 0 <= i < text.len() ==> digit_value(#[trigger] text[i]) is Some
}

/// The values of a text's digits.
pub open spec fn digit_values(text: Seq<char>) -> Seq<nat> {
    Seq::new(text.len(), |i: int| digit_value(text[i])->0)
}

/// The values of bytes.
pub open spec fn byte_values(bytes: Seq<u8>) -> Seq<nat> {
    Seq::new(bytes.len(), |i: int| bytes[i] as nat)
}

/// The bytes that a text stands for, if it is base58.
pub open spec fn base58_decoded(text: Seq<char>) -> Option<Seq<u8>> {
    if is_base58(text) {
        let values = converted(digit_values(text), 58, 256);
        Some(Seq::new(values.len(), |i: int| values[i] as u8))
    } else {
        None
    }
}

/// The text that stands for bytes.
pub open spec fn base58_encoded(bytes: Seq<u8>) -> Seq<char> {
    let values = converted(byte_values(bytes), 256, 58);
    Seq::new(values.len(), |i: int| digit(values[i]))
}

/// The `n` bytes that a text names in base58, if it names that many.
pub open spec fn named(text: Seq<char>, n: nat) -> Option<Seq<u8>> {
    match base58_decoded(text) {
        Some(bytes) => if bytes.len() == n {
            Some(bytes)
        } else {
            None
        },
        None => None,
    }
}

/// `bs58::decode(text).into_vec()`: the bytes that the text stands for. It fails only where the
/// text is not base58.
#[verifier::external_body]
pub(crate) fn base58_decode(text: &str) -> (r: Option<Vec<u8>>)
    ensures
        match r {
            Some(bytes) => base58_decoded(text@) == Some(bytes@),
            None => base58_decoded(text@) is None,
        },
{
    bs58::decode(text).into_vec().ok()
}

/// `bs58::encode(bytes).into_string()`: the text that stands for the bytes.
#[verifier::external_body]
pub(crate) fn base58_encode(bytes: &[u8]) -> (r: String)
    ensures
        r@ == base58_encoded(bytes@),
{
    bs58::encode(bytes).into_string()
}

proof fn lemma_digit(v: nat)
    requires
        v < 58,
    ensures
        digit_value(digit(v)) == Some(v),
{
}

proof fn lemma_digit_of_value(c: char)
    requires
        digit_value(c) is Some,
    ensures
        digit_value(c)->0 < 58,
        digit(digit_value(c)->0) == c,
{
}

/// Decoding undoes encoding.
pub proof fn law_decoding_undoes_encoding(bytes: Seq<u8>)
    ensures
        base58_decoded(base58_encoded(bytes)) == Some(bytes),
{
    let values = converted(byte_values(bytes), 256, 58);
    let text = base58_encoded(bytes);
    lemma_converted_back(byte_values(bytes), 256, 58);
    assert forall|i: int| 0 <= i < text.len() implies digit_value(#[trigger] text[i]) == Some(
        values[i],
    ) by {
        lemma_digit(values[i]);
    }
    assert(digit_values(text) =~= values);
    assert(base58_decoded(text)->0 =~= bytes);
}

/// Encoding undoes decoding: no two texts stand for the same bytes.
pub proof fn law_encoding_undoes_decoding(text: Seq<char>, bytes: Seq<u8>)
    requires
        base58_decoded(text) == Some(bytes),
    ensures
        base58_encoded(bytes) == text,
{
    let values = converted(digit_values(text), 58, 256);
    assert forall|i: int| 0 <= i < text.len() implies digit_values(text)[i] < 58 && digit(
        #[trigger] digit_values(text)[i],
    ) == text[i] by {
        lemma_digit_of_value(text[i]);
    }
    assert(are_digits(digit_values(text), 58));
    lemma_converted_back(digit_values(text), 58, 256);
    assert(byte_values(bytes) =~= values);
    assert(base58_encoded(bytes) =~= text);
}

/// A text names bytes exactly where it is the text that encoding them gives.
pub proof fn law_bytes_have_one_name(text: Seq<char>, bytes: Seq<u8>)
    ensures
        named(text, bytes.len()) == Some(bytes) <==> text == base58_encoded(bytes),
{
    law_decoding_undoes_encoding(bytes);
    if named(text, bytes.len()) == Some(bytes) {
        law_encoding_undoes_decoding(text, bytes);
    }
}

} // verus!
