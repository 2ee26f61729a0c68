//! Hexadecimal text, as the `hex` crate reads and writes it.
use crate::bytes::opt_bytes;
use vstd::prelude::*;

verus! {

/// The hexadecimal digit for `n`, in lower case.
pub open spec fn hex_digit(n: nat) -> char {
    if n == 0 {
        '0'
    } else if n == 1 {
        '1'
    } else if n == 2 {
        '2'
    } else if n == 3 {
        '3'
    } else if n == 4 {
        '4'
    } else if n == 5 {
        '5'
    } else if n == 6 {
        '6'
    } else if n == 7 {
        '7'
    } else if n == 8 {
        '8'
    } else if n == 9 {
        '9'
    } else if n == 10 {
        'a'
    } else if n == 11 {
        'b'
    } else if n == 12 {
        'c'
    } else if n == 13 {
        'd'
    } else if n == 14 {
        'e'
    } else {
        'f'
    }
}

/// What the hexadecimal digit `c` stands for, in either case: `None` where
/// `c` is no such digit.
pub open spec fn hex_value(c: char) -> Option<nat> {
    if c == '0' {
        Some(0)
    } else if c == '1' {
        Some(1)
    } else if c == '2' {
        Some(2)
    } else if c == '3' {
        Some(3)
    } else if c == '4' {
        Some(4)
    } else if c == '5' {
        Some(5)
    } else if c == '6' {
        Some(6)
    } else if c == '7' {
        Some(7)
    } else if c == '8' {
        Some(8)
    } else if c == '9' {
        Some(9)
    } else if c == 'a' || c == 'A' {
        Some(10)
    } else if c == 'b' || c == 'B' {
        Some(11)
    } else if c == 'c' || c == 'C' {
        Some(12)
    } else if c == 'd' || c == 'D' {
        Some(13)
    } else if c == 'e' || c == 'E' {
        Some(14)
    } else if c == 'f' || c == 'F' {
        Some(15)
    } else {
        None
    }
}

/// A byte string as hexadecimal text: two digits in lower case for each byte,
/// the upper half first.
pub open spec fn hex_encoding(bytes: Seq<u8>) -> Seq<char>
    decreases bytes.len(),
{
    if bytes.len() == 0 {
        Seq::empty()
    } else {
        hex_encoding(bytes.drop_last()).push(hex_digit((bytes.last() / 16) as nat)).push(
            hex_digit((bytes.last() % 16) as nat),
        )
    }
}

/// The bytes that a hexadecimal text stands for, two digits of either case
/// for each byte: `None` where the number of characters is odd or one of them
/// is no hexadecimal digit.
pub open spec fn hex_decoding(text: Seq<char>) -> Option<Seq<u8>>
    decreases text.len(),
{
    if text.len() == 0 {
        Some(Seq::empty())
    } else if text.len() == 1 {
        None
    } else {
        match (
            hex_decoding(text.take(text.len() - 2)),
            hex_value(text[text.len() - 2]),
            hex_value(text[text.len() - 1]),
        ) {
            (Some(bytes), Some(upper), Some(lower)) => Some(bytes.push((upper * 16 + lower) as u8)),
            _ => None,
        }
    }
}

/// Decoding reads back what encoding wrote.
pub proof fn lemma_hex_round_trip(bytes: Seq<u8>)
    ensures
        hex_encoding(bytes).len() == 2 * bytes.len(),
        hex_decoding(hex_encoding(bytes)) == Some(bytes),
    decreases bytes.len(),
{
    if bytes.len() > 0 {
        let rest = bytes.drop_last();
        let last = bytes.last();
        lemma_hex_round_trip(rest);
        let text = hex_encoding(bytes);
        assert(text.take(text.len() - 2) =~= hex_encoding(rest));
        assert(hex_value(hex_digit((last / 16) as nat)) == Some((last / 16) as nat));
        assert(hex_value(hex_digit((last % 16) as nat)) == Some((last % 16) as nat));
        assert(((last / 16) * 16 + last % 16) as u8 == last);
        assert(rest.push(last) =~= bytes);
    }
}

/// Calls `hex::decode`. The contract claims that it reads two hexadecimal
/// digits of either case for each byte, and fails on a text of odd length or
/// with another character.
#[verifier::external_body]
pub(crate) fn decode(text: &str) -> (r: Option<Vec<u8>>)
    ensures
        opt_bytes(r) == hex_decoding(text@),
{
    match hex::decode(text) {
        Ok(bytes) => Some(bytes),
        Err(_) => None,
    }
}

/// Calls `hex::encode`. The contract claims that it writes two digits in
/// lower case for each byte.
#[verifier::external_body]
fn encode_bytes(bytes: &Vec<u8>) -> (r: String)
    ensures
        r@ == hex_encoding(bytes@),
{
    hex::encode(bytes)
}

/// The bytes as hexadecimal text, from which decoding reads them back.
pub(crate) fn encode(bytes: &Vec<u8>) -> (r: String)
    ensures
        r@ == hex_encoding(bytes@),
        hex_decoding(r@) == Some(bytes@),
{
    proof {
        lemma_hex_round_trip(bytes@);
    }
    encode_bytes(bytes)
}

} // verus!
