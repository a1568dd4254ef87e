//! Keys and hashes as text: two hexadecimal digits for each byte, given as
//! ASCII. Writing uses the lower-case digits; reading takes both cases.

use vstd::prelude::*;

use crate::hash::Hash256;

verus! {

/// The ASCII code of the lower-case digit for a value below sixteen.
pub open spec fn digit_char(value: int) -> u8 {
    if value < 10 {
        (48 + value) as u8
    } else {
        (87 + value) as u8
    }
}

/// The value of a hexadecimal digit, of either case, given by its ASCII
/// code.
pub open spec fn digit_value(code: u8) -> Option<int> {
    if 48 <= code <= 57 {
        Some(code - 48)
    } else if 97 <= code <= 102 {
        Some(code - 87)
    } else if 65 <= code <= 70 {
        Some(code - 55)
    } else {
        None
    }
}

/// The text of bytes: for each byte its high digit, then its low digit.
pub open spec fn hex_of(bytes: Seq<u8>) -> Seq<u8> {
    Seq::new(
        2 * bytes.len(),
        |i: int|
            digit_char(
                if i % 2 == 0 {
                    bytes[i / 2] as int / 16
                } else {
                    bytes[i / 2] as int % 16
                },
            ),
    )
}

/// Whether a text is the text of some bytes: an even number of hexadecimal
/// digits.
pub open spec fn is_hex(text: Seq<u8>) -> bool {
    &&& text.len() % 2 == 0
    &&& forall|i: int| 0 <= i < text.len() ==> digit_value(#[trigger] text[i]) is Some
}

/// The bytes that a text stands for.
pub open spec fn bytes_of(text: Seq<u8>) -> Seq<u8> {
    Seq::new(
        text.len() / 2,
        |k: int|
            (16 * digit_value(text[2 * k]).unwrap() + digit_value(text[2 * k + 1]).unwrap()) as u8,
    )
}

/// Reading the text of bytes gives the bytes back.
pub proof fn lemma_hex_round_trip(bytes: Seq<u8>)
    ensures
        is_hex(hex_of(bytes)),
        bytes_of(hex_of(bytes)) == bytes,
{
    let text = hex_of(bytes);
    assert forall|i: int| 0 <= i < text.len() implies digit_value(#[trigger] text[i]) is Some by {}
    assert forall|k: int| 0 <= k < bytes.len() implies #[trigger] bytes_of(text)[k] == bytes[k] by {
        assert(text[2 * k] == digit_char(bytes[k] as int / 16));
        assert(text[2 * k + 1] == digit_char(bytes[k] as int % 16));
    }
    assert(bytes_of(text) =~= bytes);
}

/// The lower-case digit for a value below sixteen.
fn digit(value: u8) -> (code: u8)
    requires
        value < 16,
    ensures
        code == digit_char(value as int),
        digit_value(code) == Some(value as int),
{
    if value < 10 {
        48 + value
    } else {
        87 + value
    }
}

/// The value of a hexadecimal digit, or `None` for any other character.
fn value_of(code: u8) -> (value: Option<u8>)
    ensures
        match value {
            Some(v) => v < 16 && digit_value(code) == Some(v as int),
            None => digit_value(code) is None,
        },
{
    if 48 <= code && code <= 57 {
        Some(code - 48)
    } else if 97 <= code && code <= 102 {
        Some(code - 87)
    } else if 65 <= code && code <= 70 {
        Some(code - 55)
    } else {
        None
    }
}

/// Writes bytes as text.
pub fn to_hex(bytes: &[u8]) -> (text: Vec<u8>)
    ensures
        text@ == hex_of(bytes@),
{
    let mut text: Vec<u8> = Vec::new();
    let mut i: usize = 0;
    while i < bytes.len()
        invariant
            i <= bytes.len(),
            text@ == hex_of(bytes@.subrange(0, i as int)),
        decreases bytes.len() - i,
    {
        let byte = bytes[i];
        let ghost before = text@;
        text.push(digit(byte / 16));
        text.push(digit(byte % 16));
        proof {
            let upto = bytes@.subrange(0, i + 1);
            assert forall|j: int| 0 <= j < text@.len() implies text@[j] == hex_of(upto)[j] by {
                if j < 2 * i {
                    assert(text@[j] == before[j]);
                    assert(upto[j / 2] == bytes@.subrange(0, i as int)[j / 2]);
                }
            }
            assert(text@ =~= hex_of(upto));
        }
        i = i + 1;
    }
    assert(bytes@.subrange(0, i as int) =~= bytes@);
    text
}

/// Reads text as bytes. The bytes come back exactly for an even number of
/// hexadecimal digits.
pub fn from_hex(text: &[u8]) -> (res: Option<Vec<u8>>)
    ensures
        match res {
            Some(bytes) => is_hex(text@) && bytes@ == bytes_of(text@),
            None => !is_hex(text@),
        },
{
    let len = text.len();
    if len % 2 != 0 {
        return None;
    }
    let mut bytes: Vec<u8> = Vec::new();
    let mut k: usize = 0;
    while k < len / 2
        invariant
            k <= len / 2,
            len == text@.len(),
            len % 2 == 0,
            bytes@.len() == k,
            forall|i: int| 0 <= i < 2 * k ==> digit_value(#[trigger] text@[i]) is Some,
            forall|j: int| 0 <= j < k ==> #[trigger] bytes@[j] == bytes_of(text@)[j],
        decreases len / 2 - k,
    {
        let high = match value_of(text[2 * k]) {
            Some(high) => high,
            None => {
                return None;
            },
        };
        let low = match value_of(text[2 * k + 1]) {
            Some(low) => low,
            None => {
                return None;
            },
        };
        let ghost before = bytes@;
        bytes.push(16 * high + low);
        proof {
            assert forall|j: int| 0 <= j < k + 1 implies #[trigger] bytes@[j] == bytes_of(
                text@,
            )[j] by {
                if j < k {
                    assert(bytes@[j] == before[j]);
                }
            }
            assert forall|i: int| 0 <= i < 2 * (k + 1) implies digit_value(
                #[trigger] text@[i],
            ) is Some by {
                if i >= 2 * k {
                    assert(i == 2 * k || i == 2 * k + 1);
                }
            }
        }
        k = k + 1;
    }
    assert(bytes@ =~= bytes_of(text@));
    Some(bytes)
}

/// Reads the text of a hash: 64 hexadecimal digits.
pub fn hash_from_hex(text: &[u8]) -> (res: Option<Hash256>)
    ensures
        match res {
            Some(hash) => is_hex(text@) && text@.len() == 64 && hash@ == bytes_of(text@),
            None => !is_hex(text@) || text@.len() != 64,
        },
{
    let bytes = match from_hex(text) {
        Some(bytes) => bytes,
        None => {
            return None;
        },
    };
    if bytes.len() != 32 {
        return None;
    }
    Some(Hash256::new(crate::codec::get_array32(bytes.as_slice(), 0)))
}

} // verus!
