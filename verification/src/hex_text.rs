//! Lower-case hexadecimal text, as the node's RPC uses it for hashes and
//! peer identifiers.

use vstd::prelude::*;

verus! {

/// The lower-case hexadecimal digit for `n`, where `n < 16`.
pub open spec fn hex_digit(n: u8) -> u8 {
    if n < 10 {
        (48 + n) as u8
    } else {
        (87 + n) as u8
    }
}

/// Whether `c` is one of `0`-`9`, `a`-`f`.
pub open spec fn is_hex_digit(c: u8) -> bool {
    (48 <= c <= 57) || (97 <= c <= 102)
}

/// The number that the hexadecimal digit `c` denotes.
pub open spec fn hex_value(c: u8) -> u8 {
    if c <= 57 {
        (c - 48) as u8
    } else {
        (c - 87) as u8
    }
}

/// The hexadecimal text of `bytes`: two digits per byte, the high half
/// first.
pub open spec fn hex_encoded(bytes: Seq<u8>) -> Seq<u8> {
    Seq::new(
        2 * bytes.len(),
        |i: int|
            if i % 2 == 0 {
                hex_digit(bytes[i / 2] / 16)
            } else {
                hex_digit(bytes[i / 2] % 16)
            },
    )
}

/// Whether `text` is hexadecimal text: an even number of digits `0`-`9`,
/// `a`-`f`.
pub open spec fn is_hex_text(text: Seq<u8>) -> bool {
    text.len() % 2 == 0 && forall|i: int| 0 <= i < text.len() ==> is_hex_digit(#[trigger] text[i])
}

/// The bytes that the hexadecimal text `text` denotes.
pub open spec fn hex_decoded(text: Seq<u8>) -> Seq<u8> {
    Seq::new(
        text.len() / 2,
        |i: int| (hex_value(text[2 * i]) * 16 + hex_value(text[2 * i + 1])) as u8,
    )
}

/// The hexadecimal text of bytes is hexadecimal text, and it denotes
/// those bytes.
pub proof fn lemma_hex_round_trip(bytes: Seq<u8>)
    ensures
        is_hex_text(hex_encoded(bytes)),
        hex_decoded(hex_encoded(bytes)) == bytes,
{
    let text = hex_encoded(bytes);
    assert forall|i: int| 0 <= i < text.len() implies is_hex_digit(#[trigger] text[i]) by {
        let b = bytes[i / 2];
        assert(b / 16 < 16 && b % 16 < 16);
    }
    assert forall|i: int| 0 <= i < bytes.len() implies hex_decoded(text)[i] == bytes[i] by {
        let b = bytes[i];
        assert((2 * i) / 2 == i && (2 * i + 1) / 2 == i);
        assert((2 * i) % 2 == 0 && (2 * i + 1) % 2 == 1);
        assert(text[2 * i] == hex_digit(b / 16));
        assert(text[2 * i + 1] == hex_digit(b % 16));
        assert(hex_value(hex_digit(b / 16)) == b / 16);
        assert(hex_value(hex_digit(b % 16)) == b % 16);
        assert((b / 16) * 16 + b % 16 == b);
    }
    assert(hex_decoded(text) =~= bytes);
}

/// Calls `subtle_encoding::hex::encode`. Trusted: the result is the
/// lower-case hexadecimal text of `bytes`, two digits per byte with the
/// high half first.
#[verifier::external_body]
pub(crate) fn hex_encode(bytes: &[u8]) -> (text: Vec<u8>)
    ensures
        text@ == hex_encoded(bytes@),
{
    subtle_encoding::hex::encode(bytes)
}

/// Calls `subtle_encoding::hex::decode`. Trusted: it succeeds exactly on
/// an even number of digits `0`-`9`, `a`-`f`, and then gives the bytes
/// that each pair of digits denotes, the first digit being the high half.
#[verifier::external_body]
pub(crate) fn hex_decode(text: &[u8]) -> (bytes: Option<Vec<u8>>)
    ensures
        bytes.is_some() == is_hex_text(text@),
        bytes.is_some() ==> bytes.unwrap()@ == hex_decoded(text@),
{
    subtle_encoding::hex::decode(text).ok()
}

/// The text of a hash in a request: `0x`, then the hash in hexadecimal.
pub open spec fn prefixed_hex(hash: Seq<u8>) -> Seq<u8> {
    seq![48u8, 120u8] + hex_encoded(hash)
}

/// The value of the `hash` parameter of a block-by-hash request: `0x`,
/// then the hash in lower-case hexadecimal.
pub fn hash_query_value(hash: &[u8]) -> (text: Vec<u8>)
    ensures
        text@ == prefixed_hex(hash@),
{
    let mut text: Vec<u8> = Vec::new();
    text.push(48u8);
    text.push(120u8);
    let mut digits = hex_encode(hash);
    text.append(&mut digits);
    assert(text@ =~= prefixed_hex(hash@));
    text
}

/// Why a text is no peer identifier.
#[derive(Clone, Copy, Debug, PartialEq, Eq, Structural)]
pub enum PeerIdError {
    /// The text is not lower-case hexadecimal.
    NotHex,
    /// The text does not denote 20 bytes.
    WrongLength,
}

/// Reads a peer identifier from its hexadecimal text, given as bytes: 40
/// digits that denote 20 bytes.
pub fn parse_peer_id_bytes(text: &[u8]) -> (r: Result<[u8; 20], PeerIdError>)
    ensures
        match r {
            Ok(id) => is_hex_text(text@) && text@.len() == 40 && id@ == hex_decoded(text@),
            Err(PeerIdError::NotHex) => !is_hex_text(text@),
            Err(PeerIdError::WrongLength) => is_hex_text(text@) && text@.len() != 40,
        },
{
    let bytes = match hex_decode(text) {
        Some(b) => b,
        None => {
            return Err(PeerIdError::NotHex);
        },
    };
    if bytes.len() != 20 {
        return Err(PeerIdError::WrongLength);
    }
    let mut id = [0u8; 20];
    let mut i: usize = 0;
    while i < 20
        invariant
            i <= 20,
            bytes@.len() == 20,
            forall|k: int| 0 <= k < i ==> id@[k] == bytes@[k],
        decreases 20 - i,
    {
        id[i] = bytes[i];
        i += 1;
    }
    assert(id@ =~= bytes@);
    Ok(id)
}

/// Reads a peer identifier from its hexadecimal text.
pub fn parse_peer_id(text: &str) -> (r: Result<[u8; 20], PeerIdError>)
    ensures
        match r {
            Ok(id) => is_hex_text(vstd::utf8::encode_utf8(text@)) && vstd::utf8::encode_utf8(
                text@,
            ).len() == 40 && id@ == hex_decoded(vstd::utf8::encode_utf8(text@)),
            Err(PeerIdError::NotHex) => !is_hex_text(vstd::utf8::encode_utf8(text@)),
            Err(PeerIdError::WrongLength) => is_hex_text(vstd::utf8::encode_utf8(text@))
                && vstd::utf8::encode_utf8(text@).len() != 40,
        },
{
    parse_peer_id_bytes(text.as_bytes())
}

} // verus!
