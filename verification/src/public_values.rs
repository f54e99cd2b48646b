//! The public values of a header update, as the on-chain verifier reads
//! them: the ABI encoding of the tuple
//! `(uint64 trustedHeight, uint64 targetHeight, bytes32 trustedHeaderHash,
//! bytes32 targetHeaderHash)`, four words of 32 bytes in this order.

use vstd::prelude::*;
use crate::types::LightBlock;

verus! {

/// The length of the encoded tuple.
pub const PUBLIC_VALUES_LEN: usize = 128;

/// The public values of a header update.
#[derive(Clone, Copy, Debug, PartialEq, Eq)]
pub struct TendermintOutput {
    pub trusted_height: u64,
    pub target_height: u64,
    pub trusted_header_hash: [u8; 32],
    pub target_header_hash: [u8; 32],
}

/// The public values as mathematical data.
pub struct OutputView {
    pub trusted_height: u64,
    pub target_height: u64,
    pub trusted_header_hash: Seq<u8>,
    pub target_header_hash: Seq<u8>,
}

impl View for TendermintOutput {
    type V = OutputView;

    open spec fn view(&self) -> OutputView {
        OutputView {
            trusted_height: self.trusted_height,
            target_height: self.target_height,
            trusted_header_hash: self.trusted_header_hash@,
            target_header_hash: self.target_header_hash@,
        }
    }
}

/// The eight bytes of `x`, most significant first.
pub open spec fn u64_to_be(x: u64) -> Seq<u8> {
    seq![
        ((x >> 56) & 0xff) as u8,
        ((x >> 48) & 0xff) as u8,
        ((x >> 40) & 0xff) as u8,
        ((x >> 32) & 0xff) as u8,
        ((x >> 24) & 0xff) as u8,
        ((x >> 16) & 0xff) as u8,
        ((x >> 8) & 0xff) as u8,
        (x & 0xff) as u8,
    ]
}

/// The number whose eight bytes, most significant first, are `b`.
pub open spec fn u64_from_be(b: Seq<u8>) -> u64 {
    (b[0] as u64) << 56 | (b[1] as u64) << 48 | (b[2] as u64) << 40 | (b[3] as u64) << 32 | (
    b[4] as u64) << 24 | (b[5] as u64) << 16 | (b[6] as u64) << 8 | (b[7] as u64)
}

/// `n` zero bytes.
pub open spec fn zeros(n: nat) -> Seq<u8> {
    Seq::new(n, |i: int| 0u8)
}

/// The 32-byte word that encodes `x`: big-endian, padded with zeros on the
/// left.
pub open spec fn uint64_word(x: u64) -> Seq<u8> {
    zeros(24) + u64_to_be(x)
}

/// Whether `w` is a 32-byte word that encodes some 64-bit number.
pub open spec fn is_uint64_word(w: Seq<u8>) -> bool {
    w.len() == 32 && forall|i: int| 0 <= i < 24 ==> #[trigger] w[i] == 0
}

/// The encoding of the tuple.
pub open spec fn encoded(o: OutputView) -> Seq<u8> {
    uint64_word(o.trusted_height) + uint64_word(o.target_height) + o.trusted_header_hash
        + o.target_header_hash
}

/// The tuple that `b` encodes, where `b` is the encoding of one: 128
/// bytes, the first 24 bytes of each of the two height words zero.
pub open spec fn decoded(b: Seq<u8>) -> Option<OutputView> {
    if b.len() == 128 && is_uint64_word(b.subrange(0, 32)) && is_uint64_word(b.subrange(32, 64)) {
        Some(
            OutputView {
                trusted_height: u64_from_be(b.subrange(24, 32)),
                target_height: u64_from_be(b.subrange(56, 64)),
                trusted_header_hash: b.subrange(64, 96),
                target_header_hash: b.subrange(96, 128),
            },
        )
    } else {
        None
    }
}

/// Reading the eight bytes of a number gives the number back.
pub proof fn lemma_u64_be_round_trip(x: u64)
    ensures
        u64_from_be(u64_to_be(x)) == x,
{
    assert((((((x >> 56) & 0xff) as u8) as u64) << 56 | ((((x >> 48) & 0xff) as u8) as u64) << 48 | (((
    (x >> 40) & 0xff) as u8) as u64) << 40 | ((((x >> 32) & 0xff) as u8) as u64) << 32 | ((((x >> 24)
        & 0xff) as u8) as u64) << 24 | ((((x >> 16) & 0xff) as u8) as u64) << 16 | ((((x >> 8) & 0xff) as u8) as u64)
        << 8 | (((x & 0xff) as u8) as u64)) == x) by (bit_vector);
}

/// Writing the number that eight bytes denote gives the bytes back.
pub proof fn lemma_be_u64_round_trip(b: Seq<u8>)
    requires
        b.len() == 8,
    ensures
        u64_to_be(u64_from_be(b)) == b,
{
    let b0 = b[0];
    let b1 = b[1];
    let b2 = b[2];
    let b3 = b[3];
    let b4 = b[4];
    let b5 = b[5];
    let b6 = b[6];
    let b7 = b[7];
    let x = u64_from_be(b);
    assert(x == (b0 as u64) << 56 | (b1 as u64) << 48 | (b2 as u64) << 40 | (b3 as u64) << 32 | (
    b4 as u64) << 24 | (b5 as u64) << 16 | (b6 as u64) << 8 | (b7 as u64));
    assert(((x >> 56) & 0xff) as u8 == b0 && ((x >> 48) & 0xff) as u8 == b1 && ((x >> 40) & 0xff) as u8
        == b2 && ((x >> 32) & 0xff) as u8 == b3 && ((x >> 24) & 0xff) as u8 == b4 && ((x >> 16)
        & 0xff) as u8 == b5 && ((x >> 8) & 0xff) as u8 == b6 && (x & 0xff) as u8 == b7) by (bit_vector)
        requires
            x == (b0 as u64) << 56 | (b1 as u64) << 48 | (b2 as u64) << 40 | (b3 as u64) << 32 | (
            b4 as u64) << 24 | (b5 as u64) << 16 | (b6 as u64) << 8 | (b7 as u64),
    ;
    assert(u64_to_be(x) =~= b);
}

/// Decoding the encoding of a tuple gives the tuple back.
pub proof fn lemma_decode_inverts_encode(o: OutputView)
    requires
        o.trusted_header_hash.len() == 32,
        o.target_header_hash.len() == 32,
    ensures
        decoded(encoded(o)) == Some(o),
{
    let b = encoded(o);
    lemma_u64_be_round_trip(o.trusted_height);
    lemma_u64_be_round_trip(o.target_height);
    assert(b.subrange(0, 32) =~= uint64_word(o.trusted_height));
    assert(b.subrange(32, 64) =~= uint64_word(o.target_height));
    assert(b.subrange(24, 32) =~= u64_to_be(o.trusted_height));
    assert(b.subrange(56, 64) =~= u64_to_be(o.target_height));
    assert(b.subrange(64, 96) =~= o.trusted_header_hash);
    assert(b.subrange(96, 128) =~= o.target_header_hash);
}

/// Bytes that decode to a tuple are the encoding of that tuple.
pub proof fn lemma_encode_inverts_decode(b: Seq<u8>)
    requires
        decoded(b).is_some(),
    ensures
        encoded(decoded(b).unwrap()) == b,
{
    let o = decoded(b).unwrap();
    lemma_be_u64_round_trip(b.subrange(24, 32));
    lemma_be_u64_round_trip(b.subrange(56, 64));
    let w0 = b.subrange(0, 32);
    let w1 = b.subrange(32, 64);
    assert forall|i: int| 0 <= i < 128 implies encoded(o)[i] == b[i] by {
        if i < 24 {
            assert(w0[i] == 0);
        } else if i < 32 {
            assert(b.subrange(24, 32)[i - 24] == b[i]);
        } else if i < 56 {
            assert(w1[i - 32] == 0);
        } else if i < 64 {
            assert(b.subrange(56, 64)[i - 56] == b[i]);
        } else if i < 96 {
            assert(b.subrange(64, 96)[i - 64] == b[i]);
        } else {
            assert(b.subrange(96, 128)[i - 96] == b[i]);
        }
    }
    assert(encoded(o) =~= b);
}

/// Appends the 32-byte word that encodes `x`.
pub fn push_uint64_word(out: &mut Vec<u8>, x: u64)
    ensures
        final(out)@ == old(out)@ + uint64_word(x),
{
    let ghost before = out@;
    let mut i: usize = 0;
    while i < 24
        invariant
            i <= 24,
            out@ == before + zeros(i as nat),
        decreases 24 - i,
    {
        out.push(0u8);
        assert(out@ =~= before + zeros((i + 1) as nat));
        i += 1;
    }
    out.push(((x >> 56) & 0xff) as u8);
    out.push(((x >> 48) & 0xff) as u8);
    out.push(((x >> 40) & 0xff) as u8);
    out.push(((x >> 32) & 0xff) as u8);
    out.push(((x >> 24) & 0xff) as u8);
    out.push(((x >> 16) & 0xff) as u8);
    out.push(((x >> 8) & 0xff) as u8);
    out.push((x & 0xff) as u8);
    assert(out@ =~= before + uint64_word(x));
}

/// Appends the bytes of `bytes`.
pub fn push_bytes(out: &mut Vec<u8>, bytes: &[u8])
    ensures
        final(out)@ == old(out)@ + bytes@,
{
    let ghost before = out@;
    let mut i: usize = 0;
    while i < bytes.len()
        invariant
            i <= bytes.len(),
            out@ == before + bytes@.take(i as int),
        decreases bytes.len() - i,
    {
        out.push(bytes[i]);
        assert(out@ =~= before + bytes@.take(i + 1));
        i += 1;
    }
    assert(bytes@.take(i as int) =~= bytes@);
}

/// The 32 bytes of `bytes` from position `start` on.
fn read_word(bytes: &[u8], start: usize) -> (w: [u8; 32])
    requires
        start + 32 <= bytes@.len(),
    ensures
        w@ == bytes@.subrange(start as int, start + 32),
{
    let n = bytes.len();
    let mut w = [0u8; 32];
    let mut i: usize = 0;
    while i < 32
        invariant
            i <= 32,
            n == bytes@.len(),
            start + 32 <= bytes@.len(),
            forall|k: int| 0 <= k < i ==> w@[k] == bytes@[start + k],
        decreases 32 - i,
    {
        w[i] = bytes[start + i];
        i += 1;
    }
    assert(w@ =~= bytes@.subrange(start as int, start + 32));
    w
}

/// Reads the 64-bit number that the word at `start` encodes, where the
/// word's first 24 bytes are zero.
fn read_uint64_word(bytes: &[u8], start: usize) -> (r: Option<u64>)
    requires
        start + 32 <= bytes@.len(),
    ensures
        r.is_some() == is_uint64_word(bytes@.subrange(start as int, start + 32)),
        r.is_some() ==> r.unwrap() == u64_from_be(bytes@.subrange(start + 24, start + 32)),
{
    let n = bytes.len();
    let ghost word = bytes@.subrange(start as int, start + 32);
    let mut i: usize = 0;
    while i < 24
        invariant
            i <= 24,
            n == bytes@.len(),
            start + 32 <= bytes@.len(),
            word == bytes@.subrange(start as int, start + 32),
            forall|k: int| 0 <= k < i ==> #[trigger] word[k] == 0,
        decreases 24 - i,
    {
        if bytes[start + i] != 0 {
            assert(word[i as int] != 0);
            return None;
        }
        i += 1;
    }
    let ghost low = bytes@.subrange(start + 24, start + 32);
    assert(low[0] == bytes@[start + 24] && low[1] == bytes@[start + 25] && low[2] == bytes@[start + 26]
        && low[3] == bytes@[start + 27] && low[4] == bytes@[start + 28] && low[5] == bytes@[start
        + 29] && low[6] == bytes@[start + 30] && low[7] == bytes@[start + 31]);
    let x: u64 = (bytes[start + 24] as u64) << 56 | (bytes[start + 25] as u64) << 48 | (bytes[start
        + 26] as u64) << 40 | (bytes[start + 27] as u64) << 32 | (bytes[start + 28] as u64) << 24 | (
    bytes[start + 29] as u64) << 16 | (bytes[start + 30] as u64) << 8 | (bytes[start + 31] as u64);
    Some(x)
}

/// Reads a 64-bit number from the one word that encodes it, as a contract
/// returns a height: 32 bytes, the first 24 of them zero.
pub fn decode_uint64(bytes: &[u8]) -> (r: Option<u64>)
    ensures
        r.is_some() == is_uint64_word(bytes@),
        r.is_some() ==> r.unwrap() == u64_from_be(bytes@.subrange(24, 32)),
        r.is_some() ==> bytes@ == uint64_word(r.unwrap()),
{
    if bytes.len() != 32 {
        return None;
    }
    assert(bytes@.subrange(0, 32) =~= bytes@);
    let r = read_uint64_word(bytes, 0);
    proof {
        if r.is_some() {
            let low = bytes@.subrange(24, 32);
            lemma_be_u64_round_trip(low);
            assert forall|i: int| 0 <= i < 32 implies bytes@[i] == uint64_word(r.unwrap())[i] by {
                if i >= 24 {
                    assert(low[i - 24] == bytes@[i]);
                }
            }
            assert(bytes@ =~= uint64_word(r.unwrap()));
        }
    }
    r
}

impl TendermintOutput {
    /// The public values of the update from `trusted` to `target`.
    pub fn of_update(trusted: &LightBlock, target: &LightBlock) -> (o: TendermintOutput)
        ensures
            o == expected_output(*trusted, *target),
    {
        TendermintOutput {
            trusted_height: trusted.signed_header.header.height,
            target_height: target.signed_header.header.height,
            trusted_header_hash: trusted.signed_header.header.hash,
            target_header_hash: target.signed_header.header.hash,
        }
    }

    /// The ABI encoding of the tuple: 128 bytes.
    pub fn abi_encode(&self) -> (out: Vec<u8>)
        ensures
            out@ == encoded(self@),
            out@.len() == 128,
    {
        let mut out: Vec<u8> = Vec::new();
        push_uint64_word(&mut out, self.trusted_height);
        push_uint64_word(&mut out, self.target_height);
        push_bytes(&mut out, self.trusted_header_hash.as_slice());
        push_bytes(&mut out, self.target_header_hash.as_slice());
        assert(out@ =~= encoded(self@));
        out
    }

    /// Decodes the ABI encoding of the tuple. Bytes that are not the
    /// encoding of a tuple give `None`.
    pub fn abi_decode(bytes: &[u8]) -> (r: Option<TendermintOutput>)
        ensures
            r.is_some() == decoded(bytes@).is_some(),
            r.is_some() ==> r.unwrap()@ == decoded(bytes@).unwrap(),
    {
        if bytes.len() != 128 {
            return None;
        }
        let trusted_height = match read_uint64_word(bytes, 0) {
            Some(h) => h,
            None => {
                return None;
            },
        };
        let target_height = match read_uint64_word(bytes, 32) {
            Some(h) => h,
            None => {
                return None;
            },
        };
        let trusted_header_hash = read_word(bytes, 64);
        let target_header_hash = read_word(bytes, 96);
        Some(TendermintOutput { trusted_height, target_height, trusted_header_hash, target_header_hash })
    }
}

/// The public values of the update from `trusted` to `target`.
pub open spec fn expected_output(trusted: LightBlock, target: LightBlock) -> TendermintOutput {
    TendermintOutput {
        trusted_height: trusted.signed_header.header.height,
        target_height: target.signed_header.header.height,
        trusted_header_hash: trusted.signed_header.header.hash,
        target_header_hash: target.signed_header.header.hash,
    }
}

/// Whether `public_values` encode exactly the update from `trusted` to
/// `target`.
pub fn public_values_match(public_values: &[u8], trusted: &LightBlock, target: &LightBlock) -> (r: bool)
    ensures
        r == (decoded(public_values@) == Some(expected_output(*trusted, *target)@)),
        r == (public_values@ == encoded(expected_output(*trusted, *target)@)),
{
    let expected = TendermintOutput::of_update(trusted, target);
    proof {
        lemma_decode_inverts_encode(expected@);
        if decoded(public_values@).is_some() {
            lemma_encode_inverts_decode(public_values@);
        }
    }
    match TendermintOutput::abi_decode(public_values) {
        Some(o) => {
            let same = o.trusted_height == expected.trusted_height && o.target_height
                == expected.target_height && crate::types::bytes_eq(
                &o.trusted_header_hash,
                &expected.trusted_header_hash,
            ) && crate::types::bytes_eq(&o.target_header_hash, &expected.target_header_hash);
            proof {
                if same {
                    assert(o@ == expected@);
                }
            }
            same
        },
        None => false,
    }
}

} // verus!
