//! The proof claim and the calldata that submits it.
//!
//! The entrypoint takes `(bytes publicValues, bytes proof)`; its calldata
//! is the function selector followed by the ABI encoding of the two byte
//! strings, the public values first.

use vstd::prelude::*;
use crate::public_values::{push_bytes, push_uint64_word, uint64_word, zeros};

verus! {

/// What the proof backend hands back.
#[derive(Clone, Debug, PartialEq, Eq)]
pub struct ProofClaim {
    pub public_values: Vec<u8>,
    pub proof: Vec<u8>,
}

/// The number of zero bytes that pad `n` bytes to whole words.
pub open spec fn padding_len(n: nat) -> nat {
    ((32 - n % 32) % 32) as nat
}

/// The encoding of a byte string: its length as a word, the bytes, and
/// zeros up to a whole number of words.
pub open spec fn bytes_tail(b: Seq<u8>) -> Seq<u8> {
    uint64_word(b.len() as u64) + b + zeros(padding_len(b.len()))
}

/// The calldata of a call with the arguments `(public_values, proof)`.
pub open spec fn call_data(selector: Seq<u8>, public_values: Seq<u8>, proof: Seq<u8>) -> Seq<u8> {
    selector + uint64_word(64) + uint64_word(
        (96 + public_values.len() + padding_len(public_values.len())) as u64,
    ) + bytes_tail(public_values) + bytes_tail(proof)
}

/// Appends the encoding of the byte string `b`.
fn push_bytes_tail(out: &mut Vec<u8>, b: &[u8])
    ensures
        final(out)@ == old(out)@ + bytes_tail(b@),
{
    let ghost before = out@;
    let n = b.len();
    push_uint64_word(out, n as u64);
    push_bytes(out, b);
    let pad: usize = (32 - n % 32) % 32;
    let ghost filled = out@;
    let mut i: usize = 0;
    while i < pad
        invariant
            i <= pad,
            out@ == filled + zeros(i as nat),
        decreases pad - i,
    {
        out.push(0u8);
        assert(out@ =~= filled + zeros((i + 1) as nat));
        i += 1;
    }
    assert(out@ =~= before + bytes_tail(b@));
}

/// The calldata of the call that submits a claim: the selector, then the
/// public values and the proof, in this order.
pub fn build_calldata(selector: &[u8; 4], public_values: &[u8], proof: &[u8]) -> (data: Vec<u8>)
    requires
        public_values@.len() + 128 <= u64::MAX,
    ensures
        data@ == call_data(selector@, public_values@, proof@),
{
    let n = public_values.len();
    let pad: usize = (32 - n % 32) % 32;
    let second: u64 = 96 + n as u64 + pad as u64;
    let mut data: Vec<u8> = Vec::new();
    push_bytes(&mut data, selector.as_slice());
    push_uint64_word(&mut data, 64);
    push_uint64_word(&mut data, second);
    push_bytes_tail(&mut data, public_values);
    push_bytes_tail(&mut data, proof);
    assert(data@ =~= call_data(selector@, public_values@, proof@));
    data
}

impl ProofClaim {
    /// The calldata that submits this claim.
    pub fn calldata(&self, selector: &[u8; 4]) -> (data: Vec<u8>)
        requires
            self.public_values@.len() + 128 <= u64::MAX,
        ensures
            data@ == call_data(selector@, self.public_values@, self.proof@),
    {
        build_calldata(selector, self.public_values.as_slice(), self.proof.as_slice())
    }
}

} // verus!
