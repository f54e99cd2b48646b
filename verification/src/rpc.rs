//! The node's answers, as far as the operator reads them.

use vstd::prelude::*;
use crate::hex_text::{PeerIdError, hex_decoded, is_hex_text, parse_peer_id};
use crate::types::SignedHeader;

verus! {

/// The node's answer to a status request.
#[derive(Clone, Debug, PartialEq, Eq)]
pub struct PeerIdResponse {
    pub result: PeerIdWrapper,
}

/// The result of a status request.
#[derive(Clone, Debug, PartialEq, Eq)]
pub struct PeerIdWrapper {
    pub node_info: NodeInfoWrapper,
}

/// What a node tells of itself.
#[derive(Clone, Debug, PartialEq, Eq)]
pub struct NodeInfoWrapper {
    /// The node's identifier: 40 hexadecimal digits.
    pub id: String,
}

/// The node's answer to a commit request.
#[derive(Clone, Debug, PartialEq, Eq)]
pub struct CommitResponse {
    pub result: SignedHeaderWrapper,
}

/// The result of a commit request.
#[derive(Clone, Debug, PartialEq, Eq)]
pub struct SignedHeaderWrapper {
    pub signed_header: SignedHeader,
}

impl PeerIdResponse {
    /// The 20-byte peer identifier that the answer carries.
    pub fn peer_id(&self) -> (r: Result<[u8; 20], PeerIdError>)
        ensures
            match r {
                Ok(id) => is_hex_text(vstd::utf8::encode_utf8(self.result.node_info.id@))
                    && vstd::utf8::encode_utf8(self.result.node_info.id@).len() == 40 && id@
                    == hex_decoded(vstd::utf8::encode_utf8(self.result.node_info.id@)),
                Err(PeerIdError::NotHex) => !is_hex_text(
                    vstd::utf8::encode_utf8(self.result.node_info.id@),
                ),
                Err(PeerIdError::WrongLength) => is_hex_text(
                    vstd::utf8::encode_utf8(self.result.node_info.id@),
                ) && vstd::utf8::encode_utf8(self.result.node_info.id@).len() != 40,
            },
    {
        parse_peer_id(self.result.node_info.id.as_str())
    }
}

impl CommitResponse {
    /// The height of the header that the answer carries.
    pub fn height(&self) -> (h: u64)
        ensures
            h == self.result.signed_header.header.height,
    {
        self.result.signed_header.header.height
    }
}

} // verus!
