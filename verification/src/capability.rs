//! What a host tells its peers about the protocols it speaks.

use crate::rlp::{encode_pair, encode_str, encode_u32, rlp_data, rlp_list, rlp_uint};
use crate::tokens::ProtocolId;
use vstd::prelude::*;
use vstd::string::StringSliceAdditionalSpecFns;

verus! {

/// Protocol info
#[derive(Clone, Copy, Debug, PartialEq, Eq)]
pub struct CapabilityInfo {
    pub protocol: ProtocolId,
    pub version: u8,
    /// Total number of packet IDs this protocol support.
    pub packet_count: u8,
}

impl CapabilityInfo {
    /// The encoded protocol followed by the encoded version.
    pub open spec fn payload(self) -> Seq<u8> {
        rlp_data(self.protocol.spec_bytes()) + rlp_uint(self.version as nat)
    }

    /// The RLP encoding: a list of the protocol and the version.
    pub fn encode(&self) -> (encoded: Vec<u8>)
        requires
            self.payload().len() <= u32::MAX,
        ensures
            encoded@ == rlp_list(self.payload()),
    {
        let protocol = encode_str(self.protocol);
        let version = encode_u32(self.version as u32);
        encode_pair(&protocol, &version)
    }
}

} // verus!
