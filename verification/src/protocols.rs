//! Lists of protocol identifiers.

use crate::tokens::ProtocolId;
use vstd::prelude::*;
use vstd::utf8::{encode_utf8, encode_utf8_decode_utf8};

verus! {

/// A list of protocols names the given one.
pub open spec fn listed(protocols: Seq<ProtocolId>, protocol: Seq<char>) -> bool {
    exists|i: int| 0 <= i < protocols.len() && (#[trigger] protocols[i])@ == protocol
}

/// No protocol occurs twice.
pub open spec fn all_distinct(protocols: Seq<ProtocolId>) -> bool {
    forall|i: int, j: int|
        0 <= i < j < protocols.len() ==> (#[trigger] protocols[i])@ != (#[trigger] protocols[j])@
}

/// Tells whether two identifiers are the same text.
pub fn same_protocol(a: &str, b: &str) -> (same: bool)
    ensures
        same == (a@ == b@),
{
    let left = a.as_bytes();
    let right = b.as_bytes();
    proof {
        encode_utf8_decode_utf8(a@);
        encode_utf8_decode_utf8(b@);
    }
    if left.len() != right.len() {
        return false;
    }
    let mut i: usize = 0;
    while i < left.len()
        invariant
            i <= left.len(),
            left.len() == right.len(),
            left@ == encode_utf8(a@),
            right@ == encode_utf8(b@),
            forall|j: int| 0 <= j < i ==> left[j] == right[j],
        decreases left.len() - i,
    {
        if left[i] != right[i] {
            return false;
        }
        i += 1;
    }
    assert(left@ =~= right@);
    true
}

/// Tells whether a list of protocols names the given one.
pub fn is_listed(protocols: &Vec<ProtocolId>, protocol: &str) -> (found: bool)
    ensures
        found == listed(protocols@, protocol@),
{
    let mut i: usize = 0;
    while i < protocols.len()
        invariant
            i <= protocols.len(),
            forall|j: int| 0 <= j < i ==> (#[trigger] protocols[j])@ != protocol@,
        decreases protocols.len() - i,
    {
        if same_protocol(protocols[i], protocol) {
            return true;
        }
        i += 1;
    }
    false
}

} // verus!
