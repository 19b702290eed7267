//! Recursive length prefix (RLP) encoding.

use vstd::prelude::*;
use vstd::string::StringSliceAdditionalSpecFns;

verus! {

/// The digits of a number in base 256, most significant first, without leading zeros.
pub open spec fn be_bytes(n: nat) -> Seq<u8>
    decreases n,
{
    if n == 0 {
        Seq::empty()
    } else {
        be_bytes(n / 256).push((n % 256) as u8)
    }
}

/// The encoding of a byte string.
pub open spec fn rlp_data(bytes: Seq<u8>) -> Seq<u8> {
    if bytes.len() == 1 && bytes[0] < 0x80 {
        bytes
    } else if bytes.len() <= 55 {
        seq![(0x80 + bytes.len()) as u8] + bytes
    } else {
        seq![(0xb7 + be_bytes(bytes.len()).len()) as u8] + be_bytes(bytes.len()) + bytes
    }
}

/// The encoding of a number.
pub open spec fn rlp_uint(n: nat) -> Seq<u8> {
    rlp_data(be_bytes(n))
}

/// The encoding of a list whose items, encoded and put one after the other, are the payload.
pub open spec fn rlp_list(payload: Seq<u8>) -> Seq<u8> {
    if payload.len() <= 55 {
        seq![(0xc0 + payload.len()) as u8] + payload
    } else {
        seq![(0xf7 + be_bytes(payload.len()).len()) as u8] + be_bytes(payload.len()) + payload
    }
}

/// Calls `rlp::encode` on a string. Claimed: the result is the encoding of the string's UTF-8
/// bytes. The function writes lengths as 32-bit numbers, hence the limit.
#[verifier::external_body]
pub(crate) fn encode_str(text: &str) -> (encoded: Vec<u8>)
    requires
        text.spec_bytes().len() <= u32::MAX,
    ensures
        encoded@ == rlp_data(text.spec_bytes()),
{
    rlp::encode(&text).to_vec()
}

/// Calls `rlp::encode` on a number. Claimed: the result is the encoding of the number.
#[verifier::external_body]
pub(crate) fn encode_u32(n: u32) -> (encoded: Vec<u8>)
    ensures
        encoded@ == rlp_uint(n as nat),
{
    rlp::encode(&n).to_vec()
}

/// Fills an `rlp::RlpStream` made by `new_list` with two items that are already encoded, by
/// `append_raw`, and takes its bytes with `out`. Claimed: the result is the encoding of the list
/// of the two items. The stream writes lengths as 32-bit numbers, hence the limit.
#[verifier::external_body]
pub(crate) fn encode_pair(first: &Vec<u8>, second: &Vec<u8>) -> (encoded: Vec<u8>)
    requires
        first@.len() + second@.len() <= u32::MAX,
    ensures
        encoded@ == rlp_list(first@ + second@),
{
    let mut stream = rlp::RlpStream::new_list(2);
    stream.append_raw(first, 1);
    stream.append_raw(second, 1);
    stream.out().to_vec()
}

} // verus!
