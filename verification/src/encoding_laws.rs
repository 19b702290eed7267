//! What holds of encodings.

use crate::capability::CapabilityInfo;
use crate::rlp::{be_bytes, rlp_data, rlp_list, rlp_uint};
use vstd::prelude::*;
use vstd::string::StringSliceAdditionalSpecFns;

verus! {

/// The number that some digits in base 256 stand for, the most significant one first.
pub open spec fn number(digits: Seq<u8>) -> nat
    decreases digits.len(),
{
    if digits.len() == 0 {
        0
    } else {
        256 * number(digits.drop_last()) + digits.last() as nat
    }
}

/// The digits of a number stand for it, and none of them is a leading zero.
pub proof fn law_digits(n: nat)
    ensures
        number(be_bytes(n)) == n,
        be_bytes(n).len() > 0 ==> be_bytes(n)[0] != 0,
        n > 0 ==> be_bytes(n).len() > 0,
    decreases n,
{
    if n > 0 {
        law_digits(n / 256);
        let rest = be_bytes(n / 256);
        let digits = rest.push((n % 256) as u8);
        assert(digits.drop_last() =~= rest);
        if n / 256 == 0 {
            assert(be_bytes(0).len() == 0);
        } else {
            assert(digits[0] == rest[0]);
        }
    }
}

/// How many digits a length has.
proof fn lemma_length_digits(n: nat)
    requires
        0 < n <= u32::MAX,
    ensures
        1 <= be_bytes(n).len() <= 4,
{
    reveal_with_fuel(be_bytes, 6);
    assert(n / 256 / 256 / 256 / 256 == 0);
}

/// A header of digits says how many there are, and they say what follows.
proof fn lemma_long(base: int, a: Seq<u8>, b: Seq<u8>)
    requires
        0 <= base <= 0xf7,
        0 < a.len() <= u32::MAX,
        0 < b.len() <= u32::MAX,
        seq![(base + be_bytes(a.len()).len()) as u8] + be_bytes(a.len()) + a == seq![
            (base + be_bytes(b.len()).len()) as u8,
        ] + be_bytes(b.len()) + b,
    ensures
        a == b,
{
    let da = be_bytes(a.len());
    let db = be_bytes(b.len());
    let left = seq![(base + da.len()) as u8] + da + a;
    let right = seq![(base + db.len()) as u8] + db + b;
    lemma_length_digits(a.len());
    lemma_length_digits(b.len());
    law_digits(a.len());
    law_digits(b.len());
    assert(left[0] == right[0]);
    assert(da.len() == db.len());
    assert(left.subrange(1, 1 + da.len() as int) =~= da);
    assert(right.subrange(1, 1 + da.len() as int) =~= db);
    assert(a.len() == b.len());
    assert(left.skip(1 + da.len() as int) =~= a);
    assert(right.skip(1 + da.len() as int) =~= b);
}

/// No two byte strings have the same encoding.
pub proof fn law_data_unambiguous(a: Seq<u8>, b: Seq<u8>)
    requires
        a.len() <= u32::MAX,
        b.len() <= u32::MAX,
        rlp_data(a) == rlp_data(b),
    ensures
        a == b,
{
    let left = rlp_data(a);
    let right = rlp_data(b);
    if a.len() > 55 {
        lemma_length_digits(a.len());
        assert(0xb8 <= left[0]);
    }
    if b.len() > 55 {
        lemma_length_digits(b.len());
        assert(0xb8 <= right[0]);
    }
    assert(left[0] == right[0]);
    if a.len() > 55 && b.len() > 55 {
        lemma_long(0xb7, a, b);
    } else if a.len() == 1 && a[0] < 0x80 {
        assert(a =~= b);
    } else if a.len() <= 55 {
        assert(left.skip(1) =~= a);
        assert(right.skip(1) =~= b);
    }
}

/// No two lists have the same encoding.
pub proof fn law_list_unambiguous(a: Seq<u8>, b: Seq<u8>)
    requires
        a.len() <= u32::MAX,
        b.len() <= u32::MAX,
        rlp_list(a) == rlp_list(b),
    ensures
        a == b,
{
    let left = rlp_list(a);
    let right = rlp_list(b);
    if a.len() > 55 {
        lemma_length_digits(a.len());
        assert(0xf8 <= left[0]);
    }
    if b.len() > 55 {
        lemma_length_digits(b.len());
        assert(0xf8 <= right[0]);
    }
    assert(left[0] == right[0]);
    if a.len() > 55 && b.len() > 55 {
        lemma_long(0xf7, a, b);
    } else if a.len() <= 55 {
        assert(left.skip(1) =~= a);
        assert(right.skip(1) =~= b);
    }
}

/// The encoding of a byte string ends with it, and never looks like that of a list. A single small
/// byte is its own encoding.
pub proof fn law_data_and_lists(bytes: Seq<u8>, payload: Seq<u8>, byte: u8)
    requires
        bytes.len() <= u32::MAX,
        payload.len() <= u32::MAX,
        byte < 0x80,
    ensures
        rlp_data(bytes).len() >= bytes.len(),
        rlp_data(bytes).skip(rlp_data(bytes).len() - bytes.len()) == bytes,
        rlp_list(payload).len() > payload.len(),
        rlp_list(payload).skip(rlp_list(payload).len() - payload.len()) == payload,
        rlp_data(bytes)[0] < 0xc0 <= rlp_list(payload)[0],
        rlp_data(seq![byte]) == seq![byte],
{
    if bytes.len() > 55 {
        lemma_length_digits(bytes.len());
    }
    if payload.len() > 55 {
        lemma_length_digits(payload.len());
    }
    let data = rlp_data(bytes);
    let list = rlp_list(payload);
    assert(data.skip(data.len() - bytes.len()) =~= bytes);
    assert(list.skip(list.len() - payload.len()) =~= payload);
}

/// A version is one digit, or none if it is zero.
proof fn lemma_version(version: u8)
    ensures
        version > 0 ==> be_bytes(version as nat) == seq![version],
        version == 0 ==> be_bytes(version as nat) == Seq::<u8>::empty(),
{
    reveal_with_fuel(be_bytes, 3);
    if version > 0 {
        assert(version as nat / 256 == 0);
        assert(be_bytes(version as nat) =~= seq![version]);
    }
}

/// A capability is announced as its protocol and then its version: the version is at the end, what
/// comes before it is the same for all versions, and how many packets there are is not said.
pub proof fn law_capability_announced(one: CapabilityInfo, other: CapabilityInfo)
    requires
        one.protocol == other.protocol,
        one.payload().len() <= u32::MAX,
        other.payload().len() <= u32::MAX,
    ensures
        rlp_list(one.payload()) == rlp_list(other.payload()) <==> one.version == other.version,
        one.payload().last() == (if one.version == 0 {
            0x80
        } else {
            one.version
        }),
        one.payload().take(rlp_data(one.protocol.spec_bytes()).len() as int) == rlp_data(
            one.protocol.spec_bytes(),
        ),
        one.payload().len() == rlp_data(one.protocol.spec_bytes()).len() + (if one.version
            < 0x80 {
            1int
        } else {
            2
        }),
{
    let head = rlp_data(one.protocol.spec_bytes());
    lemma_version(one.version);
    lemma_version(other.version);
    assert(one.payload().take(head.len() as int) =~= head);
    if rlp_list(one.payload()) == rlp_list(other.payload()) {
        law_list_unambiguous(one.payload(), other.payload());
        assert(one.payload().skip(head.len() as int) =~= rlp_uint(one.version as nat));
        assert(other.payload().skip(head.len() as int) =~= rlp_uint(other.version as nat));
        law_data_unambiguous(be_bytes(one.version as nat), be_bytes(other.version as nat));
        law_digits(one.version as nat);
        law_digits(other.version as nat);
    }
}

} // verus!
