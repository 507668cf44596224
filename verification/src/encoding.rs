//! Big-endian integers as byte strings.

use vstd::prelude::*;

verus! {

/// The number that a byte string denotes when read most significant byte first.
pub open spec fn be_value(bytes: Seq<u8>) -> nat
    decreases bytes.len(),
{
    if bytes.len() == 0 {
        0
    } else {
        be_value(bytes.drop_last()) * 256 + bytes.last() as nat
    }
}

/// The `len` lowest base-256 digits of `value`, most significant first.
pub open spec fn be_encode(value: nat, len: nat) -> Seq<u8>
    decreases len,
{
    if len == 0 {
        Seq::empty()
    } else {
        be_encode(value / 256, (len - 1) as nat).push((value % 256) as u8)
    }
}

/// Encoding the value of a byte string at that string's length gives the
/// string back.
pub proof fn lemma_encode_of_value(bytes: Seq<u8>)
    ensures
        be_encode(be_value(bytes), bytes.len()) == bytes,
    decreases bytes.len(),
{
    if bytes.len() > 0 {
        let init = bytes.drop_last();
        lemma_encode_of_value(init);
        let v = be_value(bytes);
        assert(v == be_value(init) * 256 + bytes.last() as nat);
        assert(v / 256 == be_value(init));
        assert(v % 256 == bytes.last() as nat);
        assert(init.push(bytes.last()) =~= bytes);
    } else {
        assert(bytes =~= Seq::empty());
    }
}

/// 256 to the power `len`: the number of byte strings of that length.
pub open spec fn radix_power(len: nat) -> nat
    decreases len,
{
    if len == 0 {
        1
    } else {
        256 * radix_power((len - 1) as nat)
    }
}

/// An encoding is as long as it was asked to be.
pub proof fn lemma_encode_len(value: nat, len: nat)
    ensures
        be_encode(value, len).len() == len,
    decreases len,
{
    if len > 0 {
        lemma_encode_len(value / 256, (len - 1) as nat);
    }
}

/// The value of an encoding is the encoded number, reduced to the digits
/// that fit.
pub proof fn lemma_value_of_encode(value: nat, len: nat)
    ensures
        radix_power(len) > 0,
        be_value(be_encode(value, len)) == value % radix_power(len),
    decreases len,
{
    if len > 0 {
        let rest = (len - 1) as nat;
        lemma_value_of_encode(value / 256, rest);
        lemma_encode_len(value / 256, rest);
        let init = be_encode(value / 256, rest);
        let digit = (value % 256) as u8;
        assert(init.push(digit).drop_last() =~= init);
        assert(init.push(digit).last() == digit);
        vstd::arithmetic::div_mod::lemma_mod_breakdown(
            value as int,
            256,
            radix_power(rest) as int,
        );
        assert(radix_power(len) == 256 * radix_power(rest));
    } else {
        assert(be_encode(value, len) =~= Seq::<u8>::empty());
    }
}

/// A byte string denotes zero exactly when each of its bytes is zero.
pub proof fn lemma_value_zero(bytes: Seq<u8>)
    ensures
        be_value(bytes) == 0 <==> forall|i: int| 0 <= i < bytes.len() ==> bytes[i] == 0u8,
    decreases bytes.len(),
{
    if bytes.len() > 0 {
        let init = bytes.drop_last();
        lemma_value_zero(init);
        assert(be_value(bytes) == be_value(init) * 256 + bytes.last() as nat);
        assert(forall|i: int| 0 <= i < init.len() ==> init[i] == bytes[i]);
        if be_value(bytes) == 0 {
            assert(be_value(init) == 0);
            assert(bytes.last() == 0u8);
            assert forall|i: int| 0 <= i < bytes.len() implies bytes[i] == 0u8 by {
                if i < init.len() {
                    assert(init[i] == 0u8);
                }
            }
        }
        if forall|i: int| 0 <= i < bytes.len() ==> bytes[i] == 0u8 {
            assert(bytes.last() == 0u8);
            assert(forall|i: int| 0 <= i < init.len() ==> init[i] == 0u8);
        }
    }
}

/// Whether 32 big-endian bytes denote zero.
pub fn is_zero(bytes: &[u8; 32]) -> (zero: bool)
    ensures
        zero == (be_value(bytes@) == 0),
{
    let mut i: usize = 0;
    while i < 32
        invariant
            i <= 32,
            forall|j: int| 0 <= j < i ==> bytes@[j] == 0u8,
        decreases 32 - i,
    {
        if bytes[i] != 0 {
            proof {
                lemma_value_zero(bytes@);
            }
            return false;
        }
        i += 1;
    }
    proof {
        lemma_value_zero(bytes@);
    }
    true
}

/// The four bytes of a path index, most significant first.
pub fn index_bytes(index: u32) -> (out: [u8; 4])
    ensures
        out@ == be_encode(index as nat, 4),
{
    let b0: u8 = (index / 0x100_0000) as u8;
    let b1: u8 = ((index / 0x1_0000) % 256) as u8;
    let b2: u8 = ((index / 0x100) % 256) as u8;
    let b3: u8 = (index % 256) as u8;
    let out: [u8; 4] = [b0, b1, b2, b3];
    proof {
        reveal_with_fuel(be_encode, 5);
        let v = index as nat;
        assert(v / 256 / 256 == v / 0x1_0000);
        assert(v / 256 / 256 / 256 == v / 0x100_0000);
        assert((v / 0x100_0000) % 256 == v / 0x100_0000);
        assert(out@ =~= be_encode(v, 4));
    }
    out
}

} // verus!
