//! The canonical byte encoding of an address.
//!
//! An address is written as words of four bytes, most significant byte first, that
//! say what follows, and then the 32 bytes of its key, most significant byte first.
//! The first word is 18, "an address". The second is the kind: 0 for an account, 1 for
//! a contract. An account has a third word, the kind of its key, which is 0. So an
//! account takes 44 bytes and a contract 40.

use vstd::prelude::*;
use vstd::bytes::{
    lemma_auto_spec_u128_to_from_le_bytes, spec_u128_from_le_bytes, spec_u128_to_le_bytes,
    u128_from_le_bytes, u128_to_le_bytes,
};
use crate::types::Address;

verus! {

/// The 16 bytes of `x`, most significant byte first.
pub open spec fn big_endian(x: u128) -> Seq<u8> {
    Seq::new(16, |i: int| spec_u128_to_le_bytes(x)[15 - i])
}

/// The words that precede the key: "an address", its kind, and for an account the
/// kind of its key.
pub open spec fn tags(contract: bool) -> Seq<u8> {
    if contract {
        seq![0u8, 0u8, 0u8, 18u8, 0u8, 0u8, 0u8, 1u8]
    } else {
        seq![0u8, 0u8, 0u8, 18u8, 0u8, 0u8, 0u8, 0u8, 0u8, 0u8, 0u8, 0u8]
    }
}

/// The canonical encoding of `address`.
pub open spec fn spec_encoding(address: Address) -> Seq<u8> {
    tags(address.contract) + big_endian(address.key_high) + big_endian(address.key_low)
}

/// A word is known by its big-endian bytes.
pub proof fn lemma_big_endian_is_injective(x: u128, y: u128)
    requires
        big_endian(x) == big_endian(y),
    ensures
        x == y,
{
    lemma_auto_spec_u128_to_from_le_bytes();
    assert(spec_u128_to_le_bytes(x) =~= spec_u128_to_le_bytes(y)) by {
        assert forall|i: int| 0 <= i < 16 implies spec_u128_to_le_bytes(x)[i]
            == spec_u128_to_le_bytes(y)[i] by {
            assert(big_endian(x)[15 - i] == spec_u128_to_le_bytes(x)[15 - (15 - i)]);
            assert(big_endian(y)[15 - i] == spec_u128_to_le_bytes(y)[15 - (15 - i)]);
        }
    }
    assert(spec_u128_from_le_bytes(spec_u128_to_le_bytes(x)) == x);
    assert(spec_u128_from_le_bytes(spec_u128_to_le_bytes(y)) == y);
}

/// The shape of an encoding: its length, its leading words, and where the two halves
/// of the key stand.
pub proof fn lemma_encoding_shape(address: Address)
    ensures
        spec_encoding(address).len() == (if address.contract {
            40int
        } else {
            44int
        }),
        spec_encoding(address).subrange(0, tags(address.contract).len() as int) == tags(
            address.contract,
        ),
        spec_encoding(address).subrange(
            spec_encoding(address).len() - 32,
            spec_encoding(address).len() - 16,
        ) == big_endian(address.key_high),
        spec_encoding(address).subrange(
            spec_encoding(address).len() - 16,
            spec_encoding(address).len() as int,
        ) == big_endian(address.key_low),
{
    let encoded = spec_encoding(address);
    let lead = tags(address.contract);
    assert(encoded.subrange(0, lead.len() as int) =~= lead);
    assert(encoded.subrange(encoded.len() - 32, encoded.len() - 16) =~= big_endian(
        address.key_high,
    ));
    assert(encoded.subrange(encoded.len() - 16, encoded.len() as int) =~= big_endian(
        address.key_low,
    ));
}

/// An address is known by its encoding: two addresses with the same encoding are the
/// same address.
pub proof fn law_encoding_is_injective(first: Address, second: Address)
    requires
        spec_encoding(first) == spec_encoding(second),
    ensures
        first == second,
{
    lemma_encoding_shape(first);
    lemma_encoding_shape(second);
    lemma_big_endian_is_injective(first.key_high, second.key_high);
    lemma_big_endian_is_injective(first.key_low, second.key_low);
}

/// Appends the 16 bytes of `x`, most significant byte first.
fn push_big_endian(bytes: &mut Vec<u8>, x: u128)
    ensures
        final(bytes)@ == old(bytes)@ + big_endian(x),
{
    let ghost before = bytes@;
    let little = u128_to_le_bytes(x);
    let mut i: usize = 16;
    while i > 0
        invariant
            i <= 16,
            little@ == spec_u128_to_le_bytes(x),
            little@.len() == 16,
            bytes@ == before + big_endian(x).subrange(0, 16 - i),
        decreases i,
    {
        i -= 1;
        bytes.push(little[i]);
        proof {
            assert(bytes@ =~= before + big_endian(x).subrange(0, 16 - i));
        }
    }
    proof {
        assert(big_endian(x).subrange(0, 16) =~= big_endian(x));
    }
}

/// Reads the word whose 16 bytes, most significant first, start at `start`.
fn read_big_endian(bytes: &[u8], start: usize) -> (x: u128)
    requires
        start + 16 <= bytes@.len(),
    ensures
        big_endian(x) == bytes@.subrange(start as int, start + 16),
{
    let n: usize = bytes.len();
    let mut little: Vec<u8> = Vec::new();
    let mut i: usize = 16;
    while i > 0
        invariant
            i <= 16,
            n == bytes@.len(),
            start + 16 <= n,
            little@.len() == 16 - i,
            forall|j: int| 0 <= j < little@.len() ==> little@[j] == bytes@[start + 15 - j],
        decreases i,
    {
        i -= 1;
        little.push(bytes[start + i]);
    }
    let x = u128_from_le_bytes(little.as_slice());
    proof {
        lemma_auto_spec_u128_to_from_le_bytes();
        assert(spec_u128_to_le_bytes(spec_u128_from_le_bytes(little@)) == little@);
        assert(big_endian(x) =~= bytes@.subrange(start as int, start + 16));
    }
    x
}

impl Address {
    /// The canonical encoding of this address.
    pub fn encoding(&self) -> (bytes: Vec<u8>)
        ensures
            bytes@ == spec_encoding(*self),
    {
        let mut bytes: Vec<u8> = Vec::new();
        bytes.push(0);
        bytes.push(0);
        bytes.push(0);
        bytes.push(18);
        bytes.push(0);
        bytes.push(0);
        bytes.push(0);
        if self.contract {
            bytes.push(1);
        } else {
            bytes.push(0);
            bytes.push(0);
            bytes.push(0);
            bytes.push(0);
            bytes.push(0);
        }
        proof {
            assert(bytes@ =~= tags(self.contract));
        }
        push_big_endian(&mut bytes, self.key_high);
        push_big_endian(&mut bytes, self.key_low);
        bytes
    }

    /// The address that `bytes` encode, if they encode one.
    pub fn from_encoding(bytes: &[u8]) -> (address: Option<Address>)
        ensures
            match address {
                Some(found) => spec_encoding(found) == bytes@,
                None => forall|any: Address| spec_encoding(any) != bytes@,
            },
    {
        let n: usize = bytes.len();
        if n != 40 && n != 44 {
            proof {
                assert forall|any: Address| spec_encoding(any) != bytes@ by {
                    lemma_encoding_shape(any);
                }
            }
            return None;
        }
        let contract: bool = n == 40;
        let kind: u8 = if contract {
            1
        } else {
            0
        };
        let mut well_tagged: bool = bytes[0] == 0 && bytes[1] == 0 && bytes[2] == 0 && bytes[3]
            == 18 && bytes[4] == 0 && bytes[5] == 0 && bytes[6] == 0 && bytes[7] == kind;
        if !contract {
            well_tagged = well_tagged && bytes[8] == 0 && bytes[9] == 0 && bytes[10] == 0
                && bytes[11] == 0;
        }
        if !well_tagged {
            proof {
                assert forall|any: Address| spec_encoding(any) != bytes@ by {
                    lemma_encoding_shape(any);
                    if spec_encoding(any) == bytes@ {
                        let lead = tags(any.contract);
                        let cut = bytes@.subrange(0, lead.len() as int);
                        assert(cut == lead);
                        assert forall|j: int| 0 <= j < lead.len() implies bytes@[j] == lead[j] by {
                            assert(cut[j] == bytes@[j]);
                        }
                    }
                }
            }
            return None;
        }
        let key_high: u128 = read_big_endian(bytes, n - 32);
        let key_low: u128 = read_big_endian(bytes, n - 16);
        let found = Address { contract, key_high, key_low };
        proof {
            let lead = tags(contract);
            assert(bytes@.subrange(0, lead.len() as int) =~= lead);
            assert(spec_encoding(found) =~= bytes@.subrange(0, lead.len() as int) + bytes@.subrange(
                n - 32,
                n - 16,
            ) + bytes@.subrange(n - 16, n as int));
            assert(spec_encoding(found) =~= bytes@);
        }
        Some(found)
    }
}

} // verus!
