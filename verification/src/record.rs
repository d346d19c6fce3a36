//! The persistent vault record: one per (owner, mint) pair, holding the
//! seed material that re-derives — and thereby authenticates — the vault's
//! address on every access.

use vstd::prelude::*;

use crate::addr::Address;
use crate::pda::{derived_address, vault_seeds_with_bump};

verus! {

/// Number of bytes a serialized vault record occupies after its
/// discriminator prefix: 1 bump byte, 7 bytes of padding, two 32-byte
/// addresses.
pub const RECORD_LEN: usize = 72;

/// A vault record. `owner` and `mint` identify the controlling principal and
/// the escrowed asset; `bump` is the disambiguating byte found once at
/// creation, stored so the address derivation can be replayed.
#[derive(Clone, Copy, Debug, PartialEq, Eq)]
pub struct Vault {
    pub bump: u8,
    pub owner: Address,
    pub mint: Address,
}

impl Vault {
    /// The full seed tuple this record claims to be derived from.
    pub open spec fn seeds_with_bump(self) -> Seq<Seq<u8>> {
        vault_seeds_with_bump(self.mint@, self.owner@, self.bump)
    }

    /// The record's seed material derives exactly the address `addr` under
    /// `program`: the invariant enforced on every access.
    pub open spec fn derives_to(self, addr: Seq<u8>, program: Seq<u8>) -> bool {
        derived_address(self.seeds_with_bump(), program) == Some(addr)
    }

    /// The signer proof for a call issued with the vault's authority: the
    /// same four seeds the address was derived from. Possession of these
    /// values is necessary and sufficient for the vault to sign.
    pub fn signer_seeds(&self) -> (v: Vec<Vec<u8>>)
        ensures
            v.deep_view() == self.seeds_with_bump(),
    {
        crate::pda::build_vault_seeds_with_bump(&self.mint, &self.owner, self.bump)
    }

    /// The serialized payload: bump byte, 7 bytes of padding, owner, mint.
    pub open spec fn spec_bytes(self) -> Seq<u8> {
        seq![self.bump, 0u8, 0u8, 0u8, 0u8, 0u8, 0u8, 0u8] + self.owner@ + self.mint@
    }

    /// Serialize the record payload.
    pub fn to_bytes(&self) -> (v: Vec<u8>)
        ensures
            v@ == self.spec_bytes(),
            v@.len() == RECORD_LEN,
    {
        let mut v: Vec<u8> = Vec::new();
        v.push(self.bump);
        let mut i: usize = 0;
        while i < 7
            invariant
                v@.len() == 1 + i,
                i <= 7,
                v@[0] == self.bump,
                forall|j: int| 1 <= j < v@.len() ==> v@[j] == 0u8,
            decreases 7 - i,
        {
            v.push(0);
            i += 1;
        }
        let mut owner_bytes = crate::pda::addr_bytes(&self.owner);
        v.append(&mut owner_bytes);
        let mut mint_bytes = crate::pda::addr_bytes(&self.mint);
        v.append(&mut mint_bytes);
        proof {
            assert(v@ =~= self.spec_bytes());
        }
        v
    }
}

/// What a byte string parses to: `Some` exactly for 72-byte payloads, whose
/// fields are read back from their fixed offsets.
pub open spec fn spec_parse_record(bytes: Seq<u8>) -> Option<Vault> {
    if bytes.len() == RECORD_LEN {
        Some(
            Vault {
                bump: bytes[0],
                owner: Address { bytes: seq_to_array_32(bytes.subrange(8, 40)) },
                mint: Address { bytes: seq_to_array_32(bytes.subrange(40, 72)) },
            },
        )
    } else {
        None
    }
}

/// The unique 32-byte array whose view is `s` (for 32-element sequences).
pub open spec fn seq_to_array_32(s: Seq<u8>) -> [u8; 32] {
    choose|a: [u8; 32]| a@ == s
}

/// A 32-element byte sequence is the view of exactly one 32-byte array.
pub proof fn lemma_seq_to_array_32(a: [u8; 32])
    ensures
        seq_to_array_32(a@) == a,
{
    broadcast use vstd::array::group_array_axioms;

    let picked = seq_to_array_32(a@);
    assert(picked@ == a@ || picked@ != a@);
    assert(exists|x: [u8; 32]| x@ == a@) by {
        assert(a@ == a@);
    }
    assert(picked@ == a@);
    assert(picked =~= a);
}

/// Parse a serialized record payload. Returns `None` exactly when the length
/// is not 72; padding bytes are not inspected.
pub fn from_bytes(bytes: &Vec<u8>) -> (r: Option<Vault>)
    ensures
        r == spec_parse_record(bytes@),
{
    broadcast use vstd::array::group_array_axioms;

    if bytes.len() != RECORD_LEN {
        return None;
    }
    let bump = bytes[0];
    let mut owner: [u8; 32] = [0; 32];
    let mut mint: [u8; 32] = [0; 32];
    let mut i: usize = 0;
    while i < 32
        invariant
            i <= 32,
            bytes@.len() == RECORD_LEN,
            forall|j: int| 0 <= j < i ==> owner@[j] == bytes@[8 + j],
            forall|j: int| 0 <= j < i ==> mint@[j] == bytes@[40 + j],
        decreases 32 - i,
    {
        owner[i] = bytes[8 + i];
        mint[i] = bytes[40 + i];
        i += 1;
    }
    proof {
        assert(owner@ =~= bytes@.subrange(8, 40));
        assert(mint@ =~= bytes@.subrange(40, 72));
        lemma_seq_to_array_32(owner);
        lemma_seq_to_array_32(mint);
        assert(seq_to_array_32(bytes@.subrange(8, 40)) == owner);
        assert(seq_to_array_32(bytes@.subrange(40, 72)) == mint);
    }
    Some(Vault { bump, owner: Address { bytes: owner }, mint: Address { bytes: mint } })
}

/// Serialization round trip: parsing a record's serialized payload yields
/// the record back.
pub proof fn lemma_record_round_trip(v: Vault)
    ensures
        spec_parse_record(v.spec_bytes()) == Some(v),
{
    broadcast use vstd::array::group_array_axioms;

    let bytes = v.spec_bytes();
    assert(bytes.len() == RECORD_LEN);
    assert(bytes.subrange(8, 40) =~= v.owner@);
    assert(bytes.subrange(40, 72) =~= v.mint@);
    lemma_seq_to_array_32(v.owner.bytes);
    lemma_seq_to_array_32(v.mint.bytes);
    let parsed = spec_parse_record(bytes)->Some_0;
    assert(parsed.owner == v.owner);
    assert(parsed.mint == v.mint);
    assert(parsed == v);
}

} // verus!
