//! Deterministic derivation of the vault's signing authority.
//!
//! A vault's address is derived from the seed tuple
//! `("vault", mint, owner, [bump])` under the program's own address. The
//! derivation itself is performed by the ledger SDK's program-derived-address
//! functions, reached through the trusted wrappers below; everything layered
//! on top of them is verified.

use vstd::prelude::*;

use crate::addr::Address;

verus! {

/// The address that the ledger SDK derives for a seed tuple under a program,
/// or `None` when the seeds allow no derived address. This is a pure function
/// of its arguments (a hash of the seeds and the program address).
pub uninterp spec fn derived_address(seeds: Seq<Seq<u8>>, program: Seq<u8>) -> Option<Seq<u8>>;

/// The (address, bump) pair that the ledger SDK's bump search finds for a
/// seed tuple under a program, or `None` when no bump yields a derived
/// address. This too is a pure function of its arguments.
pub uninterp spec fn found_pda(seeds: Seq<Seq<u8>>, program: Seq<u8>) -> Option<(Seq<u8>, u8)>;

/// Relies on `Pubkey::create_program_address` (the Solana address type that
/// `anchor_lang` re-exports): hashes the seed tuple with the program address
/// and returns the resulting 32-byte address, or an error exactly when that
/// hash lands on the ed25519 curve. With the seed-shape limits of the
/// `requires` met, the call cannot fail for any other reason and does not
/// panic; its outcome depends on the arguments alone.
#[verifier::external_body]
fn create_program_address(seeds: &Vec<Vec<u8>>, program: &Address) -> (r: Option<Address>)
    requires
        seeds.deep_view().len() <= 16,
        forall|i: int|
            0 <= i < seeds.deep_view().len() ==> #[trigger] seeds.deep_view()[i].len() <= 32,
    ensures
        match r {
            Some(a) => derived_address(seeds.deep_view(), program@) == Some(a@),
            None => derived_address(seeds.deep_view(), program@) is None,
        },
{
    let refs: Vec<&[u8]> = seeds.iter().map(|s| s.as_slice()).collect();
    let pid = anchor_lang::prelude::Pubkey::new_from_array(program.bytes);
    match anchor_lang::prelude::Pubkey::create_program_address(&refs, &pid) {
        Ok(a) => Some(Address { bytes: a.to_bytes() }),
        Err(_) => None,
    }
}

/// Relies on `Pubkey::try_find_program_address`: searches bump bytes from 255
/// downward and returns the first (address, bump) whose derivation succeeds,
/// or `None` when the seeds are over the SDK's limits or no bump works. The
/// source shows the returned address is exactly the one
/// `create_program_address` yields for the seeds extended with the bump, and
/// that the outcome depends on the arguments alone.
#[verifier::external_body]
fn try_find_program_address(seeds: &Vec<Vec<u8>>, program: &Address) -> (r: Option<(Address, u8)>)
    ensures
        match r {
            Some((a, b)) => found_pda(seeds.deep_view(), program@) == Some((a@, b))
                && derived_address(seeds.deep_view().push(seq![b]), program@) == Some(a@),
            None => found_pda(seeds.deep_view(), program@) is None,
        },
{
    let refs: Vec<&[u8]> = seeds.iter().map(|s| s.as_slice()).collect();
    let pid = anchor_lang::prelude::Pubkey::new_from_array(program.bytes);
    match anchor_lang::prelude::Pubkey::try_find_program_address(&refs, &pid) {
        Some((a, b)) => Some((Address { bytes: a.to_bytes() }, b)),
        None => None,
    }
}

/// The role tag of every vault derivation: the bytes of `"vault"`.
pub open spec fn vault_tag() -> Seq<u8> {
    seq![118u8, 97u8, 117u8, 108u8, 116u8]
}

/// The seed tuple a vault is derived from, before the bump byte is chosen.
pub open spec fn vault_seeds(mint: Seq<u8>, owner: Seq<u8>) -> Seq<Seq<u8>> {
    seq![vault_tag(), mint, owner]
}

/// The full seed tuple with the recorded bump byte appended; possession of
/// these four values is what lets the vault sign.
pub open spec fn vault_seeds_with_bump(mint: Seq<u8>, owner: Seq<u8>, bump: u8) -> Seq<Seq<u8>> {
    vault_seeds(mint, owner).push(seq![bump])
}

/// The `"vault"` role tag as bytes.
pub fn vault_tag_bytes() -> (v: Vec<u8>)
    ensures
        v@ == vault_tag(),
{
    let tag: [u8; 5] = [118, 97, 117, 108, 116];
    let v = vstd::slice::slice_to_vec(tag.as_slice());
    proof {
        assert(v@ =~= vault_tag());
    }
    v
}

/// Copy an address into an owned byte vector.
pub fn addr_bytes(a: &Address) -> (v: Vec<u8>)
    ensures
        v@ == a@,
{
    vstd::slice::slice_to_vec(a.bytes.as_slice())
}

/// Build the seed tuple `("vault", mint, owner)`.
pub fn build_vault_seeds(mint: &Address, owner: &Address) -> (v: Vec<Vec<u8>>)
    ensures
        v.deep_view() == vault_seeds(mint@, owner@),
{
    let mut v: Vec<Vec<u8>> = Vec::new();
    v.push(vault_tag_bytes());
    v.push(addr_bytes(mint));
    v.push(addr_bytes(owner));
    proof {
        assert(v.deep_view() =~~= vault_seeds(mint@, owner@));
    }
    v
}

/// Build the full seed tuple `("vault", mint, owner, [bump])`.
pub fn build_vault_seeds_with_bump(mint: &Address, owner: &Address, bump: u8) -> (v: Vec<Vec<u8>>)
    ensures
        v.deep_view() == vault_seeds_with_bump(mint@, owner@, bump),
{
    let mut v = build_vault_seeds(mint, owner);
    let mut bump_seed: Vec<u8> = Vec::new();
    bump_seed.push(bump);
    v.push(bump_seed);
    proof {
        assert(v.deep_view() =~~= vault_seeds_with_bump(mint@, owner@, bump));
    }
    v
}

/// Find the canonical vault address and bump for an (owner, mint) pair under
/// a program. `None` means the seeds allow no derivation at all.
pub fn find_vault_address(program_id: &Address, mint: &Address, owner: &Address) -> (r: Option<
    (Address, u8),
>)
    ensures
        match r {
            Some((a, b)) => found_pda(vault_seeds(mint@, owner@), program_id@) == Some((a@, b))
                && derived_address(vault_seeds_with_bump(mint@, owner@, b), program_id@) == Some(
                a@,
            ),
            None => found_pda(vault_seeds(mint@, owner@), program_id@) is None,
        },
{
    let seeds = build_vault_seeds(mint, owner);
    try_find_program_address(&seeds, program_id)
}

/// The seed tuple of the associated holding account for a wallet authority
/// and a mint under the token program.
pub open spec fn associated_token_seeds(
    authority: Seq<u8>,
    token_program: Seq<u8>,
    mint: Seq<u8>,
) -> Seq<Seq<u8>> {
    seq![authority, token_program, mint]
}

/// Resolve the one holding-account address associated with (mint,
/// authority): the deterministic derivation the external associated-account
/// resolver performs.
pub fn find_associated_token_address(
    ata_program: &Address,
    authority: &Address,
    token_program: &Address,
    mint: &Address,
) -> (r: Option<(Address, u8)>)
    ensures
        match r {
            Some((a, b)) => found_pda(
                associated_token_seeds(authority@, token_program@, mint@),
                ata_program@,
            ) == Some((a@, b)),
            None => found_pda(
                associated_token_seeds(authority@, token_program@, mint@),
                ata_program@,
            ) is None,
        },
{
    let mut seeds: Vec<Vec<u8>> = Vec::new();
    seeds.push(addr_bytes(authority));
    seeds.push(addr_bytes(token_program));
    seeds.push(addr_bytes(mint));
    proof {
        assert(seeds.deep_view() =~~= associated_token_seeds(authority@, token_program@, mint@));
    }
    try_find_program_address(&seeds, ata_program)
}

/// Re-derive the vault address from the stored seed material and compare it
/// with the actual address: the sole authentication of every vault operation.
pub fn check_vault_derivation(
    program_id: &Address,
    vault_address: &Address,
    mint: &Address,
    owner: &Address,
    bump: u8,
) -> (r: bool)
    ensures
        r == (derived_address(vault_seeds_with_bump(mint@, owner@, bump), program_id@) == Some(
            vault_address@,
        )),
{
    let seeds = build_vault_seeds_with_bump(mint, owner, bump);
    proof {
        assert(seeds.deep_view().len() == 4);
        assert(forall|i: int|
            0 <= i < seeds.deep_view().len() ==> #[trigger] seeds.deep_view()[i].len() <= 32);
    }
    match create_program_address(&seeds, program_id) {
        Some(a) => crate::addr::addr_eq(&a, vault_address),
        None => false,
    }
}

} // verus!
