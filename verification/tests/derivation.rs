//! Address derivation and record serialization, cross-checked against the
//! ledger SDK's own derivation.

use vault::addr::Address;
use vault::record::{from_bytes, Vault, RECORD_LEN};

fn addr(b: u8) -> Address {
    Address::new([b; 32])
}

#[test]
fn find_vault_address_matches_sdk_derivation() {
    let program_id = addr(7);
    let mint = addr(2);
    let owner = addr(3);

    let (derived, bump) =
        vault::pda::find_vault_address(&program_id, &mint, &owner).expect("derivation must exist");

    let pid = anchor_lang::prelude::Pubkey::new_from_array([7; 32]);
    let mint_pk = anchor_lang::prelude::Pubkey::new_from_array([2; 32]);
    let owner_pk = anchor_lang::prelude::Pubkey::new_from_array([3; 32]);
    let (expected, expected_bump) = anchor_lang::prelude::Pubkey::find_program_address(
        &[b"vault", mint_pk.as_ref(), owner_pk.as_ref()],
        &pid,
    );
    assert_eq!(derived.bytes, expected.to_bytes());
    assert_eq!(bump, expected_bump);
}

#[test]
fn find_vault_address_is_deterministic_and_not_an_input() {
    let program_id = addr(9);
    let mint = addr(4);
    let owner = addr(5);
    let first = vault::pda::find_vault_address(&program_id, &mint, &owner).unwrap();
    let second = vault::pda::find_vault_address(&program_id, &mint, &owner).unwrap();
    assert_eq!(first.0, second.0);
    assert_eq!(first.1, second.1);
    // The derivation hashes its inputs; it must not hand any of them back.
    assert_ne!(first.0, mint);
    assert_ne!(first.0, owner);
    assert_ne!(first.0, program_id);
}

#[test]
fn check_vault_derivation_round_trip_and_wrong_salt() {
    let program_id = addr(11);
    let mint = addr(12);
    let owner = addr(13);
    let (derived, bump) = vault::pda::find_vault_address(&program_id, &mint, &owner).unwrap();
    assert!(vault::pda::check_vault_derivation(&program_id, &derived, &mint, &owner, bump));
    // A wrong salt must not reproduce the address.
    assert!(!vault::pda::check_vault_derivation(
        &program_id,
        &derived,
        &mint,
        &owner,
        bump.wrapping_add(1)
    ));
    // A wrong owner must not reproduce the address.
    assert!(!vault::pda::check_vault_derivation(&program_id, &derived, &mint, &addr(14), bump));
    // A wrong mint must not reproduce the address.
    assert!(!vault::pda::check_vault_derivation(&program_id, &derived, &addr(15), &owner, bump));
}

#[test]
fn associated_token_address_matches_sdk_derivation() {
    let ata_program = addr(21);
    let authority = addr(22);
    let token_program = addr(23);
    let mint = addr(24);
    let (derived, bump) = vault::pda::find_associated_token_address(
        &ata_program,
        &authority,
        &token_program,
        &mint,
    )
    .expect("derivation must exist");

    let ata_pk = anchor_lang::prelude::Pubkey::new_from_array([21; 32]);
    let authority_pk = anchor_lang::prelude::Pubkey::new_from_array([22; 32]);
    let token_pk = anchor_lang::prelude::Pubkey::new_from_array([23; 32]);
    let mint_pk = anchor_lang::prelude::Pubkey::new_from_array([24; 32]);
    let (expected, expected_bump) = anchor_lang::prelude::Pubkey::find_program_address(
        &[authority_pk.as_ref(), token_pk.as_ref(), mint_pk.as_ref()],
        &ata_pk,
    );
    assert_eq!(derived.bytes, expected.to_bytes());
    assert_eq!(bump, expected_bump);
}

#[test]
fn record_serialization_layout() {
    let record = Vault { bump: 7, owner: addr(3), mint: addr(2) };
    let bytes = record.to_bytes();
    assert_eq!(bytes.len(), RECORD_LEN);
    assert_eq!(bytes[0], 7);
    for i in 1..8 {
        assert_eq!(bytes[i], 0, "padding byte {} must be zero", i);
    }
    assert_eq!(&bytes[8..40], &[3u8; 32][..]);
    assert_eq!(&bytes[40..72], &[2u8; 32][..]);
}

#[test]
fn record_serialization_round_trip() {
    let record = Vault { bump: 255, owner: addr(100), mint: addr(200) };
    let bytes = record.to_bytes();
    let parsed = from_bytes(&bytes).expect("72-byte payload must parse");
    assert_eq!(parsed, record);
}

#[test]
fn record_parse_ignores_padding_bytes() {
    let record = Vault { bump: 9, owner: addr(8), mint: addr(7) };
    let mut bytes = record.to_bytes();
    for i in 1..8 {
        bytes[i] = 0xAA;
    }
    assert_eq!(from_bytes(&bytes), Some(record));
}

#[test]
fn record_parse_rejects_wrong_length() {
    let record = Vault { bump: 1, owner: addr(1), mint: addr(2) };
    let mut bytes = record.to_bytes();
    bytes.push(0);
    assert!(from_bytes(&bytes).is_none());
    let short: Vec<u8> = vec![0; 71];
    assert!(from_bytes(&short).is_none());
}

#[test]
fn signer_seeds_are_the_seed_tuple() {
    let record = Vault { bump: 42, owner: addr(33), mint: addr(44) };
    let seeds = record.signer_seeds();
    assert_eq!(seeds.len(), 4);
    assert_eq!(seeds[0], b"vault".to_vec());
    assert_eq!(seeds[1], vec![44u8; 32]);
    assert_eq!(seeds[2], vec![33u8; 32]);
    assert_eq!(seeds[3], vec![42u8]);
}
