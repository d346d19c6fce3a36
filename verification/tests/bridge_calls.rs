//! Cross-program call assembly: routed deposits and withdrawals, the
//! one-time sub-account bootstrap, and the auxiliary-list partition.

use vault::addr::Address;
use vault::bridge::{
    lulo_deposit, lulo_deposit_drift, lulo_withdraw, lulo_withdraw_drift,
    partition_remaining_accounts, LuloArgs, LuloDeposit, LuloWithdraw, RemainingAccount,
};
use vault::errors::VaultError;
use vault::ledger::{init_vault, InitializeVault, Ledger, TokenAccount};

fn addr(b: u8) -> Address {
    Address::new([b; 32])
}

const PROGRAM: u8 = 1;
const LULO: u8 = 2;
const OWNER: u8 = 3;
const MINT: u8 = 4;
const ESCROW: u8 = 6;
const TOKEN_PROGRAM: u8 = 7;
const SYSTEM_PROGRAM: u8 = 8;
const ATA_PROGRAM: u8 = 9;
const RENT: u8 = 10;
const USER_ACCOUNT: u8 = 11;
const USER_TOKENS: u8 = 12;
const PROMOTION: u8 = 13;

/// A ledger with one vault whose escrow holds `escrow_amount`.
fn ledger_with_vault(escrow_amount: u64) -> (Ledger, Address, u8) {
    let mut ledger = Ledger::new(addr(PROGRAM), addr(LULO));
    let (vault_addr, bump) =
        vault::pda::find_vault_address(&ledger.program_id(), &addr(MINT), &addr(OWNER)).unwrap();
    init_vault(
        &mut ledger,
        &InitializeVault {
            owner: addr(OWNER),
            owner_signed: true,
            fee_payer: addr(OWNER),
            fee_payer_signed: true,
            mint_address: addr(MINT),
            vault: vault_addr,
        },
    )
    .unwrap();
    ledger
        .create_token_account(TokenAccount {
            address: addr(ESCROW),
            mint: addr(MINT),
            authority: vault_addr,
            amount: escrow_amount,
        })
        .unwrap();
    (ledger, vault_addr, bump)
}

fn lulo_deposit_ctx(vault_addr: Address) -> LuloDeposit {
    LuloDeposit {
        owner: addr(OWNER),
        owner_signed: true,
        vault: vault_addr,
        vault_token_account: addr(ESCROW),
        mint_address: addr(MINT),
        lulo_user_account: addr(USER_ACCOUNT),
        lulo_user_token_account: addr(USER_TOKENS),
        lulo_promotion_reserve: addr(PROMOTION),
        lulo_program: addr(LULO),
        token_program: addr(TOKEN_PROGRAM),
        system_program: addr(SYSTEM_PROGRAM),
        associated_token_program: addr(ATA_PROGRAM),
        rent: addr(RENT),
    }
}

fn lulo_withdraw_ctx(vault_addr: Address) -> LuloWithdraw {
    LuloWithdraw {
        owner: addr(OWNER),
        owner_signed: true,
        vault: vault_addr,
        vault_token_account: addr(ESCROW),
        mint_address: addr(MINT),
        lulo_user_account: addr(USER_ACCOUNT),
        lulo_user_token_account: addr(USER_TOKENS),
        lulo_promotion_reserve: addr(PROMOTION),
        lulo_program: addr(LULO),
        token_program: addr(TOKEN_PROGRAM),
        system_program: addr(SYSTEM_PROGRAM),
        associated_token_program: addr(ATA_PROGRAM),
    }
}

fn remaining(n: u8) -> Vec<RemainingAccount> {
    (0..n).map(|i| RemainingAccount { address: addr(100 + i), data_len: 16 }).collect()
}

fn expected_seeds(bump: u8) -> Vec<Vec<u8>> {
    vec![b"vault".to_vec(), vec![MINT; 32], vec![OWNER; 32], vec![bump]]
}

#[test]
fn routed_deposit_substitutes_vault_as_owner() {
    let (ledger, vault_addr, bump) = ledger_with_vault(500);
    let call = lulo_deposit(&ledger, &lulo_deposit_ctx(vault_addr), 200, None, None, None).unwrap();
    assert_eq!(call.program, addr(LULO));
    assert_eq!(
        call.accounts,
        vec![
            vault_addr,
            addr(OWNER),
            addr(ESCROW),
            addr(USER_ACCOUNT),
            addr(USER_TOKENS),
            addr(MINT),
            addr(PROMOTION),
            addr(LULO),
            addr(TOKEN_PROGRAM),
            addr(SYSTEM_PROGRAM),
            addr(ATA_PROGRAM),
        ]
    );
    assert!(call.extra_accounts.is_empty());
    assert_eq!(call.signer_seeds, expected_seeds(bump));
    assert_eq!(
        call.args,
        LuloArgs::InitiateDeposit {
            amount: 200,
            allowed_protocols: None,
            end_date: None,
            return_type: None,
        }
    );
}

#[test]
fn routed_deposit_forwards_optional_parameters() {
    let (ledger, vault_addr, _) = ledger_with_vault(500);
    let call =
        lulo_deposit(&ledger, &lulo_deposit_ctx(vault_addr), 10, Some(3), Some(1700000000), Some(1))
            .unwrap();
    assert_eq!(
        call.args,
        LuloArgs::InitiateDeposit {
            amount: 10,
            allowed_protocols: Some(3),
            end_date: Some(1700000000),
            return_type: Some(1),
        }
    );
}

#[test]
fn routed_deposit_failure_modes() {
    let (ledger, vault_addr, _) = ledger_with_vault(100);
    // More than the escrow holds.
    assert_eq!(
        lulo_deposit(&ledger, &lulo_deposit_ctx(vault_addr), 101, None, None, None).unwrap_err(),
        VaultError::InsufficientBalance
    );
    // A protocol program other than the deployed one.
    let mut ctx = lulo_deposit_ctx(vault_addr);
    ctx.lulo_program = addr(250);
    assert_eq!(
        lulo_deposit(&ledger, &ctx, 1, None, None, None).unwrap_err(),
        VaultError::AuthorizationMismatch
    );
    // A vault address nothing is stored under.
    let mut ctx = lulo_deposit_ctx(vault_addr);
    ctx.vault = addr(251);
    assert_eq!(
        lulo_deposit(&ledger, &ctx, 1, None, None, None).unwrap_err(),
        VaultError::AuthorizationMismatch
    );
}

#[test]
fn routed_withdraw_forwards_withdraw_all() {
    let (ledger, vault_addr, bump) = ledger_with_vault(0);
    let call = lulo_withdraw(&ledger, &lulo_withdraw_ctx(vault_addr), 75, true, None).unwrap();
    assert_eq!(call.program, addr(LULO));
    assert_eq!(call.accounts.len(), 11);
    assert_eq!(call.accounts[0], vault_addr);
    assert_eq!(call.accounts[1], addr(OWNER));
    assert_eq!(call.signer_seeds, expected_seeds(bump));
    assert_eq!(
        call.args,
        LuloArgs::InitiateWithdraw { amount: 75, withdraw_all: true, return_type: None }
    );
}

#[test]
fn drift_deposit_bootstraps_empty_sub_account_once() {
    let (ledger, vault_addr, bump) = ledger_with_vault(300);
    let ctx = lulo_deposit_ctx(vault_addr);

    // Empty sub-account: the plan opens with exactly one initialization call.
    let mut accounts = remaining(7);
    accounts[0].data_len = 0;
    let plan = lulo_deposit_drift(&ledger, &ctx, &accounts, 50).unwrap();
    let init = plan.init_call.expect("empty sub-account needs bootstrap");
    assert_eq!(init.program, addr(LULO));
    assert_eq!(
        init.accounts,
        vec![
            vault_addr,
            vault_addr,
            addr(100),
            addr(101),
            addr(102),
            addr(USER_ACCOUNT),
            addr(PROMOTION),
            addr(OWNER),
            addr(106),
            addr(RENT),
            addr(SYSTEM_PROGRAM),
        ]
    );
    assert_eq!(init.args, LuloArgs::InitDriftUserAccount);
    assert_eq!(init.signer_seeds, expected_seeds(bump));

    // Initialized sub-account: two invocations, one position update each,
    // zero initialization calls.
    let accounts = remaining(7);
    for _ in 0..2 {
        let plan = lulo_deposit_drift(&ledger, &ctx, &accounts, 50).unwrap();
        assert!(plan.init_call.is_none());
        assert_eq!(
            plan.main_call.args,
            LuloArgs::DepositDrift {
                market_index: 1,
                amount: 50,
                reduce_only: false,
                return_flag: false,
            }
        );
        assert_eq!(
            plan.main_call.accounts,
            vec![
                vault_addr,
                vault_addr,
                addr(100),
                addr(101),
                addr(102),
                addr(103),
                addr(USER_ACCOUNT),
                addr(USER_TOKENS),
                addr(MINT),
                addr(104),
                addr(105),
                addr(OWNER),
                addr(106),
                addr(TOKEN_PROGRAM),
                addr(SYSTEM_PROGRAM),
            ]
        );
    }
}

#[test]
fn drift_deposit_rejects_short_auxiliary_list() {
    let (ledger, vault_addr, _) = ledger_with_vault(300);
    let accounts = remaining(6);
    assert_eq!(
        lulo_deposit_drift(&ledger, &lulo_deposit_ctx(vault_addr), &accounts, 1).unwrap_err(),
        VaultError::MissingAuxiliaryAccount
    );
}

#[test]
fn drift_withdraw_partitions_ten_entry_list() {
    let (ledger, vault_addr, bump) = ledger_with_vault(0);
    let accounts = remaining(10);
    let call = lulo_withdraw_drift(&ledger, &lulo_withdraw_ctx(vault_addr), &accounts, 20).unwrap();
    assert_eq!(call.program, addr(LULO));
    assert_eq!(
        call.accounts,
        vec![
            vault_addr,
            vault_addr,
            addr(100),
            addr(101),
            addr(102),
            addr(103),
            addr(104),
            addr(USER_ACCOUNT),
            addr(USER_TOKENS),
            addr(MINT),
            addr(OWNER),
            addr(105),
            addr(TOKEN_PROGRAM),
            addr(ATA_PROGRAM),
            addr(SYSTEM_PROGRAM),
        ]
    );
    // Oracle slice (entries 6 and 7), then market descriptors (8 and 9),
    // relative order preserved.
    assert_eq!(call.extra_accounts, vec![addr(106), addr(107), addr(108), addr(109)]);
    assert_eq!(call.signer_seeds, expected_seeds(bump));
    assert_eq!(
        call.args,
        LuloArgs::WithdrawDrift { market_index: 1, amount: 20, withdraw_all: true, return_flag: false }
    );
}

#[test]
fn drift_withdraw_rejects_short_auxiliary_list() {
    let (ledger, vault_addr, _) = ledger_with_vault(0);
    let accounts = remaining(9);
    assert_eq!(
        lulo_withdraw_drift(&ledger, &lulo_withdraw_ctx(vault_addr), &accounts, 1).unwrap_err(),
        VaultError::MissingAuxiliaryAccount
    );
}

#[test]
fn partition_sizes_follow_market_count() {
    // One market (index 0): one oracle, one descriptor.
    let accounts = remaining(8);
    let (oracles, markets) = partition_remaining_accounts(&accounts, 0).unwrap();
    assert_eq!(oracles, vec![addr(106)]);
    assert_eq!(markets, vec![addr(107)]);

    // Two markets (index 1) in a longer list: slices start at the fixed
    // offsets and ignore the tail.
    let accounts = remaining(12);
    let (oracles, markets) = partition_remaining_accounts(&accounts, 1).unwrap();
    assert_eq!(oracles, vec![addr(106), addr(107)]);
    assert_eq!(markets, vec![addr(108), addr(109)]);

    // A list one entry short of the requirement is rejected whole.
    let accounts = remaining(7);
    assert_eq!(
        partition_remaining_accounts(&accounts, 0).unwrap_err(),
        VaultError::MissingAuxiliaryAccount
    );
}
