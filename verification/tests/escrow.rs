//! Vault lifecycle and escrow accounting: creation, duplicate rejection,
//! deposits, withdrawals, and their failure modes.

use vault::addr::Address;
use vault::errors::VaultError;
use vault::ledger::{
    deposit_vault, init_vault, withdraw_vault, DepositVault, InitializeVault, Ledger,
    TokenAccount, WithdrawVault,
};

fn addr(b: u8) -> Address {
    Address::new([b; 32])
}

const PROGRAM: u8 = 1;
const LULO: u8 = 2;
const OWNER: u8 = 3;
const MINT: u8 = 4;
const OWNER_TOKENS: u8 = 5;
const ESCROW: u8 = 6;
const TOKEN_PROGRAM: u8 = 7;

fn new_ledger() -> Ledger {
    Ledger::new(addr(PROGRAM), addr(LULO))
}

fn vault_address(ledger: &Ledger) -> (Address, u8) {
    vault::pda::find_vault_address(&ledger.program_id(), &addr(MINT), &addr(OWNER)).unwrap()
}

fn init_ctx(vault_addr: Address) -> InitializeVault {
    InitializeVault {
        owner: addr(OWNER),
        owner_signed: true,
        fee_payer: addr(OWNER),
        fee_payer_signed: true,
        mint_address: addr(MINT),
        vault: vault_addr,
    }
}

fn deposit_ctx(vault_addr: Address) -> DepositVault {
    DepositVault {
        owner: addr(OWNER),
        owner_signed: true,
        fee_payer: addr(OWNER),
        fee_payer_signed: true,
        vault: vault_addr,
        mint_address: addr(MINT),
        owner_token_account: addr(OWNER_TOKENS),
        vault_token_account: addr(ESCROW),
        token_program: addr(TOKEN_PROGRAM),
    }
}

fn withdraw_ctx(vault_addr: Address) -> WithdrawVault {
    WithdrawVault {
        owner: addr(OWNER),
        owner_signed: true,
        vault: vault_addr,
        mint_address: addr(MINT),
        owner_token_account: addr(OWNER_TOKENS),
        vault_token_account: addr(ESCROW),
        token_program: addr(TOKEN_PROGRAM),
    }
}

fn fund_owner(ledger: &mut Ledger, amount: u64) {
    ledger
        .create_token_account(TokenAccount {
            address: addr(OWNER_TOKENS),
            mint: addr(MINT),
            authority: addr(OWNER),
            amount,
        })
        .unwrap();
}

#[test]
fn create_vault_then_duplicate_fails() {
    let mut ledger = new_ledger();
    let (vault_addr, bump) = vault_address(&ledger);
    assert_eq!(init_vault(&mut ledger, &init_ctx(vault_addr)), Ok(()));

    let stored = ledger.vault_record(&vault_addr).expect("record must exist");
    assert_eq!(stored.owner, addr(OWNER));
    assert_eq!(stored.mint, addr(MINT));
    assert_eq!(stored.bump, bump);

    // Second creation for the same pair: rejected, first record unchanged.
    assert_eq!(
        init_vault(&mut ledger, &init_ctx(vault_addr)),
        Err(VaultError::DuplicateInitialization)
    );
    assert_eq!(ledger.vault_record(&vault_addr), Some(stored));
}

#[test]
fn create_vault_rejects_wrong_claimed_address() {
    let mut ledger = new_ledger();
    let mut ctx = init_ctx(addr(99));
    assert_eq!(init_vault(&mut ledger, &ctx), Err(VaultError::AuthorizationMismatch));
    // And the canonical address still works afterwards.
    let (vault_addr, _) = vault_address(&ledger);
    ctx.vault = vault_addr;
    assert_eq!(init_vault(&mut ledger, &ctx), Ok(()));
}

#[test]
fn deposit_moves_funds_and_creates_escrow() {
    let mut ledger = new_ledger();
    let (vault_addr, _) = vault_address(&ledger);
    init_vault(&mut ledger, &init_ctx(vault_addr)).unwrap();
    fund_owner(&mut ledger, 1000);

    let order = deposit_vault(&mut ledger, &deposit_ctx(vault_addr), 250).unwrap();
    assert_eq!(order.from, addr(OWNER_TOKENS));
    assert_eq!(order.to, addr(ESCROW));
    assert_eq!(order.authority, addr(OWNER));
    assert_eq!(order.amount, 250);
    assert!(order.signer_seeds.is_none());

    assert_eq!(ledger.balance_of(&addr(OWNER_TOKENS)), Some(750));
    assert_eq!(ledger.balance_of(&addr(ESCROW)), Some(250));
    let escrow = ledger.token_account(&addr(ESCROW)).unwrap();
    assert_eq!(escrow.authority, vault_addr);
    assert_eq!(escrow.mint, addr(MINT));
}

#[test]
fn deposit_rejects_insufficient_owner_balance() {
    let mut ledger = new_ledger();
    let (vault_addr, _) = vault_address(&ledger);
    init_vault(&mut ledger, &init_ctx(vault_addr)).unwrap();
    fund_owner(&mut ledger, 100);
    assert_eq!(
        deposit_vault(&mut ledger, &deposit_ctx(vault_addr), 101),
        Err(VaultError::InsufficientBalance)
    );
    assert_eq!(ledger.balance_of(&addr(OWNER_TOKENS)), Some(100));
    assert_eq!(ledger.balance_of(&addr(ESCROW)), None);
}

#[test]
fn deposit_rejects_missing_owner_account_and_wrong_owner() {
    let mut ledger = new_ledger();
    let (vault_addr, _) = vault_address(&ledger);
    init_vault(&mut ledger, &init_ctx(vault_addr)).unwrap();
    // No owner token account yet.
    assert_eq!(
        deposit_vault(&mut ledger, &deposit_ctx(vault_addr), 1),
        Err(VaultError::AuthorizationMismatch)
    );
    // A claim naming a different owner than the stored record fails.
    fund_owner(&mut ledger, 10);
    let mut ctx = deposit_ctx(vault_addr);
    ctx.owner = addr(42);
    assert_eq!(deposit_vault(&mut ledger, &ctx, 1), Err(VaultError::AuthorizationMismatch));
}

#[test]
fn deposit_overflowing_escrow_is_downstream_failure() {
    let mut ledger = new_ledger();
    let (vault_addr, _) = vault_address(&ledger);
    init_vault(&mut ledger, &init_ctx(vault_addr)).unwrap();
    fund_owner(&mut ledger, 5);
    // An escrow already holding close to the maximum.
    ledger
        .create_token_account(TokenAccount {
            address: addr(ESCROW),
            mint: addr(MINT),
            authority: vault_addr,
            amount: u64::MAX - 1,
        })
        .unwrap();
    assert_eq!(
        deposit_vault(&mut ledger, &deposit_ctx(vault_addr), 2),
        Err(VaultError::DownstreamFailure)
    );
    assert_eq!(ledger.balance_of(&addr(OWNER_TOKENS)), Some(5));
    assert_eq!(ledger.balance_of(&addr(ESCROW)), Some(u64::MAX - 1));
}

#[test]
fn withdraw_scenario_insufficient_then_success() {
    let mut ledger = new_ledger();
    let (vault_addr, bump) = vault_address(&ledger);
    init_vault(&mut ledger, &init_ctx(vault_addr)).unwrap();
    fund_owner(&mut ledger, 1000);
    deposit_vault(&mut ledger, &deposit_ctx(vault_addr), 1000).unwrap();
    assert_eq!(ledger.balance_of(&addr(ESCROW)), Some(1000));
    assert_eq!(ledger.balance_of(&addr(OWNER_TOKENS)), Some(0));

    // More than the escrow holds: rejected, balance unchanged.
    assert_eq!(
        withdraw_vault(&mut ledger, &withdraw_ctx(vault_addr), 1500),
        Err(VaultError::InsufficientBalance)
    );
    assert_eq!(ledger.balance_of(&addr(ESCROW)), Some(1000));

    // A covered amount: succeeds, signed by the vault's derived authority.
    let order = withdraw_vault(&mut ledger, &withdraw_ctx(vault_addr), 400).unwrap();
    assert_eq!(ledger.balance_of(&addr(ESCROW)), Some(600));
    assert_eq!(ledger.balance_of(&addr(OWNER_TOKENS)), Some(400));
    assert_eq!(order.from, addr(ESCROW));
    assert_eq!(order.to, addr(OWNER_TOKENS));
    assert_eq!(order.authority, vault_addr);
    let seeds = order.signer_seeds.expect("the vault signs the withdrawal");
    assert_eq!(seeds.len(), 4);
    assert_eq!(seeds[0], b"vault".to_vec());
    assert_eq!(seeds[1], vec![MINT; 32]);
    assert_eq!(seeds[2], vec![OWNER; 32]);
    assert_eq!(seeds[3], vec![bump]);
}

#[test]
fn withdraw_rejects_foreign_mint() {
    let mut ledger = new_ledger();
    let (vault_addr, _) = vault_address(&ledger);
    init_vault(&mut ledger, &init_ctx(vault_addr)).unwrap();
    fund_owner(&mut ledger, 10);
    deposit_vault(&mut ledger, &deposit_ctx(vault_addr), 10).unwrap();
    let mut ctx = withdraw_ctx(vault_addr);
    ctx.mint_address = addr(77);
    assert_eq!(withdraw_vault(&mut ledger, &ctx, 1), Err(VaultError::AuthorizationMismatch));
    assert_eq!(ledger.balance_of(&addr(ESCROW)), Some(10));
}

#[test]
fn separate_fee_payer_configuration() {
    // The fee payer may be a principal other than the owner; the record and
    // the escrow flow are unaffected by who pays.
    let mut ledger = new_ledger();
    let (vault_addr, _) = vault_address(&ledger);
    let mut ctx = init_ctx(vault_addr);
    ctx.fee_payer = addr(200);
    assert_eq!(init_vault(&mut ledger, &ctx), Ok(()));
    fund_owner(&mut ledger, 50);
    let mut dctx = deposit_ctx(vault_addr);
    dctx.fee_payer = addr(200);
    assert!(deposit_vault(&mut ledger, &dctx, 50).is_ok());
    assert_eq!(ledger.balance_of(&addr(ESCROW)), Some(50));
    let stored = ledger.vault_record(&vault_addr).unwrap();
    assert_eq!(stored.owner, addr(OWNER));
}

#[test]
fn token_account_creation_rejects_taken_address() {
    let mut ledger = new_ledger();
    fund_owner(&mut ledger, 1);
    assert_eq!(
        ledger.create_token_account(TokenAccount {
            address: addr(OWNER_TOKENS),
            mint: addr(MINT),
            authority: addr(OWNER),
            amount: 9,
        }),
        Err(VaultError::DuplicateInitialization)
    );
    assert_eq!(ledger.balance_of(&addr(OWNER_TOKENS)), Some(1));
}
