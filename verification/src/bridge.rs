//! Construction of authenticated cross-program calls into the yield-routing
//! protocol, with the vault's derived authority substituted as owner and
//! signer, the caller as fee payer, and — for the multi-market path — the
//! caller-supplied auxiliary account list partitioned into its fixed-role
//! slices.

use vstd::prelude::*;

use crate::addr::{addr_eq, Address};
use crate::errors::VaultError;
use crate::ledger::{
    authenticate_vault, find_account, spec_vault_auth, Ledger, LedgerState,
};
use crate::record::Vault;

verus! {

/// The market index the multi-market calls currently address. The downstream
/// protocol is expected to take this over eventually; until then it is fixed
/// here and the auxiliary-list offsets follow from it.
pub const DRIFT_MARKET_INDEX: u16 = 1;

/// Auxiliary accounts preceding the per-market slices in a multi-market
/// withdrawal's caller-supplied list.
pub const DRIFT_WITHDRAW_FIXED_ACCOUNTS: usize = 6;

/// Auxiliary accounts a multi-market deposit needs.
pub const DRIFT_DEPOSIT_FIXED_ACCOUNTS: usize = 7;

/// One entry of the caller-supplied auxiliary account list: its address and
/// how many bytes of storage the resource currently holds. A length of zero
/// means the resource was never initialized.
#[derive(Clone, Copy, Debug, PartialEq, Eq)]
pub struct RemainingAccount {
    pub address: Address,
    pub data_len: u64,
}

/// The arguments of a yield-routing protocol entry point. Optional values
/// are forwarded unmodified; absent means the downstream default.
#[derive(Clone, Copy, Debug, PartialEq, Eq, Structural)]
pub enum LuloArgs {
    InitiateDeposit {
        amount: u64,
        allowed_protocols: Option<u64>,
        end_date: Option<u64>,
        return_type: Option<u8>,
    },
    InitiateWithdraw { amount: u64, withdraw_all: bool, return_type: Option<u8> },
    InitDriftUserAccount,
    DepositDrift { market_index: u16, amount: u64, reduce_only: bool, return_flag: bool },
    WithdrawDrift { market_index: u16, amount: u64, withdraw_all: bool, return_flag: bool },
}

/// An assembled cross-program call, ready for dispatch by the host: the
/// program to invoke, its fixed-role accounts in entry-point order, any
/// variable accounts appended after them, the vault's signer proof, and the
/// entry point's arguments.
#[derive(Clone, Debug)]
pub struct CpiCall {
    pub program: Address,
    pub accounts: Vec<Address>,
    pub extra_accounts: Vec<Address>,
    pub signer_seeds: Vec<Vec<u8>>,
    pub args: LuloArgs,
}

/// A multi-market deposit's dispatch plan: an initialization call exactly
/// when the downstream sub-account is empty, strictly ordered before the
/// position-update call.
#[derive(Clone, Debug)]
pub struct DriftPlan {
    pub init_call: Option<CpiCall>,
    pub main_call: CpiCall,
}

/// Accounts named by a routed deposit into the yield protocol.
#[derive(Clone, Copy, Debug)]
pub struct LuloDeposit {
    pub owner: Address,
    pub owner_signed: bool,
    pub vault: Address,
    pub vault_token_account: Address,
    pub mint_address: Address,
    pub lulo_user_account: Address,
    pub lulo_user_token_account: Address,
    pub lulo_promotion_reserve: Address,
    pub lulo_program: Address,
    pub token_program: Address,
    pub system_program: Address,
    pub associated_token_program: Address,
    pub rent: Address,
}

/// Accounts named by a routed withdrawal from the yield protocol.
#[derive(Clone, Copy, Debug)]
pub struct LuloWithdraw {
    pub owner: Address,
    pub owner_signed: bool,
    pub vault: Address,
    pub vault_token_account: Address,
    pub mint_address: Address,
    pub lulo_user_account: Address,
    pub lulo_user_token_account: Address,
    pub lulo_promotion_reserve: Address,
    pub lulo_program: Address,
    pub token_program: Address,
    pub system_program: Address,
    pub associated_token_program: Address,
}

/// Validation of a routed deposit: the vault authenticates, the escrow
/// holding account belongs to the vault and covers `amount`, and the named
/// protocol program is the deployed one. Yields the authenticated record.
pub open spec fn spec_lulo_deposit_check(m: LedgerState, ctx: LuloDeposit, amount: u64) -> Result<
    Vault,
    VaultError,
> {
    match spec_vault_auth(m, ctx.vault, ctx.owner, ctx.mint_address) {
        None => Err(VaultError::AuthorizationMismatch),
        Some(v) => {
            match find_account(m.accounts, ctx.vault_token_account@) {
                None => Err(VaultError::AuthorizationMismatch),
                Some(t) => {
                    if t.mint@ != ctx.mint_address@ || t.authority@ != ctx.vault@ {
                        Err(VaultError::AuthorizationMismatch)
                    } else if t.amount < amount {
                        Err(VaultError::InsufficientBalance)
                    } else if ctx.lulo_program@ != m.lulo_program_id@ {
                        Err(VaultError::AuthorizationMismatch)
                    } else {
                        Ok(v)
                    }
                },
            }
        },
    }
}

/// Validation of a routed withdrawal: as for a deposit but with no balance
/// requirement — the downstream protocol decides what can leave.
pub open spec fn spec_lulo_withdraw_check(m: LedgerState, ctx: LuloWithdraw) -> Result<
    Vault,
    VaultError,
> {
    match spec_vault_auth(m, ctx.vault, ctx.owner, ctx.mint_address) {
        None => Err(VaultError::AuthorizationMismatch),
        Some(v) => {
            match find_account(m.accounts, ctx.vault_token_account@) {
                None => Err(VaultError::AuthorizationMismatch),
                Some(t) => {
                    if t.mint@ != ctx.mint_address@ || t.authority@ != ctx.vault@ {
                        Err(VaultError::AuthorizationMismatch)
                    } else if ctx.lulo_program@ != m.lulo_program_id@ {
                        Err(VaultError::AuthorizationMismatch)
                    } else {
                        Ok(v)
                    }
                },
            }
        },
    }
}

/// The fixed account order of the protocol's deposit and withdraw entry
/// points: the vault stands in the owner seat, the caller only pays fees.
pub open spec fn spec_initiate_accounts(ctx: LuloDeposit) -> Seq<Address> {
    seq![
        ctx.vault,
        ctx.owner,
        ctx.vault_token_account,
        ctx.lulo_user_account,
        ctx.lulo_user_token_account,
        ctx.mint_address,
        ctx.lulo_promotion_reserve,
        ctx.lulo_program,
        ctx.token_program,
        ctx.system_program,
        ctx.associated_token_program,
    ]
}

/// As `spec_initiate_accounts`, for a withdrawal's context.
pub open spec fn spec_initiate_withdraw_accounts(ctx: LuloWithdraw) -> Seq<Address> {
    seq![
        ctx.vault,
        ctx.owner,
        ctx.vault_token_account,
        ctx.lulo_user_account,
        ctx.lulo_user_token_account,
        ctx.mint_address,
        ctx.lulo_promotion_reserve,
        ctx.lulo_program,
        ctx.token_program,
        ctx.system_program,
        ctx.associated_token_program,
    ]
}

/// Route a deposit to the yield protocol: the call is issued with the vault
/// as owner and signer and the caller as fee payer. The optional parameters
/// are forwarded unmodified.
pub fn lulo_deposit(
    ledger: &Ledger,
    ctx: &LuloDeposit,
    amount: u64,
    allowed_protocols: Option<u64>,
    end_date: Option<u64>,
    return_type: Option<u8>,
) -> (r: Result<CpiCall, VaultError>)
    requires
        ctx.owner_signed,
    ensures
        match r {
            Ok(call) => {
                &&& spec_lulo_deposit_check(ledger@, *ctx, amount) matches Ok(v) && call.signer_seeds.deep_view() == v.seeds_with_bump()
                &&& call.program == ctx.lulo_program
                &&& call.accounts@ == spec_initiate_accounts(*ctx)
                &&& call.extra_accounts@ == Seq::<Address>::empty()
                &&& call.args == (LuloArgs::InitiateDeposit {
                    amount,
                    allowed_protocols,
                    end_date,
                    return_type,
                })
            },
            Err(e) => spec_lulo_deposit_check(ledger@, *ctx, amount) == Err::<Vault, VaultError>(
                e,
            ),
        },
{
    let vault = match check_lulo_deposit(ledger, ctx, amount) {
        Err(e) => { return Err(e) },
        Ok(v) => v,
    };
    let accounts = initiate_account_list(ctx);
    Ok(
        CpiCall {
            program: ctx.lulo_program,
            accounts,
            extra_accounts: Vec::new(),
            signer_seeds: vault.signer_seeds(),
            args: LuloArgs::InitiateDeposit { amount, allowed_protocols, end_date, return_type },
        },
    )
}

/// Route a withdrawal from the yield protocol, symmetric to `lulo_deposit`;
/// `withdraw_all` tells the downstream protocol to ignore `amount` and close
/// the full position.
pub fn lulo_withdraw(
    ledger: &Ledger,
    ctx: &LuloWithdraw,
    amount: u64,
    withdraw_all: bool,
    return_type: Option<u8>,
) -> (r: Result<CpiCall, VaultError>)
    requires
        ctx.owner_signed,
    ensures
        match r {
            Ok(call) => {
                &&& spec_lulo_withdraw_check(ledger@, *ctx) matches Ok(v) && call.signer_seeds.deep_view() == v.seeds_with_bump()
                &&& call.program == ctx.lulo_program
                &&& call.accounts@ == spec_initiate_withdraw_accounts(*ctx)
                &&& call.extra_accounts@ == Seq::<Address>::empty()
                &&& call.args == (LuloArgs::InitiateWithdraw { amount, withdraw_all, return_type })
            },
            Err(e) => spec_lulo_withdraw_check(ledger@, *ctx) == Err::<Vault, VaultError>(e),
        },
{
    let vault = match check_lulo_withdraw(ledger, ctx) {
        Err(e) => { return Err(e) },
        Ok(v) => v,
    };
    let mut accounts: Vec<Address> = Vec::new();
    accounts.push(ctx.vault);
    accounts.push(ctx.owner);
    accounts.push(ctx.vault_token_account);
    accounts.push(ctx.lulo_user_account);
    accounts.push(ctx.lulo_user_token_account);
    accounts.push(ctx.mint_address);
    accounts.push(ctx.lulo_promotion_reserve);
    accounts.push(ctx.lulo_program);
    accounts.push(ctx.token_program);
    accounts.push(ctx.system_program);
    accounts.push(ctx.associated_token_program);
    proof {
        assert(accounts@ =~= spec_initiate_withdraw_accounts(*ctx));
    }
    Ok(
        CpiCall {
            program: ctx.lulo_program,
            accounts,
            extra_accounts: Vec::new(),
            signer_seeds: vault.signer_seeds(),
            args: LuloArgs::InitiateWithdraw { amount, withdraw_all, return_type },
        },
    )
}

/// The executable counterpart of `spec_lulo_deposit_check`.
fn check_lulo_deposit(ledger: &Ledger, ctx: &LuloDeposit, amount: u64) -> (r: Result<
    Vault,
    VaultError,
>)
    ensures
        r == spec_lulo_deposit_check(ledger@, *ctx, amount),
{
    let vault = match authenticate_vault(ledger, &ctx.vault, &ctx.owner, &ctx.mint_address) {
        None => { return Err(VaultError::AuthorizationMismatch) },
        Some(v) => v,
    };
    let holding = match ledger.token_account(&ctx.vault_token_account) {
        None => { return Err(VaultError::AuthorizationMismatch) },
        Some(t) => t,
    };
    if !(addr_eq(&holding.mint, &ctx.mint_address) && addr_eq(&holding.authority, &ctx.vault)) {
        return Err(VaultError::AuthorizationMismatch);
    }
    if holding.amount < amount {
        return Err(VaultError::InsufficientBalance);
    }
    if !addr_eq(&ctx.lulo_program, &ledger.lulo_program_id()) {
        return Err(VaultError::AuthorizationMismatch);
    }
    Ok(vault)
}

/// The executable counterpart of `spec_lulo_withdraw_check`.
fn check_lulo_withdraw(ledger: &Ledger, ctx: &LuloWithdraw) -> (r: Result<Vault, VaultError>)
    ensures
        r == spec_lulo_withdraw_check(ledger@, *ctx),
{
    let vault = match authenticate_vault(ledger, &ctx.vault, &ctx.owner, &ctx.mint_address) {
        None => { return Err(VaultError::AuthorizationMismatch) },
        Some(v) => v,
    };
    let holding = match ledger.token_account(&ctx.vault_token_account) {
        None => { return Err(VaultError::AuthorizationMismatch) },
        Some(t) => t,
    };
    if !(addr_eq(&holding.mint, &ctx.mint_address) && addr_eq(&holding.authority, &ctx.vault)) {
        return Err(VaultError::AuthorizationMismatch);
    }
    if !addr_eq(&ctx.lulo_program, &ledger.lulo_program_id()) {
        return Err(VaultError::AuthorizationMismatch);
    }
    Ok(vault)
}

/// Build the fixed account list of the protocol's deposit entry point.
fn initiate_account_list(ctx: &LuloDeposit) -> (accounts: Vec<Address>)
    ensures
        accounts@ == spec_initiate_accounts(*ctx),
{
    let mut accounts: Vec<Address> = Vec::new();
    accounts.push(ctx.vault);
    accounts.push(ctx.owner);
    accounts.push(ctx.vault_token_account);
    accounts.push(ctx.lulo_user_account);
    accounts.push(ctx.lulo_user_token_account);
    accounts.push(ctx.mint_address);
    accounts.push(ctx.lulo_promotion_reserve);
    accounts.push(ctx.lulo_program);
    accounts.push(ctx.token_program);
    accounts.push(ctx.system_program);
    accounts.push(ctx.associated_token_program);
    proof {
        assert(accounts@ =~= spec_initiate_accounts(*ctx));
    }
    accounts
}

/// How many auxiliary accounts a multi-market withdrawal needs: the fixed
/// prefix, then `market_index + 1` oracle references, then `market_index +
/// 1` market descriptors.
pub open spec fn spec_required_remaining(market_index: u16) -> int {
    DRIFT_WITHDRAW_FIXED_ACCOUNTS + 2 * (market_index + 1)
}

/// The oracle slice of the auxiliary list: the `market_index + 1` entries
/// right after the fixed prefix.
pub open spec fn spec_oracle_slice(rem: Seq<RemainingAccount>, market_index: u16) -> Seq<
    Address,
> {
    rem.subrange(
        DRIFT_WITHDRAW_FIXED_ACCOUNTS as int,
        DRIFT_WITHDRAW_FIXED_ACCOUNTS + market_index + 1,
    ).map_values(|x: RemainingAccount| x.address)
}

/// The market-descriptor slice: the `market_index + 1` entries right after
/// the oracle slice.
pub open spec fn spec_market_slice(rem: Seq<RemainingAccount>, market_index: u16) -> Seq<
    Address,
> {
    rem.subrange(
        DRIFT_WITHDRAW_FIXED_ACCOUNTS + market_index + 1,
        DRIFT_WITHDRAW_FIXED_ACCOUNTS + 2 * (market_index + 1),
    ).map_values(|x: RemainingAccount| x.address)
}

/// Partition the caller-supplied auxiliary list into its oracle and
/// market-descriptor slices for `market_index + 1` markets. A list shorter
/// than the fixed prefix plus both slices is rejected as a whole — never
/// silently truncated.
pub fn partition_remaining_accounts(remaining: &Vec<RemainingAccount>, market_index: u16) -> (r:
    Result<(Vec<Address>, Vec<Address>), VaultError>)
    ensures
        match r {
            Ok((oracles, markets)) => {
                &&& remaining@.len() >= spec_required_remaining(market_index)
                &&& oracles@ == spec_oracle_slice(remaining@, market_index)
                &&& markets@ == spec_market_slice(remaining@, market_index)
            },
            Err(e) => e == VaultError::MissingAuxiliaryAccount && remaining@.len()
                < spec_required_remaining(market_index),
        },
{
    let group: usize = market_index as usize + 1;
    let needed: usize = DRIFT_WITHDRAW_FIXED_ACCOUNTS + 2 * group;
    if remaining.len() < needed {
        return Err(VaultError::MissingAuxiliaryAccount);
    }
    let mut oracles: Vec<Address> = Vec::new();
    let mut i: usize = 0;
    while i < group
        invariant
            i <= group,
            group == market_index + 1,
            remaining@.len() >= DRIFT_WITHDRAW_FIXED_ACCOUNTS + 2 * group,
            oracles@.len() == i,
            forall|j: int|
                0 <= j < i ==> oracles@[j] == remaining@[DRIFT_WITHDRAW_FIXED_ACCOUNTS + j].address,
        decreases group - i,
    {
        oracles.push(remaining[DRIFT_WITHDRAW_FIXED_ACCOUNTS + i].address);
        i += 1;
    }
    let mut markets: Vec<Address> = Vec::new();
    let mut k: usize = 0;
    while k < group
        invariant
            k <= group,
            group == market_index + 1,
            remaining@.len() >= DRIFT_WITHDRAW_FIXED_ACCOUNTS + 2 * group,
            markets@.len() == k,
            forall|j: int|
                0 <= j < k ==> markets@[j] == remaining@[DRIFT_WITHDRAW_FIXED_ACCOUNTS + group
                    + j].address,
        decreases group - k,
    {
        markets.push(remaining[DRIFT_WITHDRAW_FIXED_ACCOUNTS + group + k].address);
        k += 1;
    }
    proof {
        assert(oracles@ =~= spec_oracle_slice(remaining@, market_index));
        assert(markets@ =~= spec_market_slice(remaining@, market_index));
    }
    Ok((oracles, markets))
}

/// The outcome a multi-market deposit is determined by: its validation
/// verdict, the auxiliary-list length requirement, and — on success —
/// whether the downstream sub-account still needs its one-time
/// initialization.
pub open spec fn spec_lulo_deposit_drift_outcome(
    m: LedgerState,
    ctx: LuloDeposit,
    rem: Seq<RemainingAccount>,
    amount: u64,
) -> Result<bool, VaultError> {
    match spec_lulo_deposit_check(m, ctx, amount) {
        Err(e) => Err(e),
        Ok(_) => {
            if rem.len() < DRIFT_DEPOSIT_FIXED_ACCOUNTS {
                Err(VaultError::MissingAuxiliaryAccount)
            } else {
                Ok(rem[0].data_len == 0)
            }
        },
    }
}

/// The fixed account order of the sub-account initialization entry point.
pub open spec fn spec_init_drift_user_accounts(ctx: LuloDeposit, rem: Seq<RemainingAccount>) -> Seq<
    Address,
> {
    seq![
        ctx.vault,
        ctx.vault,
        rem[0].address,
        rem[1].address,
        rem[2].address,
        ctx.lulo_user_account,
        ctx.lulo_promotion_reserve,
        ctx.owner,
        rem[6].address,
        ctx.rent,
        ctx.system_program,
    ]
}

/// The fixed account order of the multi-market deposit entry point.
pub open spec fn spec_deposit_drift_accounts(ctx: LuloDeposit, rem: Seq<RemainingAccount>) -> Seq<
    Address,
> {
    seq![
        ctx.vault,
        ctx.vault,
        rem[0].address,
        rem[1].address,
        rem[2].address,
        rem[3].address,
        ctx.lulo_user_account,
        ctx.lulo_user_token_account,
        ctx.mint_address,
        rem[4].address,
        rem[5].address,
        ctx.owner,
        rem[6].address,
        ctx.token_program,
        ctx.system_program,
    ]
}

/// Plan a multi-market deposit. The plan carries an initialization call
/// exactly when the downstream sub-account (the first auxiliary entry) is
/// empty, strictly ordered before the position-update call; once the
/// sub-account exists, repeated invocations plan the position update alone.
pub fn lulo_deposit_drift(
    ledger: &Ledger,
    ctx: &LuloDeposit,
    remaining: &Vec<RemainingAccount>,
    amount: u64,
) -> (r: Result<DriftPlan, VaultError>)
    requires
        ctx.owner_signed,
    ensures
        match r {
            Ok(plan) => {
                &&& spec_lulo_deposit_check(ledger@, *ctx, amount) matches Ok(v) && ({
                    &&& plan.main_call.signer_seeds.deep_view() == v.seeds_with_bump()
                    &&& match plan.init_call {
                        Some(ic) => {
                            &&& remaining@[0].data_len == 0
                            &&& ic.program == ctx.lulo_program
                            &&& ic.accounts@ == spec_init_drift_user_accounts(*ctx, remaining@)
                            &&& ic.extra_accounts@ == Seq::<Address>::empty()
                            &&& ic.signer_seeds.deep_view() == v.seeds_with_bump()
                            &&& ic.args == LuloArgs::InitDriftUserAccount
                        },
                        None => remaining@[0].data_len != 0,
                    }
                })
                &&& spec_lulo_deposit_drift_outcome(ledger@, *ctx, remaining@, amount) == Ok::<
                    bool,
                    VaultError,
                >(remaining@[0].data_len == 0)
                &&& plan.main_call.program == ctx.lulo_program
                &&& plan.main_call.accounts@ == spec_deposit_drift_accounts(*ctx, remaining@)
                &&& plan.main_call.extra_accounts@ == Seq::<Address>::empty()
                &&& plan.main_call.args == (LuloArgs::DepositDrift {
                    market_index: DRIFT_MARKET_INDEX,
                    amount,
                    reduce_only: false,
                    return_flag: false,
                })
            },
            Err(e) => spec_lulo_deposit_drift_outcome(ledger@, *ctx, remaining@, amount) == Err::<
                bool,
                VaultError,
            >(e),
        },
{
    let vault = match check_lulo_deposit(ledger, ctx, amount) {
        Err(e) => { return Err(e) },
        Ok(v) => v,
    };
    if remaining.len() < DRIFT_DEPOSIT_FIXED_ACCOUNTS {
        return Err(VaultError::MissingAuxiliaryAccount);
    }
    let init_call = if remaining[0].data_len == 0 {
        let mut accounts: Vec<Address> = Vec::new();
        accounts.push(ctx.vault);
        accounts.push(ctx.vault);
        accounts.push(remaining[0].address);
        accounts.push(remaining[1].address);
        accounts.push(remaining[2].address);
        accounts.push(ctx.lulo_user_account);
        accounts.push(ctx.lulo_promotion_reserve);
        accounts.push(ctx.owner);
        accounts.push(remaining[6].address);
        accounts.push(ctx.rent);
        accounts.push(ctx.system_program);
        proof {
            assert(accounts@ =~= spec_init_drift_user_accounts(*ctx, remaining@));
        }
        Some(
            CpiCall {
                program: ctx.lulo_program,
                accounts,
                extra_accounts: Vec::new(),
                signer_seeds: vault.signer_seeds(),
                args: LuloArgs::InitDriftUserAccount,
            },
        )
    } else {
        None
    };
    let mut accounts: Vec<Address> = Vec::new();
    accounts.push(ctx.vault);
    accounts.push(ctx.vault);
    accounts.push(remaining[0].address);
    accounts.push(remaining[1].address);
    accounts.push(remaining[2].address);
    accounts.push(remaining[3].address);
    accounts.push(ctx.lulo_user_account);
    accounts.push(ctx.lulo_user_token_account);
    accounts.push(ctx.mint_address);
    accounts.push(remaining[4].address);
    accounts.push(remaining[5].address);
    accounts.push(ctx.owner);
    accounts.push(remaining[6].address);
    accounts.push(ctx.token_program);
    accounts.push(ctx.system_program);
    proof {
        assert(accounts@ =~= spec_deposit_drift_accounts(*ctx, remaining@));
    }
    let main_call = CpiCall {
        program: ctx.lulo_program,
        accounts,
        extra_accounts: Vec::new(),
        signer_seeds: vault.signer_seeds(),
        args: LuloArgs::DepositDrift {
            market_index: DRIFT_MARKET_INDEX,
            amount,
            reduce_only: false,
            return_flag: false,
        },
    };
    Ok(DriftPlan { init_call, main_call })
}

/// The outcome a multi-market withdrawal is determined by.
pub open spec fn spec_lulo_withdraw_drift_outcome(
    m: LedgerState,
    ctx: LuloWithdraw,
    rem: Seq<RemainingAccount>,
) -> Result<(), VaultError> {
    match spec_lulo_withdraw_check(m, ctx) {
        Err(e) => Err(e),
        Ok(_) => {
            if rem.len() < spec_required_remaining(DRIFT_MARKET_INDEX) {
                Err(VaultError::MissingAuxiliaryAccount)
            } else {
                Ok(())
            }
        },
    }
}

/// The fixed account order of the multi-market withdraw entry point.
pub open spec fn spec_withdraw_drift_accounts(ctx: LuloWithdraw, rem: Seq<RemainingAccount>) -> Seq<
    Address,
> {
    seq![
        ctx.vault,
        ctx.vault,
        rem[0].address,
        rem[1].address,
        rem[2].address,
        rem[3].address,
        rem[4].address,
        ctx.lulo_user_account,
        ctx.lulo_user_token_account,
        ctx.mint_address,
        ctx.owner,
        rem[5].address,
        ctx.token_program,
        ctx.associated_token_program,
        ctx.system_program,
    ]
}

/// Assemble a multi-market withdrawal: the fixed-role accounts in entry
/// order, then the oracle slice and the market-descriptor slice of the
/// auxiliary list — oracles first, relative order preserved — as the call's
/// own variable account list. The downstream protocol is told to close the
/// full position.
pub fn lulo_withdraw_drift(
    ledger: &Ledger,
    ctx: &LuloWithdraw,
    remaining: &Vec<RemainingAccount>,
    amount: u64,
) -> (r: Result<CpiCall, VaultError>)
    requires
        ctx.owner_signed,
    ensures
        match r {
            Ok(call) => {
                &&& spec_lulo_withdraw_check(ledger@, *ctx) matches Ok(v) && call.signer_seeds.deep_view() == v.seeds_with_bump()
                &&& spec_lulo_withdraw_drift_outcome(ledger@, *ctx, remaining@) == Ok::<
                    (),
                    VaultError,
                >(())
                &&& call.program == ctx.lulo_program
                &&& call.accounts@ == spec_withdraw_drift_accounts(*ctx, remaining@)
                &&& call.extra_accounts@ == spec_oracle_slice(remaining@, DRIFT_MARKET_INDEX)
                    + spec_market_slice(remaining@, DRIFT_MARKET_INDEX)
                &&& call.args == (LuloArgs::WithdrawDrift {
                    market_index: DRIFT_MARKET_INDEX,
                    amount,
                    withdraw_all: true,
                    return_flag: false,
                })
            },
            Err(e) => spec_lulo_withdraw_drift_outcome(ledger@, *ctx, remaining@) == Err::<
                (),
                VaultError,
            >(e),
        },
{
    let vault = match check_lulo_withdraw(ledger, ctx) {
        Err(e) => { return Err(e) },
        Ok(v) => v,
    };
    let (oracles, markets) = match partition_remaining_accounts(remaining, DRIFT_MARKET_INDEX) {
        Err(e) => { return Err(e) },
        Ok(slices) => slices,
    };
    let mut extra_accounts = oracles;
    let mut market_accounts = markets;
    extra_accounts.append(&mut market_accounts);
    let mut accounts: Vec<Address> = Vec::new();
    accounts.push(ctx.vault);
    accounts.push(ctx.vault);
    accounts.push(remaining[0].address);
    accounts.push(remaining[1].address);
    accounts.push(remaining[2].address);
    accounts.push(remaining[3].address);
    accounts.push(remaining[4].address);
    accounts.push(ctx.lulo_user_account);
    accounts.push(ctx.lulo_user_token_account);
    accounts.push(ctx.mint_address);
    accounts.push(ctx.owner);
    accounts.push(remaining[5].address);
    accounts.push(ctx.token_program);
    accounts.push(ctx.associated_token_program);
    accounts.push(ctx.system_program);
    proof {
        assert(accounts@ =~= spec_withdraw_drift_accounts(*ctx, remaining@));
    }
    Ok(
        CpiCall {
            program: ctx.lulo_program,
            accounts,
            extra_accounts,
            signer_seeds: vault.signer_seeds(),
            args: LuloArgs::WithdrawDrift {
                market_index: DRIFT_MARKET_INDEX,
                amount,
                withdraw_all: true,
                return_flag: false,
            },
        },
    )
}

} // verus!
