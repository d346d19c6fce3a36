//! Laws of the vault core, each proved over the operations' own transition
//! functions: duplicate creation is rejected, escrow transfers move exact
//! amounts, failed withdrawals change nothing, stored records re-derive
//! their addresses, the one-time bootstrap is skipped once done, and the
//! auxiliary-list partition keeps order.

use vstd::prelude::*;

use crate::addr::Address;
use crate::errors::VaultError;
use crate::bridge::{
    spec_lulo_deposit_drift_outcome, spec_market_slice, spec_oracle_slice, LuloDeposit,
    RemainingAccount,
};
use crate::ledger::{
    find_account, find_vault, lemma_find_vault_push, set_amount, spec_deposit_vault,
    spec_init_vault, spec_vault_auth, spec_withdraw_vault, vault_entry_ok, DepositVault,
    InitializeVault, LedgerState, TokenAccount, WithdrawVault, ledger_inv,
};
use crate::record::Vault;

verus! {

proof fn lemma_find_set_same(s: Seq<TokenAccount>, a: Seq<u8>, x: u64)
    ensures
        find_account(set_amount(s, a, x), a) == match find_account(s, a) {
            Some(t) => Some(TokenAccount { amount: x, ..t }),
            None => None::<TokenAccount>,
        },
    decreases s.len(),
{
    if s.len() > 0 {
        if s[0].address@ == a {
            let s2 = seq![TokenAccount { amount: x, ..s[0] }] + s.drop_first();
            assert(s2[0] == TokenAccount { amount: x, ..s[0] });
        } else {
            let s2 = seq![s[0]] + set_amount(s.drop_first(), a, x);
            assert(s2[0] == s[0]);
            assert(s2.drop_first() =~= set_amount(s.drop_first(), a, x));
            lemma_find_set_same(s.drop_first(), a, x);
        }
    }
}

proof fn lemma_find_set_other(s: Seq<TokenAccount>, a: Seq<u8>, x: u64, b: Seq<u8>)
    requires
        a != b,
    ensures
        find_account(set_amount(s, a, x), b) == find_account(s, b),
    decreases s.len(),
{
    if s.len() > 0 {
        if s[0].address@ == a {
            let s2 = seq![TokenAccount { amount: x, ..s[0] }] + s.drop_first();
            assert(s2[0] == TokenAccount { amount: x, ..s[0] });
            assert(s2.drop_first() =~= s.drop_first());
        } else {
            let s2 = seq![s[0]] + set_amount(s.drop_first(), a, x);
            assert(s2[0] == s[0]);
            assert(s2.drop_first() =~= set_amount(s.drop_first(), a, x));
            lemma_find_set_other(s.drop_first(), a, x, b);
        }
    }
}

proof fn lemma_find_account_push(s: Seq<TokenAccount>, t: TokenAccount, b: Seq<u8>)
    ensures
        find_account(s.push(t), b) == if find_account(s, b) is Some {
            find_account(s, b)
        } else if t.address@ == b {
            Some(t)
        } else {
            None::<TokenAccount>
        },
    decreases s.len(),
{
    if s.len() == 0 {
        assert(s.push(t).drop_first() =~= s);
        assert(s.push(t)[0] == t);
    } else {
        assert(s.push(t)[0] == s[0]);
        assert(s.push(t).drop_first() =~= s.drop_first().push(t));
        lemma_find_account_push(s.drop_first(), t, b);
    }
}

proof fn lemma_find_vault_mem(s: Seq<(Address, Vault)>, addr: Seq<u8>)
    requires
        find_vault(s, addr) is Some,
    ensures
        exists|i: int|
            0 <= i < s.len() && #[trigger] s[i].0@ == addr && s[i].1 == find_vault(s, addr)->Some_0,
    decreases s.len(),
{
    if s[0].0@ == addr {
        assert(s[0].0@ == addr && s[0].1 == find_vault(s, addr)->Some_0);
    } else {
        lemma_find_vault_mem(s.drop_first(), addr);
        let i = choose|i: int|
            0 <= i < s.drop_first().len() && #[trigger] s.drop_first()[i].0@ == addr
                && s.drop_first()[i].1 == find_vault(s.drop_first(), addr)->Some_0;
        assert(s[i + 1].0@ == addr && s[i + 1].1 == find_vault(s, addr)->Some_0);
    }
}

/// Creating a vault for a pair that already has one is rejected: after a
/// successful creation, a second creation claiming the same owner, mint and
/// vault address fails with `DuplicateInitialization` and leaves the whole
/// ledger — the first record included — unchanged.
pub proof fn lemma_duplicate_create_rejected(
    m: LedgerState,
    ctx: InitializeVault,
    ctx2: InitializeVault,
)
    requires
        spec_init_vault(m, ctx).1 is Ok,
        ctx2.owner@ == ctx.owner@,
        ctx2.mint_address@ == ctx.mint_address@,
        ctx2.vault@ == ctx.vault@,
    ensures
        spec_init_vault(spec_init_vault(m, ctx).0, ctx2).0 == spec_init_vault(m, ctx).0,
        spec_init_vault(spec_init_vault(m, ctx).0, ctx2).1 == Err::<(), VaultError>(
            VaultError::DuplicateInitialization,
        ),
{
    let m1 = spec_init_vault(m, ctx).0;
    let pair = crate::pda::found_pda(
        crate::pda::vault_seeds(ctx.mint_address@, ctx.owner@),
        m.program_id@,
    )->Some_0;
    let entry = (ctx.vault, Vault { bump: pair.1, owner: ctx.owner, mint: ctx.mint_address });
    assert(m1.vaults == m.vaults.push(entry));
    lemma_find_vault_push(m.vaults, entry, ctx2.vault@);
}

/// A successful deposit moves exactly `amount`: the owner's external
/// balance drops by `amount` and the escrow holding balance rises by
/// `amount` (from zero when the escrow was only now created).
pub proof fn lemma_deposit_moves_exact_amount(m: LedgerState, ctx: DepositVault, amount: u64)
    requires
        spec_deposit_vault(m, ctx, amount).1 is Ok,
        ctx.owner_token_account@ != ctx.vault_token_account@,
    ensures
        ({
            let m1 = spec_deposit_vault(m, ctx, amount).0;
            let src0 = find_account(m.accounts, ctx.owner_token_account@)->Some_0;
            &&& find_account(m.accounts, ctx.owner_token_account@) is Some
            &&& amount <= src0.amount
            &&& (find_account(m1.accounts, ctx.owner_token_account@) matches Some(src1)
                && src1.amount == src0.amount - amount)
            &&& (find_account(m1.accounts, ctx.vault_token_account@) matches Some(esc1)
                && esc1.amount as int == (match find_account(m.accounts, ctx.vault_token_account@) {
                Some(e) => e.amount as int,
                None => 0,
            }) + amount)
        }),
{
    let src_addr = ctx.owner_token_account@;
    let esc_addr = ctx.vault_token_account@;
    let src0 = find_account(m.accounts, src_addr)->Some_0;
    let debited = set_amount(m.accounts, src_addr, (src0.amount - amount) as u64);
    lemma_find_set_same(m.accounts, src_addr, (src0.amount - amount) as u64);
    match find_account(m.accounts, esc_addr) {
        None => {
            let escrow = TokenAccount {
                address: ctx.vault_token_account,
                mint: ctx.mint_address,
                authority: ctx.vault,
                amount,
            };
            lemma_find_set_other(m.accounts, src_addr, (src0.amount - amount) as u64, esc_addr);
            lemma_find_account_push(debited, escrow, src_addr);
            lemma_find_account_push(debited, escrow, esc_addr);
        },
        Some(esc0) => {
            let credited = set_amount(debited, esc_addr, (esc0.amount + amount) as u64);
            lemma_find_set_other(m.accounts, src_addr, (src0.amount - amount) as u64, esc_addr);
            lemma_find_set_same(debited, esc_addr, (esc0.amount + amount) as u64);
            lemma_find_set_other(debited, esc_addr, (esc0.amount + amount) as u64, src_addr);
        },
    }
}

/// A successful withdrawal moves exactly `amount` the other way: the escrow
/// holding balance drops by `amount` and the owner's external balance rises
/// by `amount` — the inverse of the deposit law.
pub proof fn lemma_withdraw_moves_exact_amount(m: LedgerState, ctx: WithdrawVault, amount: u64)
    requires
        spec_withdraw_vault(m, ctx, amount).1 is Ok,
        ctx.owner_token_account@ != ctx.vault_token_account@,
    ensures
        ({
            let m1 = spec_withdraw_vault(m, ctx, amount).0;
            let esc0 = find_account(m.accounts, ctx.vault_token_account@)->Some_0;
            let dst0 = find_account(m.accounts, ctx.owner_token_account@)->Some_0;
            &&& find_account(m.accounts, ctx.vault_token_account@) is Some
            &&& find_account(m.accounts, ctx.owner_token_account@) is Some
            &&& amount <= esc0.amount
            &&& (find_account(m1.accounts, ctx.vault_token_account@) matches Some(esc1)
                && esc1.amount == esc0.amount - amount)
            &&& (find_account(m1.accounts, ctx.owner_token_account@) matches Some(dst1)
                && dst1.amount == dst0.amount + amount)
        }),
{
    let esc_addr = ctx.vault_token_account@;
    let dst_addr = ctx.owner_token_account@;
    let esc0 = find_account(m.accounts, esc_addr)->Some_0;
    let dst0 = find_account(m.accounts, dst_addr)->Some_0;
    let debited = set_amount(m.accounts, esc_addr, (esc0.amount - amount) as u64);
    lemma_find_set_same(m.accounts, esc_addr, (esc0.amount - amount) as u64);
    lemma_find_set_other(m.accounts, esc_addr, (esc0.amount - amount) as u64, dst_addr);
    lemma_find_set_same(debited, dst_addr, (dst0.amount + amount) as u64);
    lemma_find_set_other(debited, dst_addr, (dst0.amount + amount) as u64, esc_addr);
}

/// Depositing and then withdrawing the same amount restores both balances:
/// the withdrawal is owed success, the owner's external balance returns to
/// its original value, and the escrow returns to what it held before (zero
/// when the deposit had only just created it).
pub proof fn lemma_deposit_then_withdraw_restores(
    m: LedgerState,
    dctx: DepositVault,
    wctx: WithdrawVault,
    amount: u64,
)
    requires
        spec_deposit_vault(m, dctx, amount).1 is Ok,
        dctx.owner_token_account@ != dctx.vault_token_account@,
        wctx.owner@ == dctx.owner@,
        wctx.vault@ == dctx.vault@,
        wctx.mint_address@ == dctx.mint_address@,
        wctx.owner_token_account@ == dctx.owner_token_account@,
        wctx.vault_token_account@ == dctx.vault_token_account@,
    ensures
        ({
            let m1 = spec_deposit_vault(m, dctx, amount).0;
            let src0 = find_account(m.accounts, dctx.owner_token_account@)->Some_0;
            &&& spec_withdraw_vault(m1, wctx, amount).1 is Ok
            &&& (find_account(
                spec_withdraw_vault(m1, wctx, amount).0.accounts,
                dctx.owner_token_account@,
            ) matches Some(dst2) && dst2.amount == src0.amount)
            &&& (find_account(
                spec_withdraw_vault(m1, wctx, amount).0.accounts,
                dctx.vault_token_account@,
            ) matches Some(esc2) && esc2.amount as int == (match find_account(
                m.accounts,
                dctx.vault_token_account@,
            ) {
                Some(e) => e.amount as int,
                None => 0,
            }))
        }),
{
    let src_addr = dctx.owner_token_account@;
    let esc_addr = dctx.vault_token_account@;
    let m1 = spec_deposit_vault(m, dctx, amount).0;
    let src0 = find_account(m.accounts, src_addr)->Some_0;
    lemma_deposit_moves_exact_amount(m, dctx, amount);
    let src1 = find_account(m1.accounts, src_addr)->Some_0;
    let esc1 = find_account(m1.accounts, esc_addr)->Some_0;

    // The records the deposit left behind keep their mint and authority.
    let debited = set_amount(m.accounts, src_addr, (src0.amount - amount) as u64);
    lemma_find_set_same(m.accounts, src_addr, (src0.amount - amount) as u64);
    lemma_find_set_other(m.accounts, src_addr, (src0.amount - amount) as u64, esc_addr);
    match find_account(m.accounts, esc_addr) {
        None => {
            let escrow = TokenAccount {
                address: dctx.vault_token_account,
                mint: dctx.mint_address,
                authority: dctx.vault,
                amount,
            };
            lemma_find_account_push(debited, escrow, src_addr);
            lemma_find_account_push(debited, escrow, esc_addr);
        },
        Some(esc0) => {
            lemma_find_set_same(debited, esc_addr, (esc0.amount + amount) as u64);
            lemma_find_set_other(debited, esc_addr, (esc0.amount + amount) as u64, src_addr);
        },
    }
    assert(src1.mint@ == wctx.mint_address@ && src1.authority@ == wctx.owner@);
    assert(esc1.mint@ == wctx.mint_address@ && esc1.authority@ == wctx.vault@);
    assert(esc1.amount >= amount);
    assert(src1.amount + amount == src0.amount);

    // The vault still authenticates: records and program are untouched.
    assert(m1.vaults == m.vaults && m1.program_id == m.program_id);
    assert(spec_vault_auth(m1, wctx.vault, wctx.owner, wctx.mint_address) is Some);

    // The withdrawal therefore succeeds and undoes both balance changes.
    let credited1 = set_amount(m1.accounts, esc_addr, (esc1.amount - amount) as u64);
    lemma_find_set_same(m1.accounts, esc_addr, (esc1.amount - amount) as u64);
    lemma_find_set_other(m1.accounts, esc_addr, (esc1.amount - amount) as u64, src_addr);
    lemma_find_set_same(credited1, src_addr, (src1.amount + amount) as u64);
    lemma_find_set_other(credited1, src_addr, (src1.amount + amount) as u64, esc_addr);
}

/// A withdrawal of more than the escrow holds fails with
/// `InsufficientBalance`, and the ledger — the holding balance included —
/// is unchanged.
pub proof fn lemma_withdraw_insufficient_balance(m: LedgerState, ctx: WithdrawVault, amount: u64)
    requires
        spec_vault_auth(m, ctx.vault, ctx.owner, ctx.mint_address) is Some,
        find_account(m.accounts, ctx.vault_token_account@) matches Some(esc) && esc.mint@
            == ctx.mint_address@ && esc.authority@ == ctx.vault@ && esc.amount < amount,
    ensures
        spec_withdraw_vault(m, ctx, amount) == (m, Err::<(), VaultError>(
            VaultError::InsufficientBalance,
        )),
{
}

/// Round-trip derivation: in every reachable ledger state, re-deriving from
/// a stored record's (mint, owner, salt) reproduces exactly the address the
/// record is stored under, and the bump search for the pair returns that
/// same address and salt.
pub proof fn lemma_stored_vault_rederives(m: LedgerState, addr: Seq<u8>)
    requires
        ledger_inv(m),
        find_vault(m.vaults, addr) is Some,
    ensures
        vault_entry_ok(m.program_id@, addr, find_vault(m.vaults, addr)->Some_0),
{
    lemma_find_vault_mem(m.vaults, addr);
}

/// A claim naming an owner or mint other than the stored record's does not
/// authenticate, so every operation making it is rejected.
pub proof fn lemma_wrong_claim_fails_auth(
    m: LedgerState,
    vault_addr: Address,
    owner: Address,
    mint: Address,
)
    requires
        find_vault(m.vaults, vault_addr@) matches Some(v) && (v.owner@ != owner@ || v.mint@
            != mint@),
    ensures
        spec_vault_auth(m, vault_addr, owner, mint) is None,
{
}

/// Bootstrap idempotence: whenever the multi-market deposit path succeeds
/// with the downstream sub-account already initialized, its plan carries no
/// initialization call — only the one position update. The path reads the
/// ledger without changing it, so every repetition plans the same way.
pub proof fn lemma_bootstrap_init_skipped(
    m: LedgerState,
    ctx: LuloDeposit,
    rem: Seq<RemainingAccount>,
    amount: u64,
)
    requires
        spec_lulo_deposit_drift_outcome(m, ctx, rem, amount) is Ok,
        rem[0].data_len != 0,
    ensures
        spec_lulo_deposit_drift_outcome(m, ctx, rem, amount) == Ok::<bool, VaultError>(false),
{
}

/// The two-market partition: with the current market index, the oracle
/// slice is the auxiliary entries at positions 6 and 7, the
/// market-descriptor slice those at 8 and 9, and their concatenation lists
/// the four in that order, relative order preserved within each slice.
pub proof fn lemma_two_market_partition(rem: Seq<RemainingAccount>)
    requires
        rem.len() >= 10,
    ensures
        spec_oracle_slice(rem, 1) == seq![rem[6].address, rem[7].address],
        spec_market_slice(rem, 1) == seq![rem[8].address, rem[9].address],
        spec_oracle_slice(rem, 1) + spec_market_slice(rem, 1) == seq![
            rem[6].address,
            rem[7].address,
            rem[8].address,
            rem[9].address,
        ],
{
    assert(spec_oracle_slice(rem, 1) =~= seq![rem[6].address, rem[7].address]);
    assert(spec_market_slice(rem, 1) =~= seq![rem[8].address, rem[9].address]);
    assert(spec_oracle_slice(rem, 1) + spec_market_slice(rem, 1) =~= seq![
        rem[6].address,
        rem[7].address,
        rem[8].address,
        rem[9].address,
    ]);
}

} // verus!
