//! The ledger-resident state the vault core operates on: vault records keyed
//! by their derived address, and token accounts holding escrowed balances.
//!
//! Every operation runs as one atomic unit: on any error the state is
//! returned unchanged, mirroring a host that rolls the whole transaction
//! back.

use vstd::prelude::*;

use crate::addr::{addr_eq, Address};
use crate::errors::VaultError;
use crate::pda::{derived_address, found_pda, vault_seeds};
use crate::record::Vault;

verus! {

/// A token account: a balance of `mint` held at `address` and controlled by
/// `authority`.
#[derive(Clone, Copy, Debug, PartialEq, Eq)]
pub struct TokenAccount {
    pub address: Address,
    pub mint: Address,
    pub authority: Address,
    pub amount: u64,
}

/// The mathematical state of the ledger: the two program addresses the core
/// was deployed against, the vault records with their addresses, and the
/// token accounts, each in creation order.
#[verifier::ext_equal]
pub struct LedgerState {
    pub program_id: Address,
    pub lulo_program_id: Address,
    pub vaults: Seq<(Address, Vault)>,
    pub accounts: Seq<TokenAccount>,
}

/// The first vault record stored at `addr`, if any.
pub open spec fn find_vault(s: Seq<(Address, Vault)>, addr: Seq<u8>) -> Option<Vault>
    decreases s.len(),
{
    if s.len() == 0 {
        None
    } else if s[0].0@ == addr {
        Some(s[0].1)
    } else {
        find_vault(s.drop_first(), addr)
    }
}

/// The first token account at `addr`, if any.
pub open spec fn find_account(s: Seq<TokenAccount>, addr: Seq<u8>) -> Option<TokenAccount>
    decreases s.len(),
{
    if s.len() == 0 {
        None
    } else if s[0].address@ == addr {
        Some(s[0])
    } else {
        find_account(s.drop_first(), addr)
    }
}

/// The state with the first token account at `addr` holding `amount`
/// instead; unchanged when no account sits at `addr`.
pub open spec fn set_amount(s: Seq<TokenAccount>, addr: Seq<u8>, amount: u64) -> Seq<TokenAccount>
    decreases s.len(),
{
    if s.len() == 0 {
        s
    } else if s[0].address@ == addr {
        seq![TokenAccount { amount, ..s[0] }] + s.drop_first()
    } else {
        seq![s[0]] + set_amount(s.drop_first(), addr, amount)
    }
}

pub proof fn lemma_find_vault_first_match(s: Seq<(Address, Vault)>, addr: Seq<u8>, i: int)
    requires
        0 <= i < s.len(),
        s[i].0@ == addr,
        forall|j: int| 0 <= j < i ==> s[j].0@ != addr,
    ensures
        find_vault(s, addr) == Some(s[i].1),
    decreases i,
{
    if i > 0 {
        lemma_find_vault_first_match(s.drop_first(), addr, i - 1);
    }
}

pub proof fn lemma_find_vault_no_match(s: Seq<(Address, Vault)>, addr: Seq<u8>)
    requires
        forall|j: int| 0 <= j < s.len() ==> s[j].0@ != addr,
    ensures
        find_vault(s, addr) is None,
    decreases s.len(),
{
    if s.len() > 0 {
        lemma_find_vault_no_match(s.drop_first(), addr);
    }
}

pub proof fn lemma_find_vault_push(s: Seq<(Address, Vault)>, x: (Address, Vault), addr: Seq<u8>)
    ensures
        find_vault(s.push(x), addr) == if find_vault(s, addr) is Some {
            find_vault(s, addr)
        } else if x.0@ == addr {
            Some(x.1)
        } else {
            None
        },
    decreases s.len(),
{
    if s.len() == 0 {
        assert(s.push(x).drop_first() =~= s);
    } else {
        assert(s.push(x).drop_first() =~= s.drop_first().push(x));
        lemma_find_vault_push(s.drop_first(), x, addr);
    }
}

pub proof fn lemma_find_account_first_match(s: Seq<TokenAccount>, addr: Seq<u8>, i: int)
    requires
        0 <= i < s.len(),
        s[i].address@ == addr,
        forall|j: int| 0 <= j < i ==> s[j].address@ != addr,
    ensures
        find_account(s, addr) == Some(s[i]),
        forall|amount: u64| #[trigger] set_amount(s, addr, amount) =~= s.update(
            i,
            TokenAccount { amount, ..s[i] },
        ),
    decreases i,
{
    if i > 0 {
        lemma_find_account_first_match(s.drop_first(), addr, i - 1);
        assert(forall|amount: u64| #[trigger] set_amount(s, addr, amount) =~= s.update(
            i,
            TokenAccount { amount, ..s[i] },
        )) by {
            assert forall|amount: u64| #[trigger] set_amount(s, addr, amount) =~= s.update(
                i,
                TokenAccount { amount, ..s[i] },
            ) by {
                assert(set_amount(s.drop_first(), addr, amount) =~= s.drop_first().update(
                    i - 1,
                    TokenAccount { amount, ..s[i] },
                ));
            }
        }
    }
}

pub proof fn lemma_find_account_no_match(s: Seq<TokenAccount>, addr: Seq<u8>)
    requires
        forall|j: int| 0 <= j < s.len() ==> s[j].address@ != addr,
    ensures
        find_account(s, addr) is None,
    decreases s.len(),
{
    if s.len() > 0 {
        lemma_find_account_no_match(s.drop_first(), addr);
    }
}

/// Accounts named by a vault-creation request. `owner` funds nothing here;
/// `fee_payer` pays for the record and may equal `owner`.
#[derive(Clone, Copy, Debug)]
pub struct InitializeVault {
    pub owner: Address,
    pub owner_signed: bool,
    pub fee_payer: Address,
    pub fee_payer_signed: bool,
    pub mint_address: Address,
    pub vault: Address,
}

/// Accounts named by a deposit request: funds move from the owner's external
/// token account into the escrow holding account under the vault's
/// authority.
#[derive(Clone, Copy, Debug)]
pub struct DepositVault {
    pub owner: Address,
    pub owner_signed: bool,
    pub fee_payer: Address,
    pub fee_payer_signed: bool,
    pub vault: Address,
    pub mint_address: Address,
    pub owner_token_account: Address,
    pub vault_token_account: Address,
    pub token_program: Address,
}

/// Accounts named by a withdrawal request: funds move back from the escrow
/// holding account to the owner's external token account, with the vault's
/// derived authority signing.
#[derive(Clone, Copy, Debug)]
pub struct WithdrawVault {
    pub owner: Address,
    pub owner_signed: bool,
    pub vault: Address,
    pub mint_address: Address,
    pub owner_token_account: Address,
    pub vault_token_account: Address,
    pub token_program: Address,
}

/// The token-program call an escrow operation dispatches: move `amount` from
/// `from` to `to`. `signer_seeds` is `None` when the owner signs directly and
/// carries the vault's seed tuple when the vault's derived authority signs.
#[derive(Clone, Debug, PartialEq, Eq)]
pub struct TransferOrder {
    pub token_program: Address,
    pub from: Address,
    pub to: Address,
    pub authority: Address,
    pub amount: u64,
    pub signer_seeds: Option<Vec<Vec<u8>>>,
}

/// A stored vault entry is sound: the bump search for its (owner, mint) pair
/// yields exactly its address and recorded bump, and the recorded seed tuple
/// re-derives its address.
pub open spec fn vault_entry_ok(program_id: Seq<u8>, addr: Seq<u8>, v: Vault) -> bool {
    &&& found_pda(vault_seeds(v.mint@, v.owner@), program_id) == Some((addr, v.bump))
    &&& derived_address(v.seeds_with_bump(), program_id) == Some(addr)
}

/// Invariant of every reachable ledger state: each stored vault record is
/// sound for the address it is stored under.
pub open spec fn ledger_inv(m: LedgerState) -> bool {
    forall|i: int|
        0 <= i < m.vaults.len() ==> vault_entry_ok(
            m.program_id@,
            #[trigger] m.vaults[i].0@,
            m.vaults[i].1,
        )
}

/// The ledger as the executable side holds it. All mutation goes through the
/// vault operations, which preserve `ledger_inv` of the view.
pub struct Ledger {
    program_id: Address,
    lulo_program_id: Address,
    vaults: Vec<(Address, Vault)>,
    token_accounts: Vec<TokenAccount>,
}

impl View for Ledger {
    type V = LedgerState;

    closed spec fn view(&self) -> LedgerState {
        LedgerState {
            program_id: self.program_id,
            lulo_program_id: self.lulo_program_id,
            vaults: self.vaults@,
            accounts: self.token_accounts@,
        }
    }
}

impl Ledger {
    #[verifier::type_invariant]
    spec fn wf(self) -> bool {
        ledger_inv(self@)
    }

    /// An empty ledger for a deployment of the vault program at `program_id`
    /// next to the yield-routing protocol at `lulo_program_id`.
    pub fn new(program_id: Address, lulo_program_id: Address) -> (r: Ledger)
        ensures
            r@.program_id == program_id,
            r@.lulo_program_id == lulo_program_id,
            r@.vaults == Seq::<(Address, Vault)>::empty(),
            r@.accounts == Seq::<TokenAccount>::empty(),
    {
        Ledger {
            program_id,
            lulo_program_id,
            vaults: Vec::new(),
            token_accounts: Vec::new(),
        }
    }

    /// The address of the vault program itself.
    pub fn program_id(&self) -> (r: Address)
        ensures
            r == self@.program_id,
    {
        self.program_id
    }

    /// The address of the yield-routing protocol program.
    pub fn lulo_program_id(&self) -> (r: Address)
        ensures
            r == self@.lulo_program_id,
    {
        self.lulo_program_id
    }

    /// Every ledger reachable through this interface satisfies
    /// `ledger_inv`: callers may rely on each stored record being sound.
    pub fn invariant_holds(&self)
        ensures
            ledger_inv(self@),
    {
        proof {
            use_type_invariant(&*self);
        }
    }

    /// The vault record stored at `addr`, if any.
    pub fn vault_record(&self, addr: &Address) -> (r: Option<Vault>)
        ensures
            r == find_vault(self@.vaults, addr@),
    {
        let n = self.vaults.len();
        let mut i: usize = 0;
        while i < n
            invariant
                n == self.vaults@.len(),
                i <= n,
                forall|j: int| 0 <= j < i ==> self.vaults@[j].0@ != addr@,
            decreases n - i,
        {
            if addr_eq(&self.vaults[i].0, addr) {
                proof {
                    lemma_find_vault_first_match(self.vaults@, addr@, i as int);
                }
                return Some(self.vaults[i].1);
            }
            i += 1;
        }
        proof {
            lemma_find_vault_no_match(self.vaults@, addr@);
        }
        None
    }

    /// The token account at `addr`, if any.
    pub fn token_account(&self, addr: &Address) -> (r: Option<TokenAccount>)
        ensures
            r == find_account(self@.accounts, addr@),
    {
        match find_account_index(&self.token_accounts, addr) {
            Some(i) => Some(self.token_accounts[i]),
            None => None,
        }
    }

    /// The balance held by the token account at `addr`, if one exists.
    pub fn balance_of(&self, addr: &Address) -> (r: Option<u64>)
        ensures
            match find_account(self@.accounts, addr@) {
                Some(a) => r == Some(a.amount),
                None => r is None,
            },
    {
        match self.token_account(addr) {
            Some(a) => Some(a.amount),
            None => None,
        }
    }

    /// Open a fresh token account, as the host environment does when a
    /// principal's external balance first appears. Fails when the address is
    /// already taken; the vault records are untouched.
    pub fn create_token_account(&mut self, account: TokenAccount) -> (r: Result<(), VaultError>)
        ensures
            final(self)@.program_id == old(self)@.program_id,
            final(self)@.lulo_program_id == old(self)@.lulo_program_id,
            final(self)@.vaults == old(self)@.vaults,
            match r {
                Ok(()) => find_account(old(self)@.accounts, account.address@) is None
                    && final(self)@.accounts == old(self)@.accounts.push(account),
                Err(e) => e == VaultError::DuplicateInitialization && find_account(
                    old(self)@.accounts,
                    account.address@,
                ) is Some && final(self)@ == old(self)@,
            },
    {
        proof {
            use_type_invariant(&*self);
        }
        match find_account_index(&self.token_accounts, &account.address) {
            Some(_) => Err(VaultError::DuplicateInitialization),
            None => {
                let ghost m0 = self@;
                let mut accounts: Vec<TokenAccount> = Vec::new();
                proof {
                    assert(ledger_inv(LedgerState { accounts: accounts@, ..m0 }));
                }
                core::mem::swap(&mut accounts, &mut self.token_accounts);
                accounts.push(account);
                core::mem::swap(&mut accounts, &mut self.token_accounts);
                Ok(())
            },
        }
    }
}

/// Index of the first token account at `addr`, together with what the
/// first-match lookup and update mean at that index.
fn find_account_index(accounts: &Vec<TokenAccount>, addr: &Address) -> (r: Option<usize>)
    ensures
        match r {
            Some(i) => {
                &&& i < accounts@.len()
                &&& accounts@[i as int].address@ == addr@
                &&& forall|j: int| 0 <= j < i ==> accounts@[j].address@ != addr@
                &&& find_account(accounts@, addr@) == Some(accounts@[i as int])
                &&& forall|amount: u64| #[trigger] set_amount(accounts@, addr@, amount)
                    =~= accounts@.update(
                    i as int,
                    TokenAccount { amount, ..accounts@[i as int] },
                )
            },
            None => find_account(accounts@, addr@) is None,
        },
{
    let n = accounts.len();
    let mut i: usize = 0;
    while i < n
        invariant
            n == accounts@.len(),
            i <= n,
            forall|j: int| 0 <= j < i ==> accounts@[j].address@ != addr@,
        decreases n - i,
    {
        if addr_eq(&accounts[i].address, addr) {
            proof {
                lemma_find_account_first_match(accounts@, addr@, i as int);
            }
            return Some(i);
        }
        i += 1;
    }
    proof {
        lemma_find_account_no_match(accounts@, addr@);
    }
    None
}

/// The record a caller's (vault, owner, mint) claim resolves to, after the
/// sole authentication of every vault operation: the record must exist at
/// the claimed address, carry the claimed owner and mint, and its stored
/// seed material must re-derive exactly the claimed address.
pub open spec fn spec_vault_auth(
    m: LedgerState,
    vault_addr: Address,
    owner: Address,
    mint: Address,
) -> Option<Vault> {
    match find_vault(m.vaults, vault_addr@) {
        None => None,
        Some(v) => {
            if v.owner@ == owner@ && v.mint@ == mint@ && derived_address(
                v.seeds_with_bump(),
                m.program_id@,
            ) == Some(vault_addr@) {
                Some(v)
            } else {
                None
            }
        },
    }
}

/// What creating a vault does to the ledger. The bump search fixes the one
/// canonical (address, bump) pair for the (owner, mint) seeds; the claimed
/// address must be that pair's address, and no record may exist there yet.
pub open spec fn spec_init_vault(m: LedgerState, ctx: InitializeVault) -> (
    LedgerState,
    Result<(), VaultError>,
) {
    match found_pda(vault_seeds(ctx.mint_address@, ctx.owner@), m.program_id@) {
        None => (m, Err(VaultError::AuthorizationMismatch)),
        Some((a, b)) => {
            if a != ctx.vault@ {
                (m, Err(VaultError::AuthorizationMismatch))
            } else if find_vault(m.vaults, ctx.vault@) is Some {
                (m, Err(VaultError::DuplicateInitialization))
            } else {
                (
                    LedgerState {
                        vaults: m.vaults.push(
                            (
                                ctx.vault,
                                Vault { bump: b, owner: ctx.owner, mint: ctx.mint_address },
                            ),
                        ),
                        ..m
                    },
                    Ok(()),
                )
            }
        },
    }
}

/// Create the vault record for `(ctx.owner, ctx.mint_address)`. Fails with
/// `DuplicateInitialization` when a record for the pair already exists, and
/// with `AuthorizationMismatch` when the claimed vault address is not the
/// canonical derived one (or no derivation exists); on failure the ledger is
/// unchanged.
pub fn init_vault(ledger: &mut Ledger, ctx: &InitializeVault) -> (r: Result<(), VaultError>)
    requires
        ctx.owner_signed,
        ctx.fee_payer_signed,
    ensures
        final(ledger)@ == spec_init_vault(old(ledger)@, *ctx).0,
        r == spec_init_vault(old(ledger)@, *ctx).1,
{
    proof {
        use_type_invariant(&*ledger);
    }
    let ghost m0 = ledger@;
    let pid = ledger.program_id();
    match crate::pda::find_vault_address(&pid, &ctx.mint_address, &ctx.owner) {
        None => Err(VaultError::AuthorizationMismatch),
        Some((derived, bump)) => {
            if !addr_eq(&derived, &ctx.vault) {
                Err(VaultError::AuthorizationMismatch)
            } else {
                match ledger.vault_record(&ctx.vault) {
                    Some(_) => Err(VaultError::DuplicateInitialization),
                    None => {
                        let record = Vault { bump, owner: ctx.owner, mint: ctx.mint_address };
                        ledger.push_vault_entry(ctx.vault, record);
                        Ok(())
                    },
                }
            }
        },
    }
}

impl Ledger {
    /// Append a sound vault entry; only `init_vault` calls this.
    fn push_vault_entry(&mut self, addr: Address, record: Vault)
        requires
            vault_entry_ok(old(self)@.program_id@, addr@, record),
        ensures
            final(self)@ == (LedgerState {
                vaults: old(self)@.vaults.push((addr, record)),
                ..old(self)@
            }),
    {
        proof {
            use_type_invariant(&*self);
        }
        let ghost m0 = self@;
        let mut vaults: Vec<(Address, Vault)> = Vec::new();
        proof {
            assert(ledger_inv(LedgerState { vaults: vaults@, ..m0 }));
        }
        core::mem::swap(&mut vaults, &mut self.vaults);
        vaults.push((addr, record));
        proof {
            let m1 = LedgerState { vaults: vaults@, ..m0 };
            assert forall|i: int| 0 <= i < m1.vaults.len() implies vault_entry_ok(
                m1.program_id@,
                #[trigger] m1.vaults[i].0@,
                m1.vaults[i].1,
            ) by {
                if i < m0.vaults.len() {
                    assert(vault_entry_ok(m0.program_id@, m0.vaults[i].0@, m0.vaults[i].1));
                }
            }
            assert(ledger_inv(m1));
        }
        core::mem::swap(&mut vaults, &mut self.vaults);
        proof {
            assert(self@ =~= LedgerState { vaults: m0.vaults.push((addr, record)), ..m0 });
        }
    }
}

/// Authenticate a caller's (vault, owner, mint) claim against the ledger.
pub fn authenticate_vault(
    ledger: &Ledger,
    vault_addr: &Address,
    owner: &Address,
    mint: &Address,
) -> (r: Option<Vault>)
    ensures
        r == spec_vault_auth(ledger@, *vault_addr, *owner, *mint),
{
    match ledger.vault_record(vault_addr) {
        None => None,
        Some(v) => {
            if addr_eq(&v.owner, owner) && addr_eq(&v.mint, mint) && crate::pda::check_vault_derivation(
                &ledger.program_id(),
                vault_addr,
                mint,
                owner,
                v.bump,
            ) {
                Some(v)
            } else {
                None
            }
        },
    }
}

/// What a deposit does to the ledger: after authentication, `amount` moves
/// from the owner's external token account into the escrow holding account,
/// which is created empty first if absent.
pub open spec fn spec_deposit_vault(m: LedgerState, ctx: DepositVault, amount: u64) -> (
    LedgerState,
    Result<(), VaultError>,
) {
    if spec_vault_auth(m, ctx.vault, ctx.owner, ctx.mint_address) is None {
        (m, Err(VaultError::AuthorizationMismatch))
    } else {
        match find_account(m.accounts, ctx.owner_token_account@) {
            None => (m, Err(VaultError::AuthorizationMismatch)),
            Some(src) => {
                if src.mint@ != ctx.mint_address@ || src.authority@ != ctx.owner@ {
                    (m, Err(VaultError::AuthorizationMismatch))
                } else if src.amount < amount {
                    (m, Err(VaultError::InsufficientBalance))
                } else {
                    spec_deposit_move(m, ctx, amount, src)
                }
            },
        }
    }
}

/// The funds movement of a successful-so-far deposit, once the source
/// account is known to cover `amount`.
pub open spec fn spec_deposit_move(
    m: LedgerState,
    ctx: DepositVault,
    amount: u64,
    src: TokenAccount,
) -> (LedgerState, Result<(), VaultError>) {
    match find_account(m.accounts, ctx.vault_token_account@) {
        None => {
            let debited = set_amount(
                m.accounts,
                ctx.owner_token_account@,
                (src.amount - amount) as u64,
            );
            let escrow = TokenAccount {
                address: ctx.vault_token_account,
                mint: ctx.mint_address,
                authority: ctx.vault,
                amount,
            };
            (LedgerState { accounts: debited.push(escrow), ..m }, Ok(()))
        },
        Some(esc) => {
            if esc.mint@ != ctx.mint_address@ || esc.authority@ != ctx.vault@ {
                (m, Err(VaultError::AuthorizationMismatch))
            } else if ctx.owner_token_account@ == ctx.vault_token_account@ {
                (m, Ok(()))
            } else if esc.amount + amount > u64::MAX {
                (m, Err(VaultError::DownstreamFailure))
            } else {
                let debited = set_amount(
                    m.accounts,
                    ctx.owner_token_account@,
                    (src.amount - amount) as u64,
                );
                let credited = set_amount(
                    debited,
                    ctx.vault_token_account@,
                    (esc.amount + amount) as u64,
                );
                (LedgerState { accounts: credited, ..m }, Ok(()))
            }
        },
    }
}

/// Deposit `amount` of `ctx.mint_address` from the owner's external token
/// account into the escrow holding account, creating the latter when absent.
/// The owner signs directly, so the returned transfer order carries no
/// signer seeds. On any error the ledger is unchanged.
pub fn deposit_vault(ledger: &mut Ledger, ctx: &DepositVault, amount: u64) -> (r: Result<
    TransferOrder,
    VaultError,
>)
    requires
        ctx.owner_signed,
        ctx.fee_payer_signed,
    ensures
        final(ledger)@ == spec_deposit_vault(old(ledger)@, *ctx, amount).0,
        match r {
            Ok(ord) => {
                &&& spec_deposit_vault(old(ledger)@, *ctx, amount).1 == Ok::<(), VaultError>(())
                &&& ord.token_program == ctx.token_program
                &&& ord.from == ctx.owner_token_account
                &&& ord.to == ctx.vault_token_account
                &&& ord.authority == ctx.owner
                &&& ord.amount == amount
                &&& ord.signer_seeds is None
            },
            Err(e) => spec_deposit_vault(old(ledger)@, *ctx, amount).1 == Err::<(), VaultError>(
                e,
            ),
        },
{
    proof {
        use_type_invariant(&*ledger);
    }
    let ghost m0 = ledger@;
    if authenticate_vault(ledger, &ctx.vault, &ctx.owner, &ctx.mint_address).is_none() {
        return Err(VaultError::AuthorizationMismatch);
    }
    let src_i: usize = match find_account_index(&ledger.token_accounts, &ctx.owner_token_account) {
        None => { return Err(VaultError::AuthorizationMismatch) },
        Some(i) => i,
    };
    let src = ledger.token_accounts[src_i];
    if !(addr_eq(&src.mint, &ctx.mint_address) && addr_eq(&src.authority, &ctx.owner)) {
        return Err(VaultError::AuthorizationMismatch);
    }
    if src.amount < amount {
        return Err(VaultError::InsufficientBalance);
    }
    let order = TransferOrder {
        token_program: ctx.token_program,
        from: ctx.owner_token_account,
        to: ctx.vault_token_account,
        authority: ctx.owner,
        amount,
        signer_seeds: None,
    };
    match find_account_index(&ledger.token_accounts, &ctx.vault_token_account) {
        None => {
            let mut accounts: Vec<TokenAccount> = Vec::new();
            proof {
                assert(ledger_inv(LedgerState { accounts: accounts@, ..m0 }));
            }
            core::mem::swap(&mut accounts, &mut ledger.token_accounts);
            accounts[src_i] = TokenAccount {
                address: src.address,
                mint: src.mint,
                authority: src.authority,
                amount: src.amount - amount,
            };
            accounts.push(
                TokenAccount {
                    address: ctx.vault_token_account,
                    mint: ctx.mint_address,
                    authority: ctx.vault,
                    amount,
                },
            );
            proof {
                assert(ledger_inv(LedgerState { accounts: accounts@, ..m0 }));
            }
            core::mem::swap(&mut accounts, &mut ledger.token_accounts);
            proof {
                assert(ledger@ =~= spec_deposit_vault(m0, *ctx, amount).0);
            }
            Ok(order)
        },
        Some(esc_i) => {
            let esc = ledger.token_accounts[esc_i];
            if !(addr_eq(&esc.mint, &ctx.mint_address) && addr_eq(&esc.authority, &ctx.vault)) {
                return Err(VaultError::AuthorizationMismatch);
            }
            if addr_eq(&ctx.owner_token_account, &ctx.vault_token_account) {
                return Ok(order);
            }
            if amount > u64::MAX - esc.amount {
                return Err(VaultError::DownstreamFailure);
            }
            proof {
                assert(src_i != esc_i);
            }
            let mut accounts: Vec<TokenAccount> = Vec::new();
            proof {
                assert(ledger_inv(LedgerState { accounts: accounts@, ..m0 }));
            }
            core::mem::swap(&mut accounts, &mut ledger.token_accounts);
            accounts[src_i] = TokenAccount {
                address: src.address,
                mint: src.mint,
                authority: src.authority,
                amount: src.amount - amount,
            };
            accounts[esc_i] = TokenAccount {
                address: esc.address,
                mint: esc.mint,
                authority: esc.authority,
                amount: esc.amount + amount,
            };
            proof {
                assert(ledger_inv(LedgerState { accounts: accounts@, ..m0 }));
            }
            core::mem::swap(&mut accounts, &mut ledger.token_accounts);
            proof {
                let debited = set_amount(
                    m0.accounts,
                    ctx.owner_token_account@,
                    (src.amount - amount) as u64,
                );
                assert(debited =~= m0.accounts.update(
                    src_i as int,
                    TokenAccount { amount: (src.amount - amount) as u64, ..src },
                ));
                assert(forall|j: int|
                    0 <= j < esc_i ==> debited[j].address@ != ctx.vault_token_account@);
                lemma_find_account_first_match(debited, ctx.vault_token_account@, esc_i as int);
                assert(set_amount(debited, ctx.vault_token_account@, (esc.amount + amount) as u64)
                    =~= debited.update(
                    esc_i as int,
                    TokenAccount { amount: (esc.amount + amount) as u64, ..esc },
                ));
                assert(ledger@.accounts =~= set_amount(
                    debited,
                    ctx.vault_token_account@,
                    (esc.amount + amount) as u64,
                ));
                assert(ledger@ =~= spec_deposit_vault(m0, *ctx, amount).0);
            }
            Ok(order)
        },
    }
}

/// What a withdrawal does to the ledger: after authentication, `amount`
/// moves from the escrow holding account back to the owner's external token
/// account; the escrow must exist and cover the amount.
pub open spec fn spec_withdraw_vault(m: LedgerState, ctx: WithdrawVault, amount: u64) -> (
    LedgerState,
    Result<(), VaultError>,
) {
    if spec_vault_auth(m, ctx.vault, ctx.owner, ctx.mint_address) is None {
        (m, Err(VaultError::AuthorizationMismatch))
    } else {
        match find_account(m.accounts, ctx.vault_token_account@) {
            None => (m, Err(VaultError::AuthorizationMismatch)),
            Some(esc) => {
                if esc.mint@ != ctx.mint_address@ || esc.authority@ != ctx.vault@ {
                    (m, Err(VaultError::AuthorizationMismatch))
                } else if esc.amount < amount {
                    (m, Err(VaultError::InsufficientBalance))
                } else {
                    match find_account(m.accounts, ctx.owner_token_account@) {
                        None => (m, Err(VaultError::AuthorizationMismatch)),
                        Some(dst) => {
                            if dst.mint@ != ctx.mint_address@ || dst.authority@ != ctx.owner@ {
                                (m, Err(VaultError::AuthorizationMismatch))
                            } else if ctx.vault_token_account@ == ctx.owner_token_account@ {
                                (m, Ok(()))
                            } else if dst.amount + amount > u64::MAX {
                                (m, Err(VaultError::DownstreamFailure))
                            } else {
                                let debited = set_amount(
                                    m.accounts,
                                    ctx.vault_token_account@,
                                    (esc.amount - amount) as u64,
                                );
                                let credited = set_amount(
                                    debited,
                                    ctx.owner_token_account@,
                                    (dst.amount + amount) as u64,
                                );
                                (LedgerState { accounts: credited, ..m }, Ok(()))
                            }
                        },
                    }
                }
            },
        }
    }
}

/// Withdraw `amount` from the escrow holding account back to the owner's
/// external token account. The vault custodies the funds, so the returned
/// transfer order is signed with the vault's derived authority: its seed
/// tuple rides along as the signer proof. On any error the ledger is
/// unchanged, and `InsufficientBalance` is returned exactly when the escrow
/// balance is below `amount`.
pub fn withdraw_vault(ledger: &mut Ledger, ctx: &WithdrawVault, amount: u64) -> (r: Result<
    TransferOrder,
    VaultError,
>)
    requires
        ctx.owner_signed,
    ensures
        final(ledger)@ == spec_withdraw_vault(old(ledger)@, *ctx, amount).0,
        match r {
            Ok(ord) => {
                &&& spec_withdraw_vault(old(ledger)@, *ctx, amount).1 == Ok::<(), VaultError>(())
                &&& ord.token_program == ctx.token_program
                &&& ord.from == ctx.vault_token_account
                &&& ord.to == ctx.owner_token_account
                &&& ord.authority == ctx.vault
                &&& ord.amount == amount
                &&& (ord.signer_seeds matches Some(ss) && ss.deep_view() == spec_vault_auth(
                    old(ledger)@,
                    ctx.vault,
                    ctx.owner,
                    ctx.mint_address,
                )->Some_0.seeds_with_bump())
            },
            Err(e) => spec_withdraw_vault(old(ledger)@, *ctx, amount).1 == Err::<(), VaultError>(
                e,
            ),
        },
{
    proof {
        use_type_invariant(&*ledger);
    }
    let ghost m0 = ledger@;
    let vault = match authenticate_vault(ledger, &ctx.vault, &ctx.owner, &ctx.mint_address) {
        None => { return Err(VaultError::AuthorizationMismatch) },
        Some(v) => v,
    };
    let esc_i: usize = match find_account_index(&ledger.token_accounts, &ctx.vault_token_account) {
        None => { return Err(VaultError::AuthorizationMismatch) },
        Some(i) => i,
    };
    let esc = ledger.token_accounts[esc_i];
    if !(addr_eq(&esc.mint, &ctx.mint_address) && addr_eq(&esc.authority, &ctx.vault)) {
        return Err(VaultError::AuthorizationMismatch);
    }
    if esc.amount < amount {
        return Err(VaultError::InsufficientBalance);
    }
    let dst_i: usize = match find_account_index(&ledger.token_accounts, &ctx.owner_token_account) {
        None => { return Err(VaultError::AuthorizationMismatch) },
        Some(i) => i,
    };
    let dst = ledger.token_accounts[dst_i];
    if !(addr_eq(&dst.mint, &ctx.mint_address) && addr_eq(&dst.authority, &ctx.owner)) {
        return Err(VaultError::AuthorizationMismatch);
    }
    let order = TransferOrder {
        token_program: ctx.token_program,
        from: ctx.vault_token_account,
        to: ctx.owner_token_account,
        authority: ctx.vault,
        amount,
        signer_seeds: Some(vault.signer_seeds()),
    };
    if addr_eq(&ctx.vault_token_account, &ctx.owner_token_account) {
        return Ok(order);
    }
    if amount > u64::MAX - dst.amount {
        return Err(VaultError::DownstreamFailure);
    }
    proof {
        assert(esc_i != dst_i);
    }
    let mut accounts: Vec<TokenAccount> = Vec::new();
    proof {
        assert(ledger_inv(LedgerState { accounts: accounts@, ..m0 }));
    }
    core::mem::swap(&mut accounts, &mut ledger.token_accounts);
    accounts[esc_i] = TokenAccount {
        address: esc.address,
        mint: esc.mint,
        authority: esc.authority,
        amount: esc.amount - amount,
    };
    accounts[dst_i] = TokenAccount {
        address: dst.address,
        mint: dst.mint,
        authority: dst.authority,
        amount: dst.amount + amount,
    };
    proof {
        assert(ledger_inv(LedgerState { accounts: accounts@, ..m0 }));
    }
    core::mem::swap(&mut accounts, &mut ledger.token_accounts);
    proof {
        let debited = set_amount(m0.accounts, ctx.vault_token_account@, (esc.amount - amount) as u64);
        assert(debited =~= m0.accounts.update(
            esc_i as int,
            TokenAccount { amount: (esc.amount - amount) as u64, ..esc },
        ));
        assert(forall|j: int| 0 <= j < dst_i ==> debited[j].address@ != ctx.owner_token_account@);
        lemma_find_account_first_match(debited, ctx.owner_token_account@, dst_i as int);
        assert(set_amount(debited, ctx.owner_token_account@, (dst.amount + amount) as u64)
            =~= debited.update(
            dst_i as int,
            TokenAccount { amount: (dst.amount + amount) as u64, ..dst },
        ));
        assert(ledger@.accounts =~= set_amount(
            debited,
            ctx.owner_token_account@,
            (dst.amount + amount) as u64,
        ));
        assert(ledger@ =~= spec_withdraw_vault(m0, *ctx, amount).0);
    }
    Ok(order)
}

} // verus!
