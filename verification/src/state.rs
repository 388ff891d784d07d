//! Identities, addresses, token accounts, and the escrow record.
//!
//! Locations are identities: the escrow record and its vault live at
//! addresses computed from stable inputs, and the vault's controlling
//! signer is a derived authority that no user key can equal. Cryptographic
//! key handling and hash-based address derivation are outside
//! collaborators; here an address carries its components, which keeps the
//! derivation deterministic and collision-free by construction.

use vstd::prelude::*;

verus! {

/// A signer: either a user's key or the single program-derived authority
/// that controls every vault and corresponds to no user key.
#[derive(Clone, Copy, Debug, PartialEq, Eq, Structural)]
pub enum Authority {
    User(u64),
    Derived,
}

/// The address of a token account: either one a user created under an
/// arbitrary identifier, or the vault derived from a depositor and an
/// asset, which no user-created account can collide with.
#[derive(Clone, Copy, Debug, PartialEq, Eq, Structural)]
pub enum TokenAccountId {
    External(u64),
    Vault(u64, u64),
}

/// The address of an escrow record, derived from its depositor and the
/// asset it is denominated in.
#[derive(Clone, Copy, Debug, PartialEq, Eq, Structural)]
pub struct EscrowId {
    pub initializer: u64,
    pub mint: u64,
}

/// A custodial balance holder: who may sign its outgoing transfers, the
/// asset it holds, and how much.
#[derive(Clone, Copy, Debug, PartialEq, Eq, Structural)]
pub struct TokenAccount {
    pub owner: Authority,
    pub mint: u64,
    pub amount: u64,
}

/// One escrow agreement: the depositor, the ordered receiver slots, the
/// asset, the locked quantity, and when the clock started. All fields are
/// immutable once the record is created.
pub struct Escrow {
    pub initializer: u64,
    pub receiver: Vec<u64>,
    pub mint: u64,
    pub amount: u64,
    pub start_time: i64,
}

/// The mathematical image of an escrow record.
pub ghost struct EscrowView {
    pub initializer: u64,
    pub receiver: Seq<u64>,
    pub mint: u64,
    pub amount: u64,
    pub start_time: i64,
}

impl View for Escrow {
    type V = EscrowView;

    open spec fn view(&self) -> EscrowView {
        EscrowView {
            initializer: self.initializer,
            receiver: self.receiver@,
            mint: self.mint,
            amount: self.amount,
            start_time: self.start_time,
        }
    }
}

/// Where the record for a depositor and asset lives.
pub open spec fn escrow_address(initializer: u64, mint: u64) -> EscrowId {
    EscrowId { initializer, mint }
}

/// Where the vault bound to that record lives.
pub open spec fn vault_address(initializer: u64, mint: u64) -> TokenAccountId {
    TokenAccountId::Vault(initializer, mint)
}

/// Computes the record address for a depositor and asset.
pub fn derive_escrow_address(initializer: u64, mint: u64) -> (r: EscrowId)
    ensures
        r == escrow_address(initializer, mint),
{
    EscrowId { initializer, mint }
}

/// Computes the vault address co-derived with a record address.
pub fn derive_vault_address(initializer: u64, mint: u64) -> (r: TokenAccountId)
    ensures
        r == vault_address(initializer, mint),
{
    TokenAccountId::Vault(initializer, mint)
}

/// Computes the process-wide vault authority. It owns no state and is
/// the same in every call.
pub fn derive_authority() -> (r: Authority)
    ensures
        r == Authority::Derived,
{
    Authority::Derived
}

/// Address derivation is collision-free: two vault addresses coincide
/// only when they were derived from the same depositor and asset, and a
/// vault address never collides with a user-created account's address.
pub proof fn lemma_vault_address_collision_free(i1: u64, m1: u64, i2: u64, m2: u64, n: u64)
    ensures
        vault_address(i1, m1) == vault_address(i2, m2) <==> (i1 == i2 && m1 == m2),
        vault_address(i1, m1) != TokenAccountId::External(n),
{
}

/// Record addresses are collision-free in the same way.
pub proof fn lemma_escrow_address_collision_free(i1: u64, m1: u64, i2: u64, m2: u64)
    ensures
        escrow_address(i1, m1) == escrow_address(i2, m2) <==> (i1 == i2 && m1 == m2),
{
}

/// The derived authority corresponds to no user key.
pub proof fn lemma_derived_authority_is_no_user(u: u64)
    ensures
        Authority::Derived != Authority::User(u),
{
}

} // verus!
