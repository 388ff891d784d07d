//! The escrow state machine.
//!
//! One ledger holds the token accounts and the live escrow records. A
//! depositor creates an escrow, which moves the locked amount into a
//! vault controlled only by the derived authority; afterwards exactly one
//! of two terminal transitions can ever run: `release`, which pays the
//! receiver at a chosen slot, or `reclaim`, which returns the funds to
//! the depositor. Which side of the deadline admits `release` is a
//! configuration choice; `reclaim` always demands a matured escrow.
//! Every transition validates fully before it moves anything, and each
//! terminal transition closes the record and the vault, so a racing
//! second transition finds no record.
//!
//! The contracts equate each operation with a transition function on the
//! ledger's mathematical image, so callers know the exact result and the
//! exact post-state for every input.

use vstd::prelude::*;

use crate::assoc::keys_distinct;
use crate::assoc::lemma_map_of_domain;
use crate::assoc::lemma_map_of_index;
use crate::assoc::lemma_map_of_push;
use crate::assoc::lemma_map_of_remove;
use crate::assoc::map_of;
use crate::bank::credit_outcome;
use crate::bank::Bank;
use crate::error::EscrowError;
use crate::state::escrow_address;
use crate::state::vault_address;
use crate::state::derive_authority;
use crate::state::derive_escrow_address;
use crate::state::derive_vault_address;
use crate::state::Authority;
use crate::state::Escrow;
use crate::state::EscrowId;
use crate::state::TokenAccount;
use crate::state::TokenAccountId;
use crate::DEADLINE;
use crate::MAX_RECEIVERS;

verus! {

/// Which side of the deadline admits `release`. `reclaim` always
/// demands `now` at or past the deadline.
#[derive(Clone, Copy, Debug, PartialEq, Eq, Structural)]
pub enum TimingPolicy {
    /// A receiver collects early; past the deadline only the depositor
    /// can move the funds.
    ReleaseBeforeDeadline,
    /// Release and reclaim both wait for maturity; whichever runs first
    /// wins the funds.
    ReleaseAfterDeadline,
}

/// The instant from which an escrow's terminal transitions are gated.
pub open spec fn deadline_of(start_time: i64) -> int {
    start_time + DEADLINE
}

/// Whether `release` is admitted at `now` under the configured policy.
pub open spec fn release_window_open(policy: TimingPolicy, now: i64, start_time: i64) -> bool {
    match policy {
        TimingPolicy::ReleaseBeforeDeadline => now < deadline_of(start_time),
        TimingPolicy::ReleaseAfterDeadline => now >= deadline_of(start_time),
    }
}

/// Whether `reclaim` is admitted at `now`: only once the escrow matured.
pub open spec fn reclaim_window_open(now: i64, start_time: i64) -> bool {
    now >= deadline_of(start_time)
}

/// The mathematical image of the whole ledger.
#[verifier::ext_equal]
pub ghost struct LedgerView {
    pub policy: TimingPolicy,
    pub admin: u64,
    pub accounts: Map<TokenAccountId, TokenAccount>,
    pub escrows: Map<EscrowId, Escrow>,
}

/// What must hold of one live escrow record: it matches its address, it
/// locks a positive amount for at least one and at most `MAX_RECEIVERS`
/// receivers, its deadline fits the clock's range, and its vault exists,
/// is controlled only by the derived authority, and holds exactly the
/// locked amount.
pub open spec fn escrow_entry_ok(v: LedgerView, id: EscrowId) -> bool {
    let r = v.escrows[id];
    let vid = vault_address(id.initializer, id.mint);
    &&& r.initializer == id.initializer
    &&& r.mint == id.mint
    &&& r.amount > 0
    &&& 1 <= r.receiver@.len() <= MAX_RECEIVERS
    &&& r.start_time <= i64::MAX - DEADLINE
    &&& v.accounts.contains_key(vid)
    &&& v.accounts[vid] == (TokenAccount {
        owner: Authority::Derived,
        mint: id.mint,
        amount: r.amount,
    })
}

/// The ledger invariant: every live record is bound one-to-one to a
/// full vault, every vault account belongs to a live record, and every
/// user-created account is owned by a user key, never by the derived
/// authority.
pub open spec fn inv(v: LedgerView) -> bool {
    &&& forall|id: EscrowId| #[trigger] v.escrows.contains_key(id) ==> escrow_entry_ok(v, id)
    &&& forall|i: u64, m: u64|
        #[trigger] v.accounts.contains_key(TokenAccountId::Vault(i, m)) ==> v.escrows.contains_key(
            EscrowId { initializer: i, mint: m },
        )
    &&& forall|n: u64|
        #[trigger] v.accounts.contains_key(TokenAccountId::External(n))
            ==> v.accounts[TokenAccountId::External(n)].owner is User
}

/// What `create_escrow` returns and the ledger it leaves, for every
/// input: the exact error for each refused input (checked in this
/// order), and on success the new record, the drained source account,
/// and the freshly funded vault.
pub open spec fn create_outcome(
    v: LedgerView,
    depositor: u64,
    mint: u64,
    amount: u64,
    receiver: Vec<u64>,
    start_time: i64,
    deposit_account: u64,
) -> (Result<EscrowId, EscrowError>, LedgerView) {
    let eid = escrow_address(depositor, mint);
    let vid = vault_address(depositor, mint);
    let dep = TokenAccountId::External(deposit_account);
    if amount == 0 {
        (Err(EscrowError::InvalidAmount), v)
    } else if receiver@.len() < 1 || receiver@.len() > MAX_RECEIVERS {
        (Err(EscrowError::InvalidReceiverCount), v)
    } else if v.escrows.contains_key(eid) {
        (Err(EscrowError::RecordAlreadyExists), v)
    } else if !v.accounts.contains_key(dep) {
        (Err(EscrowError::RecordNotFound), v)
    } else if v.accounts[dep].owner != Authority::User(depositor) {
        (Err(EscrowError::UnauthorizedCaller), v)
    } else if v.accounts[dep].mint != mint {
        (Err(EscrowError::MintMismatch), v)
    } else if v.accounts[dep].amount < amount {
        (Err(EscrowError::InsufficientFunds), v)
    } else {
        let record = Escrow { initializer: depositor, receiver, mint, amount, start_time };
        let drained = TokenAccount {
            owner: v.accounts[dep].owner,
            mint: v.accounts[dep].mint,
            amount: (v.accounts[dep].amount - amount) as u64,
        };
        let vault = TokenAccount { owner: Authority::Derived, mint, amount };
        (
            Ok(eid),
            LedgerView {
                accounts: v.accounts.insert(dep, drained).insert(vid, vault),
                escrows: v.escrows.insert(eid, record),
                ..v
            },
        )
    }
}

/// What `release` returns and the ledger it leaves, for every input: the
/// exact error for each refused input (checked in this order), and on
/// success the paid receiver account with the record and vault gone.
pub open spec fn release_outcome(
    v: LedgerView,
    escrow_id: EscrowId,
    receiver_index: usize,
    caller: u64,
    receiver_account: u64,
    now: i64,
) -> (Result<(), EscrowError>, LedgerView) {
    let recv = TokenAccountId::External(receiver_account);
    let vid = vault_address(escrow_id.initializer, escrow_id.mint);
    if !v.escrows.contains_key(escrow_id) {
        (Err(EscrowError::RecordNotFound), v)
    } else {
        let r = v.escrows[escrow_id];
        if receiver_index >= r.receiver@.len() {
            (Err(EscrowError::UnauthorizedCaller), v)
        } else {
            let slot = r.receiver@[receiver_index as int];
            if caller != slot && caller != v.admin {
                (Err(EscrowError::UnauthorizedCaller), v)
            } else if !release_window_open(v.policy, now, r.start_time) {
                (Err(EscrowError::InvalidTiming), v)
            } else if !v.accounts.contains_key(recv) {
                (Err(EscrowError::RecordNotFound), v)
            } else if v.accounts[recv].owner != Authority::User(slot) {
                (Err(EscrowError::UnauthorizedCaller), v)
            } else if v.accounts[recv].mint != r.mint {
                (Err(EscrowError::MintMismatch), v)
            } else if v.accounts[recv].amount + r.amount > u64::MAX {
                (Err(EscrowError::BalanceOverflow), v)
            } else {
                let credited = TokenAccount {
                    owner: v.accounts[recv].owner,
                    mint: v.accounts[recv].mint,
                    amount: (v.accounts[recv].amount + r.amount) as u64,
                };
                (
                    Ok(()),
                    LedgerView {
                        accounts: v.accounts.insert(recv, credited).remove(vid),
                        escrows: v.escrows.remove(escrow_id),
                        ..v
                    },
                )
            }
        }
    }
}

/// What `reclaim` returns and the ledger it leaves, for every input: the
/// exact error for each refused input (checked in this order), and on
/// success the refunded depositor account with the record and vault gone.
pub open spec fn reclaim_outcome(
    v: LedgerView,
    escrow_id: EscrowId,
    caller: u64,
    deposit_account: u64,
    now: i64,
) -> (Result<(), EscrowError>, LedgerView) {
    let dep = TokenAccountId::External(deposit_account);
    let vid = vault_address(escrow_id.initializer, escrow_id.mint);
    if !v.escrows.contains_key(escrow_id) {
        (Err(EscrowError::RecordNotFound), v)
    } else {
        let r = v.escrows[escrow_id];
        if caller != r.initializer {
            (Err(EscrowError::UnauthorizedCaller), v)
        } else if !reclaim_window_open(now, r.start_time) {
            (Err(EscrowError::InvalidTiming), v)
        } else if !v.accounts.contains_key(dep) {
            (Err(EscrowError::RecordNotFound), v)
        } else if v.accounts[dep].owner != Authority::User(caller) {
            (Err(EscrowError::UnauthorizedCaller), v)
        } else if v.accounts[dep].mint != r.mint {
            (Err(EscrowError::MintMismatch), v)
        } else if v.accounts[dep].amount + r.amount > u64::MAX {
            (Err(EscrowError::BalanceOverflow), v)
        } else {
            let credited = TokenAccount {
                owner: v.accounts[dep].owner,
                mint: v.accounts[dep].mint,
                amount: (v.accounts[dep].amount + r.amount) as u64,
            };
            (
                Ok(()),
                LedgerView {
                    accounts: v.accounts.insert(dep, credited).remove(vid),
                    escrows: v.escrows.remove(escrow_id),
                    ..v
                },
            )
        }
    }
}

/// The ledger: configuration, token accounts, and live escrow records.
pub struct EscrowLedger {
    policy: TimingPolicy,
    admin: u64,
    bank: Bank,
    escrows: Vec<(EscrowId, Escrow)>,
}

impl View for EscrowLedger {
    type V = LedgerView;

    closed spec fn view(&self) -> LedgerView {
        LedgerView {
            policy: self.policy,
            admin: self.admin,
            accounts: self.bank@,
            escrows: map_of(self.escrows@),
        }
    }
}

impl EscrowLedger {
    /// The stored records carry distinct addresses and the invariant
    /// holds of the denoted maps.
    pub closed spec fn wf_storage(self) -> bool {
        &&& self.bank.wf()
        &&& keys_distinct(self.escrows@)
    }

    /// Well-formedness: the constructor establishes it and every
    /// operation preserves it.
    pub open spec fn wf(self) -> bool {
        &&& self.wf_storage()
        &&& inv(self@)
    }

    /// An empty ledger under the given release policy and administrator.
    pub fn new(policy: TimingPolicy, admin: u64) -> (s: EscrowLedger)
        ensures
            s.wf(),
            s@.policy == policy,
            s@.admin == admin,
            s@.accounts == Map::<TokenAccountId, TokenAccount>::empty(),
            s@.escrows == Map::<EscrowId, Escrow>::empty(),
    {
        let s = EscrowLedger { policy, admin, bank: Bank::new(), escrows: Vec::new() };
        proof {
            assert(map_of(s.escrows@) =~= Map::<EscrowId, Escrow>::empty());
        }
        s
    }

    /// Where the record for an address sits, if anywhere.
    fn escrow_position(&self, id: EscrowId) -> (r: Option<usize>)
        ensures
            match r {
                Some(i) => i < self.escrows@.len() && self.escrows@[i as int].0 == id,
                None => forall|j: int| 0 <= j < self.escrows@.len() ==> self.escrows@[j].0 != id,
            },
    {
        let mut i: usize = 0;
        while i < self.escrows.len()
            invariant
                i <= self.escrows@.len(),
                forall|j: int| 0 <= j < i ==> self.escrows@[j].0 != id,
            decreases self.escrows@.len() - i,
        {
            if self.escrows[i].0 == id {
                return Some(i);
            }
            i = i + 1;
        }
        None
    }

    /// The configured release gating.
    pub fn timing_policy(&self) -> (r: TimingPolicy)
        ensures
            r == self@.policy,
    {
        self.policy
    }

    /// The administrator allowed to trigger a payout to a receiver slot.
    pub fn admin_id(&self) -> (r: u64)
        ensures
            r == self@.admin,
    {
        self.admin
    }

    /// The token account at an address, if one exists.
    pub fn get_account(&self, id: TokenAccountId) -> (r: Option<TokenAccount>)
        requires
            self.wf(),
        ensures
            self@.accounts.contains_key(id) ==> r == Some(self@.accounts[id]),
            !self@.accounts.contains_key(id) ==> r is None,
    {
        self.bank.get(id)
    }

    /// The balance at an address, if an account exists there.
    pub fn balance_of(&self, id: TokenAccountId) -> (r: Option<u64>)
        requires
            self.wf(),
        ensures
            self@.accounts.contains_key(id) ==> r == Some(self@.accounts[id].amount),
            !self@.accounts.contains_key(id) ==> r is None,
    {
        match self.bank.get(id) {
            Some(a) => Some(a.amount),
            None => None,
        }
    }

    /// Whether a live record sits at an address.
    pub fn has_escrow(&self, id: EscrowId) -> (r: bool)
        ensures
            r == self@.escrows.contains_key(id),
    {
        proof {
            lemma_map_of_domain(self.escrows@);
        }
        self.escrow_position(id).is_some()
    }

    /// The live record at an address, if any.
    pub fn get_escrow(&self, id: EscrowId) -> (r: Option<&Escrow>)
        requires
            self.wf(),
        ensures
            match r {
                Some(e) => self@.escrows.contains_key(id) && *e == self@.escrows[id],
                None => !self@.escrows.contains_key(id),
            },
    {
        proof {
            lemma_map_of_domain(self.escrows@);
        }
        match self.escrow_position(id) {
            Some(i) => {
                proof {
                    lemma_map_of_index(self.escrows@, i as int);
                }
                Some(&self.escrows[i].1)
            },
            None => None,
        }
    }

    /// Opens an empty user-owned token account under a caller-chosen
    /// identifier; refused if the identifier is taken.
    pub fn open_account(&mut self, id: u64, owner: u64, mint: u64) -> (r: Result<
        (),
        EscrowError,
    >)
        requires
            old(self).wf(),
        ensures
            final(self).wf(),
            final(self)@.policy == old(self)@.policy,
            final(self)@.admin == old(self)@.admin,
            final(self)@.escrows == old(self)@.escrows,
            old(self)@.accounts.contains_key(TokenAccountId::External(id)) ==> r == Err::<
                (),
                EscrowError,
            >(EscrowError::RecordAlreadyExists) && final(self)@ == old(self)@,
            !old(self)@.accounts.contains_key(TokenAccountId::External(id)) ==> r == Ok::<
                (),
                EscrowError,
            >(()) && final(self)@.accounts == old(self)@.accounts.insert(
                TokenAccountId::External(id),
                (TokenAccount { owner: Authority::User(owner), mint, amount: 0 }),
            ),
    {
        let aid = TokenAccountId::External(id);
        if self.bank.contains(aid) {
            return Err(EscrowError::RecordAlreadyExists);
        }
        self.bank.open_at(aid, Authority::User(owner), mint);
        proof {
            assert(inv(self@)) by {
                lemma_preserves_inv_external_touch(old(self)@, self@);
            }
        }
        Ok(())
    }

    /// Mints new units into a user-created account; models the asset
    /// issuer funding a depositor before an escrow is set up.
    pub fn mint_to(&mut self, account: u64, amount: u64) -> (r: Result<(), EscrowError>)
        requires
            old(self).wf(),
        ensures
            final(self).wf(),
            final(self)@.policy == old(self)@.policy,
            final(self)@.admin == old(self)@.admin,
            final(self)@.escrows == old(self)@.escrows,
            r == credit_outcome(
                old(self)@.accounts,
                TokenAccountId::External(account),
                amount,
            ).0,
            final(self)@.accounts == credit_outcome(
                old(self)@.accounts,
                TokenAccountId::External(account),
                amount,
            ).1,
    {
        let r = self.bank.credit(TokenAccountId::External(account), amount);
        proof {
            assert(inv(self@)) by {
                lemma_preserves_inv_external_touch(old(self)@, self@);
            }
        }
        r
    }

    /// Creates an escrow: records the agreement and moves `amount` from
    /// the depositor's source account into the fresh vault, authorized by
    /// the depositor's own signature. Refused inputs leave the ledger
    /// untouched and report why, as `create_outcome` states.
    pub fn create_escrow(
        &mut self,
        depositor: u64,
        mint: u64,
        amount: u64,
        receiver: Vec<u64>,
        start_time: i64,
        deposit_account: u64,
    ) -> (r: Result<EscrowId, EscrowError>)
        requires
            old(self).wf(),
            start_time <= i64::MAX - DEADLINE,
        ensures
            final(self).wf(),
            r == create_outcome(
                old(self)@,
                depositor,
                mint,
                amount,
                receiver,
                start_time,
                deposit_account,
            ).0,
            final(self)@ == create_outcome(
                old(self)@,
                depositor,
                mint,
                amount,
                receiver,
                start_time,
                deposit_account,
            ).1,
    {
        let eid = derive_escrow_address(depositor, mint);
        let vid = derive_vault_address(depositor, mint);
        let dep = TokenAccountId::External(deposit_account);
        if amount == 0 {
            return Err(EscrowError::InvalidAmount);
        }
        if receiver.len() < 1 || receiver.len() > MAX_RECEIVERS {
            return Err(EscrowError::InvalidReceiverCount);
        }
        proof {
            lemma_map_of_domain(self.escrows@);
        }
        if self.escrow_position(eid).is_some() {
            return Err(EscrowError::RecordAlreadyExists);
        }
        let dep_acct = match self.bank.get(dep) {
            Some(a) => a,
            None => {
                return Err(EscrowError::RecordNotFound);
            },
        };
        if dep_acct.owner != Authority::User(depositor) {
            return Err(EscrowError::UnauthorizedCaller);
        }
        if dep_acct.mint != mint {
            return Err(EscrowError::MintMismatch);
        }
        if dep_acct.amount < amount {
            return Err(EscrowError::InsufficientFunds);
        }
        proof {
            assert(!old(self)@.accounts.contains_key(vid));
        }
        self.bank.open_at(vid, Authority::Derived, mint);
        let tr = self.bank.transfer(dep, vid, Authority::User(depositor), amount);
        proof {
            assert(tr == Ok::<(), EscrowError>(()));
        }
        let ghost pre_push = self.escrows@;
        let record = Escrow { initializer: depositor, receiver, mint, amount, start_time };
        proof {
            lemma_map_of_push(pre_push, eid, record);
        }
        self.escrows.push((eid, record));
        proof {
            assert(keys_distinct(self.escrows@)) by {
                assert(forall|j: int| 0 <= j < pre_push.len() ==> pre_push[j].0 != eid);
                assert(forall|j: int|
                    0 <= j < pre_push.len() ==> self.escrows@[j] == pre_push[j]);
            }
            let target = create_outcome(
                old(self)@,
                depositor,
                mint,
                amount,
                record.receiver,
                start_time,
                deposit_account,
            ).1;
            assert(self@.accounts =~= target.accounts);
            assert(self@.escrows =~= target.escrows);
            assert(self@ =~= target);
            lemma_create_preserves_inv(
                old(self)@,
                depositor,
                mint,
                amount,
                record.receiver,
                start_time,
                deposit_account,
            );
        }
        Ok(eid)
    }

    /// Pays the full locked amount from the vault to the receiver at the
    /// given slot, signed by the derived authority, and closes the record
    /// and the vault. The caller must be that receiver or the
    /// administrator, inside the configured release window. Refused
    /// inputs leave the ledger untouched, as `release_outcome` states.
    pub fn release(
        &mut self,
        escrow_id: EscrowId,
        receiver_index: usize,
        caller: u64,
        receiver_account: u64,
        now: i64,
    ) -> (r: Result<(), EscrowError>)
        requires
            old(self).wf(),
        ensures
            final(self).wf(),
            r == release_outcome(
                old(self)@,
                escrow_id,
                receiver_index,
                caller,
                receiver_account,
                now,
            ).0,
            final(self)@ == release_outcome(
                old(self)@,
                escrow_id,
                receiver_index,
                caller,
                receiver_account,
                now,
            ).1,
    {
        proof {
            lemma_map_of_domain(self.escrows@);
        }
        let pos = match self.escrow_position(escrow_id) {
            Some(i) => i,
            None => {
                return Err(EscrowError::RecordNotFound);
            },
        };
        proof {
            lemma_map_of_index(self.escrows@, pos as int);
        }
        if receiver_index >= self.escrows[pos].1.receiver.len() {
            return Err(EscrowError::UnauthorizedCaller);
        }
        let slot = self.escrows[pos].1.receiver[receiver_index];
        if caller != slot && caller != self.admin {
            return Err(EscrowError::UnauthorizedCaller);
        }
        let start_time = self.escrows[pos].1.start_time;
        let deadline = start_time + DEADLINE;
        let window_open = match self.policy {
            TimingPolicy::ReleaseBeforeDeadline => now < deadline,
            TimingPolicy::ReleaseAfterDeadline => now >= deadline,
        };
        if !window_open {
            return Err(EscrowError::InvalidTiming);
        }
        let recv = TokenAccountId::External(receiver_account);
        let racct = match self.bank.get(recv) {
            Some(a) => a,
            None => {
                return Err(EscrowError::RecordNotFound);
            },
        };
        if racct.owner != Authority::User(slot) {
            return Err(EscrowError::UnauthorizedCaller);
        }
        let locked = self.escrows[pos].1.amount;
        if racct.mint != self.escrows[pos].1.mint {
            return Err(EscrowError::MintMismatch);
        }
        if locked > u64::MAX - racct.amount {
            return Err(EscrowError::BalanceOverflow);
        }
        let vid = derive_vault_address(escrow_id.initializer, escrow_id.mint);
        let tr = self.bank.transfer(vid, recv, derive_authority(), locked);
        proof {
            assert(tr == Ok::<(), EscrowError>(()));
        }
        self.bank.close_at(vid);
        proof {
            lemma_map_of_remove(self.escrows@, pos as int);
        }
        self.escrows.remove(pos);
        proof {
            let target = release_outcome(
                old(self)@,
                escrow_id,
                receiver_index,
                caller,
                receiver_account,
                now,
            ).1;
            assert(self@.accounts =~= target.accounts);
            assert(self@.escrows =~= target.escrows);
            assert(self@ =~= target);
            lemma_close_preserves_inv(old(self)@, self@, escrow_id, receiver_account);
        }
        Ok(())
    }

    /// Returns the full locked amount from the vault to the depositor,
    /// signed by the derived authority, and closes the record and the
    /// vault. Only the depositor may call it, and only once the escrow
    /// matured. Refused inputs leave the ledger untouched, as
    /// `reclaim_outcome` states.
    pub fn reclaim(
        &mut self,
        escrow_id: EscrowId,
        caller: u64,
        deposit_account: u64,
        now: i64,
    ) -> (r: Result<(), EscrowError>)
        requires
            old(self).wf(),
        ensures
            final(self).wf(),
            r == reclaim_outcome(old(self)@, escrow_id, caller, deposit_account, now).0,
            final(self)@ == reclaim_outcome(old(self)@, escrow_id, caller, deposit_account, now).1,
    {
        proof {
            lemma_map_of_domain(self.escrows@);
        }
        let pos = match self.escrow_position(escrow_id) {
            Some(i) => i,
            None => {
                return Err(EscrowError::RecordNotFound);
            },
        };
        proof {
            lemma_map_of_index(self.escrows@, pos as int);
        }
        if caller != self.escrows[pos].1.initializer {
            return Err(EscrowError::UnauthorizedCaller);
        }
        let start_time = self.escrows[pos].1.start_time;
        if now < start_time + DEADLINE {
            return Err(EscrowError::InvalidTiming);
        }
        let dep = TokenAccountId::External(deposit_account);
        let dacct = match self.bank.get(dep) {
            Some(a) => a,
            None => {
                return Err(EscrowError::RecordNotFound);
            },
        };
        if dacct.owner != Authority::User(caller) {
            return Err(EscrowError::UnauthorizedCaller);
        }
        let locked = self.escrows[pos].1.amount;
        if dacct.mint != self.escrows[pos].1.mint {
            return Err(EscrowError::MintMismatch);
        }
        if locked > u64::MAX - dacct.amount {
            return Err(EscrowError::BalanceOverflow);
        }
        let vid = derive_vault_address(escrow_id.initializer, escrow_id.mint);
        let tr = self.bank.transfer(vid, dep, derive_authority(), locked);
        proof {
            assert(tr == Ok::<(), EscrowError>(()));
        }
        self.bank.close_at(vid);
        proof {
            lemma_map_of_remove(self.escrows@, pos as int);
        }
        self.escrows.remove(pos);
        proof {
            let target = reclaim_outcome(old(self)@, escrow_id, caller, deposit_account, now).1;
            assert(self@.accounts =~= target.accounts);
            assert(self@.escrows =~= target.escrows);
            assert(self@ =~= target);
            lemma_close_preserves_inv(old(self)@, self@, escrow_id, deposit_account);
        }
        Ok(())
    }
}

/// A change that only touches user-created accounts and neither removes
/// one nor hands one to a non-user owner keeps the invariant: no vault
/// and no record moved.
proof fn lemma_preserves_inv_external_touch(v0: LedgerView, v1: LedgerView)
    requires
        inv(v0),
        v1.escrows == v0.escrows,
        forall|i: u64, m: u64|
            #[trigger] v1.accounts.contains_key(TokenAccountId::Vault(i, m))
                == v0.accounts.contains_key(TokenAccountId::Vault(i, m)),
        forall|i: u64, m: u64|
            #[trigger] v0.accounts.contains_key(TokenAccountId::Vault(i, m))
                ==> v1.accounts[TokenAccountId::Vault(i, m)] == v0.accounts[TokenAccountId::Vault(
                i,
                m,
            )],
        forall|n: u64|
            #[trigger] v1.accounts.contains_key(TokenAccountId::External(n)) ==> v1.accounts[
                TokenAccountId::External(n)].owner is User,
    ensures
        inv(v1),
{
    assert forall|id: EscrowId| #[trigger] v1.escrows.contains_key(id) implies escrow_entry_ok(
        v1,
        id,
    ) by {
        assert(v0.escrows.contains_key(id));
        assert(escrow_entry_ok(v0, id));
        assert(v0.accounts.contains_key(TokenAccountId::Vault(id.initializer, id.mint)));
    }
}

/// A successful creation keeps the invariant: the new record's vault is
/// fresh, full, and derived-owned, and no other record's vault moved.
proof fn lemma_create_preserves_inv(
    v: LedgerView,
    depositor: u64,
    mint: u64,
    amount: u64,
    receiver: Vec<u64>,
    start_time: i64,
    deposit_account: u64,
)
    requires
        inv(v),
        start_time <= i64::MAX - DEADLINE,
        create_outcome(v, depositor, mint, amount, receiver, start_time, deposit_account).0 is Ok,
    ensures
        inv(create_outcome(v, depositor, mint, amount, receiver, start_time, deposit_account).1),
{
    let v1 = create_outcome(v, depositor, mint, amount, receiver, start_time, deposit_account).1;
    let eid = escrow_address(depositor, mint);
    let vid = vault_address(depositor, mint);
    let dep = TokenAccountId::External(deposit_account);
    assert forall|id: EscrowId| #[trigger] v1.escrows.contains_key(id) implies escrow_entry_ok(
        v1,
        id,
    ) by {
        if id == eid {
            assert(v1.accounts.contains_key(vid));
        } else {
            assert(v.escrows.contains_key(id));
            assert(escrow_entry_ok(v, id));
            let ovid = vault_address(id.initializer, id.mint);
            assert(ovid != vid);
            assert(ovid != dep);
            assert(v1.accounts[ovid] == v.accounts[ovid]);
        }
    }
    assert forall|i: u64, m: u64| #[trigger] v1.accounts.contains_key(
        TokenAccountId::Vault(i, m),
    ) implies v1.escrows.contains_key(EscrowId { initializer: i, mint: m }) by {
        if TokenAccountId::Vault(i, m) != vid {
            assert(v.accounts.contains_key(TokenAccountId::Vault(i, m)));
        }
    }
    assert forall|n: u64| #[trigger] v1.accounts.contains_key(
        TokenAccountId::External(n),
    ) implies v1.accounts[TokenAccountId::External(n)].owner is User by {
        if TokenAccountId::External(n) != dep {
            assert(v.accounts.contains_key(TokenAccountId::External(n)));
        }
    }
}

/// A terminal transition keeps the invariant: it removes exactly one
/// record with its vault and credits one user-owned account.
proof fn lemma_close_preserves_inv(
    v0: LedgerView,
    v1: LedgerView,
    escrow_id: EscrowId,
    paid_account: u64,
)
    requires
        inv(v0),
        v0.escrows.contains_key(escrow_id),
        v0.accounts.contains_key(TokenAccountId::External(paid_account)),
        v1.escrows == v0.escrows.remove(escrow_id),
        ({
            let recv = TokenAccountId::External(paid_account);
            let vid = vault_address(escrow_id.initializer, escrow_id.mint);
            let credited = TokenAccount {
                owner: v0.accounts[recv].owner,
                mint: v0.accounts[recv].mint,
                amount: (v0.accounts[recv].amount + v0.escrows[escrow_id].amount) as u64,
            };
            v1.accounts == v0.accounts.insert(recv, credited).remove(vid)
        }),
    ensures
        inv(v1),
{
    let recv = TokenAccountId::External(paid_account);
    let vid = vault_address(escrow_id.initializer, escrow_id.mint);
    assert forall|id: EscrowId| #[trigger] v1.escrows.contains_key(id) implies escrow_entry_ok(
        v1,
        id,
    ) by {
        assert(id != escrow_id);
        assert(v0.escrows.contains_key(id));
        assert(escrow_entry_ok(v0, id));
        let ovid = vault_address(id.initializer, id.mint);
        assert(ovid != vid);
        assert(ovid != recv);
        assert(v1.accounts[ovid] == v0.accounts[ovid]);
    }
    assert forall|i: u64, m: u64| #[trigger] v1.accounts.contains_key(
        TokenAccountId::Vault(i, m),
    ) implies v1.escrows.contains_key(EscrowId { initializer: i, mint: m }) by {
        assert(TokenAccountId::Vault(i, m) != vid);
        assert(v0.accounts.contains_key(TokenAccountId::Vault(i, m)));
        assert(v0.escrows.contains_key(EscrowId { initializer: i, mint: m }));
        assert(EscrowId { initializer: i, mint: m } != escrow_id);
    }
    assert forall|n: u64| #[trigger] v1.accounts.contains_key(
        TokenAccountId::External(n),
    ) implies v1.accounts[TokenAccountId::External(n)].owner is User by {
        if TokenAccountId::External(n) != recv {
            assert(v0.accounts.contains_key(TokenAccountId::External(n)));
        }
    }
}

} // verus!
