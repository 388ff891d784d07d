//! The custodial token ledger the escrow machine drives.
//!
//! This models the asset-transfer collaborator: a set of token accounts,
//! each with a controlling signer, an asset, and a balance, with a
//! `transfer` that moves funds atomically and fails — touching nothing —
//! when the signer does not control the source, the assets differ, the
//! source balance is too low, or the destination would overflow.

use vstd::prelude::*;

use crate::assoc::keys_distinct;
use crate::assoc::lemma_map_of_domain;
use crate::assoc::lemma_map_of_index;
use crate::assoc::lemma_map_of_push;
use crate::assoc::lemma_map_of_remove;
use crate::assoc::lemma_map_of_update;
use crate::assoc::map_of;
use crate::error::EscrowError;
use crate::state::Authority;
use crate::state::TokenAccount;
use crate::state::TokenAccountId;

verus! {

/// All token accounts, keyed by address.
pub struct Bank {
    accounts: Vec<(TokenAccountId, TokenAccount)>,
}

impl View for Bank {
    type V = Map<TokenAccountId, TokenAccount>;

    closed spec fn view(&self) -> Map<TokenAccountId, TokenAccount> {
        map_of(self.accounts@)
    }
}

/// What `transfer` returns and what the ledger holds afterwards, for
/// every argument: checks run in this order, and a refused transfer
/// leaves every balance as it was.
pub open spec fn transfer_outcome(
    m: Map<TokenAccountId, TokenAccount>,
    from: TokenAccountId,
    to: TokenAccountId,
    authority: Authority,
    amount: u64,
) -> (Result<(), EscrowError>, Map<TokenAccountId, TokenAccount>) {
    if !m.contains_key(from) || !m.contains_key(to) {
        (Err(EscrowError::RecordNotFound), m)
    } else if m[from].owner != authority {
        (Err(EscrowError::UnauthorizedCaller), m)
    } else if m[from].mint != m[to].mint {
        (Err(EscrowError::MintMismatch), m)
    } else if m[from].amount < amount {
        (Err(EscrowError::InsufficientFunds), m)
    } else if from == to {
        (Ok(()), m)
    } else if m[to].amount + amount > u64::MAX {
        (Err(EscrowError::BalanceOverflow), m)
    } else {
        let drained = TokenAccount {
            owner: m[from].owner,
            mint: m[from].mint,
            amount: (m[from].amount - amount) as u64,
        };
        let credited = TokenAccount {
            owner: m[to].owner,
            mint: m[to].mint,
            amount: (m[to].amount + amount) as u64,
        };
        (Ok(()), m.insert(from, drained).insert(to, credited))
    }
}

/// What `credit` returns and what the ledger holds afterwards.
pub open spec fn credit_outcome(
    m: Map<TokenAccountId, TokenAccount>,
    id: TokenAccountId,
    amount: u64,
) -> (Result<(), EscrowError>, Map<TokenAccountId, TokenAccount>) {
    if !m.contains_key(id) {
        (Err(EscrowError::RecordNotFound), m)
    } else if m[id].amount + amount > u64::MAX {
        (Err(EscrowError::BalanceOverflow), m)
    } else {
        let credited = TokenAccount {
            owner: m[id].owner,
            mint: m[id].mint,
            amount: (m[id].amount + amount) as u64,
        };
        (Ok(()), m.insert(id, credited))
    }
}

impl Bank {
    /// The stored pairs carry distinct addresses, so they denote a map.
    pub closed spec fn wf(self) -> bool {
        keys_distinct(self.accounts@)
    }

    /// An empty ledger.
    pub fn new() -> (b: Bank)
        ensures
            b.wf(),
            b@ == Map::<TokenAccountId, TokenAccount>::empty(),
    {
        Bank { accounts: Vec::new() }
    }

    /// Where the entry for an address sits, if anywhere.
    fn position_of(&self, id: TokenAccountId) -> (r: Option<usize>)
        ensures
            match r {
                Some(i) => i < self.accounts@.len() && self.accounts@[i as int].0 == id,
                None => forall|j: int| 0 <= j < self.accounts@.len() ==> self.accounts@[j].0 != id,
            },
    {
        let mut i: usize = 0;
        while i < self.accounts.len()
            invariant
                i <= self.accounts@.len(),
                forall|j: int| 0 <= j < i ==> self.accounts@[j].0 != id,
            decreases self.accounts@.len() - i,
        {
            if self.accounts[i].0 == id {
                return Some(i);
            }
            i = i + 1;
        }
        None
    }

    /// The account at an address, if one exists.
    pub fn get(&self, id: TokenAccountId) -> (r: Option<TokenAccount>)
        requires
            self.wf(),
        ensures
            self@.contains_key(id) ==> r == Some(self@[id]),
            !self@.contains_key(id) ==> r is None,
    {
        proof {
            lemma_map_of_domain(self.accounts@);
        }
        match self.position_of(id) {
            Some(i) => {
                proof {
                    lemma_map_of_index(self.accounts@, i as int);
                }
                Some(self.accounts[i].1)
            },
            None => None,
        }
    }

    /// Whether an account exists at an address.
    pub fn contains(&self, id: TokenAccountId) -> (r: bool)
        ensures
            r == self@.contains_key(id),
    {
        proof {
            lemma_map_of_domain(self.accounts@);
        }
        self.position_of(id).is_some()
    }

    /// Creates an empty account at a fresh address.
    pub(crate) fn open_at(&mut self, id: TokenAccountId, owner: Authority, mint: u64)
        requires
            old(self).wf(),
            !old(self)@.contains_key(id),
        ensures
            final(self).wf(),
            final(self)@ == old(self)@.insert(id, (TokenAccount { owner, mint, amount: 0 })),
    {
        let acct = TokenAccount { owner, mint, amount: 0 };
        proof {
            lemma_map_of_domain(self.accounts@);
            lemma_map_of_push(self.accounts@, id, acct);
            assert forall|p: int, q: int|
                0 <= p < q < self.accounts@.push((id, acct)).len() implies self.accounts@.push(
                (id, acct),
            )[p].0 != self.accounts@.push((id, acct))[q].0 by {
                if q < self.accounts@.len() {
                    assert(self.accounts@[p].0 != self.accounts@[q].0);
                } else {
                    assert(self.accounts@[p].0 != id);
                }
            }
        }
        self.accounts.push((id, acct));
    }

    /// Removes the drained account at an address.
    pub(crate) fn close_at(&mut self, id: TokenAccountId)
        requires
            old(self).wf(),
            old(self)@.contains_key(id),
            old(self)@[id].amount == 0,
        ensures
            final(self).wf(),
            final(self)@ == old(self)@.remove(id),
    {
        proof {
            lemma_map_of_domain(self.accounts@);
        }
        let pos = self.position_of(id);
        match pos {
            Some(i) => {
                proof {
                    lemma_map_of_remove(self.accounts@, i as int);
                }
                self.accounts.remove(i);
            },
            None => {
                proof {
                    assert(false);
                }
            },
        }
    }

    /// Mints new units into an existing account; models the asset
    /// issuer's deposit used to fund a depositor before an escrow.
    pub fn credit(&mut self, id: TokenAccountId, amount: u64) -> (r: Result<(), EscrowError>)
        requires
            old(self).wf(),
        ensures
            final(self).wf(),
            r == credit_outcome(old(self)@, id, amount).0,
            final(self)@ == credit_outcome(old(self)@, id, amount).1,
    {
        proof {
            lemma_map_of_domain(self.accounts@);
        }
        let pos = self.position_of(id);
        match pos {
            Some(i) => {
                proof {
                    lemma_map_of_index(self.accounts@, i as int);
                }
                let acct = self.accounts[i].1;
                if amount > u64::MAX - acct.amount {
                    Err(EscrowError::BalanceOverflow)
                } else {
                    let credited = TokenAccount {
                        owner: acct.owner,
                        mint: acct.mint,
                        amount: acct.amount + amount,
                    };
                    proof {
                        lemma_map_of_update(self.accounts@, i as int, credited);
                    }
                    self.accounts.set(i, (id, credited));
                    Ok(())
                }
            },
            None => Err(EscrowError::RecordNotFound),
        }
    }

    /// Moves `amount` between two accounts, authorized by the source
    /// account's controlling signer; on any refusal nothing changes.
    pub fn transfer(
        &mut self,
        from: TokenAccountId,
        to: TokenAccountId,
        authority: Authority,
        amount: u64,
    ) -> (r: Result<(), EscrowError>)
        requires
            old(self).wf(),
        ensures
            final(self).wf(),
            r == transfer_outcome(old(self)@, from, to, authority, amount).0,
            final(self)@ == transfer_outcome(old(self)@, from, to, authority, amount).1,
    {
        proof {
            lemma_map_of_domain(self.accounts@);
        }
        let from_pos = self.position_of(from);
        let to_pos = self.position_of(to);
        let (fi, ti) = match (from_pos, to_pos) {
            (Some(fi), Some(ti)) => (fi, ti),
            _ => {
                return Err(EscrowError::RecordNotFound);
            },
        };
        proof {
            lemma_map_of_index(self.accounts@, fi as int);
            lemma_map_of_index(self.accounts@, ti as int);
        }
        let facct = self.accounts[fi].1;
        let tacct = self.accounts[ti].1;
        if facct.owner != authority {
            return Err(EscrowError::UnauthorizedCaller);
        }
        if facct.mint != tacct.mint {
            return Err(EscrowError::MintMismatch);
        }
        if facct.amount < amount {
            return Err(EscrowError::InsufficientFunds);
        }
        if from == to {
            return Ok(());
        }
        if amount > u64::MAX - tacct.amount {
            return Err(EscrowError::BalanceOverflow);
        }
        let drained = TokenAccount {
            owner: facct.owner,
            mint: facct.mint,
            amount: facct.amount - amount,
        };
        let credited = TokenAccount {
            owner: tacct.owner,
            mint: tacct.mint,
            amount: tacct.amount + amount,
        };
        proof {
            assert(fi != ti);
            lemma_map_of_update(self.accounts@, fi as int, drained);
        }
        self.accounts.set(fi, (from, drained));
        proof {
            assert(self.accounts@[ti as int].0 == to);
            lemma_map_of_update(self.accounts@, ti as int, credited);
        }
        self.accounts.set(ti, (to, credited));
        Ok(())
    }
}

} // verus!
