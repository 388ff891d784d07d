//! The escrow machine's governing laws, proved from the transition
//! functions that the operations' contracts equate them with.

use vstd::prelude::*;

use crate::error::EscrowError;
use crate::machine::create_outcome;
use crate::machine::inv;
use crate::machine::release_outcome;
use crate::machine::reclaim_outcome;
use crate::machine::release_window_open;
use crate::machine::reclaim_window_open;
use crate::machine::LedgerView;
use crate::state::escrow_address;
use crate::state::vault_address;
use crate::state::Authority;
use crate::state::EscrowId;
use crate::state::TokenAccount;
use crate::state::TokenAccountId;
use crate::MAX_RECEIVERS;

verus! {

/// The balance an address holds, zero where no account exists.
pub open spec fn balance_at(m: Map<TokenAccountId, TokenAccount>, id: TokenAccountId) -> int {
    if m.contains_key(id) {
        m[id].amount as int
    } else {
        0
    }
}

/// Custody: while a record is live, its vault exists, answers only to
/// the derived authority — never to a user key — and holds exactly the
/// recorded locked amount.
pub proof fn lemma_live_escrow_is_backed(v: LedgerView, id: EscrowId)
    requires
        inv(v),
        v.escrows.contains_key(id),
    ensures
        v.accounts.contains_key(vault_address(id.initializer, id.mint)),
        v.accounts[vault_address(id.initializer, id.mint)].owner == Authority::Derived,
        v.accounts[vault_address(id.initializer, id.mint)].amount == v.escrows[id].amount,
        v.escrows[id].initializer == id.initializer,
        v.escrows[id].mint == id.mint,
{
}

/// Creation is exact: with a valid request — positive amount, a lawful
/// receiver list, a fresh address, and a source account the depositor
/// owns in the right asset — `create_escrow` succeeds if and only if the
/// source balance covers the amount, and then the vault holds exactly
/// the amount while the source lost exactly the amount; with a short
/// balance it reports `InsufficientFunds` and moves nothing.
pub proof fn lemma_create_exact(
    v: LedgerView,
    depositor: u64,
    mint: u64,
    amount: u64,
    receiver: Vec<u64>,
    start_time: i64,
    deposit_account: u64,
)
    requires
        inv(v),
        amount > 0,
        1 <= receiver@.len() <= MAX_RECEIVERS,
        !v.escrows.contains_key(escrow_address(depositor, mint)),
        v.accounts.contains_key(TokenAccountId::External(deposit_account)),
        v.accounts[TokenAccountId::External(deposit_account)].owner == Authority::User(depositor),
        v.accounts[TokenAccountId::External(deposit_account)].mint == mint,
    ensures
        ({
            let r = create_outcome(
                v,
                depositor,
                mint,
                amount,
                receiver,
                start_time,
                deposit_account,
            ).0;
            let v1 = create_outcome(
                v,
                depositor,
                mint,
                amount,
                receiver,
                start_time,
                deposit_account,
            ).1;
            let dep = TokenAccountId::External(deposit_account);
            let vid = vault_address(depositor, mint);
            &&& (r is Ok <==> v.accounts[dep].amount >= amount)
            &&& (r is Ok ==> {
                &&& v1.escrows.contains_key(escrow_address(depositor, mint))
                &&& v1.accounts.contains_key(vid)
                &&& v1.accounts[vid].amount == amount
                &&& v1.accounts[dep].amount == v.accounts[dep].amount - amount
            })
            &&& (v.accounts[dep].amount < amount ==> r == Err::<EscrowId, EscrowError>(
                EscrowError::InsufficientFunds,
            ) && v1 == v)
        }),
{
    let dep = TokenAccountId::External(deposit_account);
    let vid = vault_address(depositor, mint);
    assert(dep != vid);
}

/// Release is gated exactly by the configured window: for a live escrow,
/// a caller holding the targeted slot (or the administrator), and a
/// receiver account that the slot's receiver owns in the escrow's asset
/// with room for the payout, `release` succeeds if and only if `now`
/// lies in the configured window; outside it, it reports
/// `InvalidTiming` and moves nothing. On success the receiver gains
/// exactly the locked amount and record and vault are gone.
pub proof fn lemma_release_exact(
    v: LedgerView,
    escrow_id: EscrowId,
    receiver_index: usize,
    caller: u64,
    receiver_account: u64,
    now: i64,
)
    requires
        inv(v),
        v.escrows.contains_key(escrow_id),
        receiver_index < v.escrows[escrow_id].receiver@.len(),
        caller == v.escrows[escrow_id].receiver@[receiver_index as int] || caller == v.admin,
        v.accounts.contains_key(TokenAccountId::External(receiver_account)),
        v.accounts[TokenAccountId::External(receiver_account)].owner == Authority::User(
            v.escrows[escrow_id].receiver@[receiver_index as int],
        ),
        v.accounts[TokenAccountId::External(receiver_account)].mint == v.escrows[escrow_id].mint,
        v.accounts[TokenAccountId::External(receiver_account)].amount
            + v.escrows[escrow_id].amount <= u64::MAX,
    ensures
        ({
            let r = release_outcome(v, escrow_id, receiver_index, caller, receiver_account, now).0;
            let v1 = release_outcome(v, escrow_id, receiver_index, caller, receiver_account, now).1;
            let recv = TokenAccountId::External(receiver_account);
            let vid = vault_address(escrow_id.initializer, escrow_id.mint);
            &&& (r is Ok <==> release_window_open(v.policy, now, v.escrows[escrow_id].start_time))
            &&& (!release_window_open(v.policy, now, v.escrows[escrow_id].start_time) ==> r
                == Err::<(), EscrowError>(EscrowError::InvalidTiming) && v1 == v)
            &&& (r is Ok ==> {
                &&& v1.accounts[recv].amount == v.accounts[recv].amount
                    + v.escrows[escrow_id].amount
                &&& !v1.escrows.contains_key(escrow_id)
                &&& !v1.accounts.contains_key(vid)
            })
        }),
{
    let recv = TokenAccountId::External(receiver_account);
    let vid = vault_address(escrow_id.initializer, escrow_id.mint);
    assert(recv != vid);
}

/// Reclaim guards its role and its window: for a live escrow, any caller
/// other than the original depositor is refused with
/// `UnauthorizedCaller`, and the depositor before maturity is refused
/// with `InvalidTiming`; either refusal moves nothing.
pub proof fn lemma_reclaim_guards(
    v: LedgerView,
    escrow_id: EscrowId,
    caller: u64,
    deposit_account: u64,
    now: i64,
)
    requires
        inv(v),
        v.escrows.contains_key(escrow_id),
    ensures
        caller != v.escrows[escrow_id].initializer ==> reclaim_outcome(
            v,
            escrow_id,
            caller,
            deposit_account,
            now,
        ) == (Err::<(), EscrowError>(EscrowError::UnauthorizedCaller), v),
        caller == v.escrows[escrow_id].initializer && !reclaim_window_open(
            now,
            v.escrows[escrow_id].start_time,
        ) ==> reclaim_outcome(v, escrow_id, caller, deposit_account, now) == (
            Err::<(), EscrowError>(EscrowError::InvalidTiming),
            v,
        ),
{
}

/// A release can only have paid the targeted slot's receiver: whenever
/// it succeeded, the escrow was live, the slot existed, the caller was
/// that slot's receiver or the administrator, the window was open, and
/// the paid account belonged to the slot's receiver in the escrow's
/// asset. No input outside those guards is ever paid.
pub proof fn lemma_release_success_implies_guards(
    v: LedgerView,
    escrow_id: EscrowId,
    receiver_index: usize,
    caller: u64,
    receiver_account: u64,
    now: i64,
)
    requires
        release_outcome(v, escrow_id, receiver_index, caller, receiver_account, now).0 is Ok,
    ensures
        v.escrows.contains_key(escrow_id),
        receiver_index < v.escrows[escrow_id].receiver@.len(),
        caller == v.escrows[escrow_id].receiver@[receiver_index as int] || caller == v.admin,
        release_window_open(v.policy, now, v.escrows[escrow_id].start_time),
        v.accounts[TokenAccountId::External(receiver_account)].owner == Authority::User(
            v.escrows[escrow_id].receiver@[receiver_index as int],
        ),
        v.accounts[TokenAccountId::External(receiver_account)].mint == v.escrows[escrow_id].mint,
{
}

/// A reclaim can only have refunded the depositor: whenever it
/// succeeded, the escrow was live and matured, the caller was the
/// original depositor, and the refunded account belonged to the
/// depositor in the escrow's asset.
pub proof fn lemma_reclaim_success_implies_guards(
    v: LedgerView,
    escrow_id: EscrowId,
    caller: u64,
    deposit_account: u64,
    now: i64,
)
    requires
        reclaim_outcome(v, escrow_id, caller, deposit_account, now).0 is Ok,
    ensures
        v.escrows.contains_key(escrow_id),
        caller == v.escrows[escrow_id].initializer,
        reclaim_window_open(now, v.escrows[escrow_id].start_time),
        v.accounts[TokenAccountId::External(deposit_account)].owner == Authority::User(caller),
        v.accounts[TokenAccountId::External(deposit_account)].mint == v.escrows[escrow_id].mint,
{
}

/// A closed or never-created record refuses both terminal transitions
/// with `RecordNotFound`, whatever the caller, account, or time, and
/// moves nothing.
pub proof fn lemma_closed_record_refuses(
    v: LedgerView,
    escrow_id: EscrowId,
    receiver_index: usize,
    caller: u64,
    account: u64,
    now: i64,
)
    requires
        !v.escrows.contains_key(escrow_id),
    ensures
        release_outcome(v, escrow_id, receiver_index, caller, account, now) == (
            Err::<(), EscrowError>(EscrowError::RecordNotFound),
            v,
        ),
        reclaim_outcome(v, escrow_id, caller, account, now) == (
            Err::<(), EscrowError>(EscrowError::RecordNotFound),
            v,
        ),
{
}

/// At most one terminal transition per escrow: after a successful
/// `release`, every later `release` or `reclaim` of the same escrow —
/// by any caller, against any account, at any time — fails with
/// `RecordNotFound`; likewise after a successful `reclaim`.
pub proof fn lemma_terminal_transition_is_exclusive(
    v: LedgerView,
    escrow_id: EscrowId,
    receiver_index: usize,
    caller: u64,
    account: u64,
    now: i64,
)
    ensures
        release_outcome(v, escrow_id, receiver_index, caller, account, now).0 is Ok ==> {
            let v1 = release_outcome(v, escrow_id, receiver_index, caller, account, now).1;
            forall|i2: usize, c2: u64, a2: u64, n2: i64|
                #[trigger] release_outcome(v1, escrow_id, i2, c2, a2, n2).0 == Err::<
                    (),
                    EscrowError,
                >(EscrowError::RecordNotFound) && #[trigger] reclaim_outcome(
                    v1,
                    escrow_id,
                    c2,
                    a2,
                    n2,
                ).0 == Err::<(), EscrowError>(EscrowError::RecordNotFound)
        },
        reclaim_outcome(v, escrow_id, caller, account, now).0 is Ok ==> {
            let v1 = reclaim_outcome(v, escrow_id, caller, account, now).1;
            forall|i2: usize, c2: u64, a2: u64, n2: i64|
                #[trigger] release_outcome(v1, escrow_id, i2, c2, a2, n2).0 == Err::<
                    (),
                    EscrowError,
                >(EscrowError::RecordNotFound) && #[trigger] reclaim_outcome(
                    v1,
                    escrow_id,
                    c2,
                    a2,
                    n2,
                ).0 == Err::<(), EscrowError>(EscrowError::RecordNotFound)
        },
{
}

/// Conservation over a full lifecycle ending in release: from creation
/// through the payout, the combined holdings of the depositor's source
/// account, the vault, and the receiver's account never change, and the
/// vault ends closed.
pub proof fn lemma_lifecycle_conserves_through_release(
    v0: LedgerView,
    depositor: u64,
    mint: u64,
    amount: u64,
    receiver: Vec<u64>,
    start_time: i64,
    deposit_account: u64,
    receiver_index: usize,
    caller: u64,
    receiver_account: u64,
    now: i64,
)
    requires
        inv(v0),
        deposit_account != receiver_account,
        create_outcome(v0, depositor, mint, amount, receiver, start_time, deposit_account).0 is Ok,
        release_outcome(
            create_outcome(v0, depositor, mint, amount, receiver, start_time, deposit_account).1,
            escrow_address(depositor, mint),
            receiver_index,
            caller,
            receiver_account,
            now,
        ).0 is Ok,
    ensures
        ({
            let v1 = create_outcome(
                v0,
                depositor,
                mint,
                amount,
                receiver,
                start_time,
                deposit_account,
            ).1;
            let v2 = release_outcome(
                v1,
                escrow_address(depositor, mint),
                receiver_index,
                caller,
                receiver_account,
                now,
            ).1;
            let dep = TokenAccountId::External(deposit_account);
            let recv = TokenAccountId::External(receiver_account);
            let vid = vault_address(depositor, mint);
            &&& balance_at(v1.accounts, dep) + balance_at(v1.accounts, vid) + balance_at(
                v1.accounts,
                recv,
            ) == balance_at(v0.accounts, dep) + balance_at(v0.accounts, vid) + balance_at(
                v0.accounts,
                recv,
            )
            &&& balance_at(v2.accounts, dep) + balance_at(v2.accounts, vid) + balance_at(
                v2.accounts,
                recv,
            ) == balance_at(v0.accounts, dep) + balance_at(v0.accounts, vid) + balance_at(
                v0.accounts,
                recv,
            )
            &&& !v2.accounts.contains_key(vid)
            &&& !v2.escrows.contains_key(escrow_address(depositor, mint))
        }),
{
    let dep = TokenAccountId::External(deposit_account);
    let recv = TokenAccountId::External(receiver_account);
    let vid = vault_address(depositor, mint);
    assert(dep != vid);
    assert(recv != vid);
    assert(dep != recv);
    assert(!v0.accounts.contains_key(vid));
}

/// Conservation over a full lifecycle ending in reclaim: from creation
/// through the refund, the combined holdings of the depositor's source
/// account and the vault never change, and the vault ends closed.
pub proof fn lemma_lifecycle_conserves_through_reclaim(
    v0: LedgerView,
    depositor: u64,
    mint: u64,
    amount: u64,
    receiver: Vec<u64>,
    start_time: i64,
    deposit_account: u64,
    caller: u64,
    now: i64,
)
    requires
        inv(v0),
        create_outcome(v0, depositor, mint, amount, receiver, start_time, deposit_account).0 is Ok,
        reclaim_outcome(
            create_outcome(v0, depositor, mint, amount, receiver, start_time, deposit_account).1,
            escrow_address(depositor, mint),
            caller,
            deposit_account,
            now,
        ).0 is Ok,
    ensures
        ({
            let v1 = create_outcome(
                v0,
                depositor,
                mint,
                amount,
                receiver,
                start_time,
                deposit_account,
            ).1;
            let v2 = reclaim_outcome(
                v1,
                escrow_address(depositor, mint),
                caller,
                deposit_account,
                now,
            ).1;
            let dep = TokenAccountId::External(deposit_account);
            let vid = vault_address(depositor, mint);
            &&& balance_at(v2.accounts, dep) == balance_at(v0.accounts, dep)
            &&& balance_at(v2.accounts, dep) + balance_at(v2.accounts, vid) == balance_at(
                v0.accounts,
                dep,
            ) + balance_at(v0.accounts, vid)
            &&& !v2.accounts.contains_key(vid)
            &&& !v2.escrows.contains_key(escrow_address(depositor, mint))
        }),
{
    let dep = TokenAccountId::External(deposit_account);
    let vid = vault_address(depositor, mint);
    assert(dep != vid);
    assert(!v0.accounts.contains_key(vid));
}

/// Transitions touch no other escrow and no other account: an account
/// apart from the source, vault, and receiver of a transition keeps its
/// balance, and a record at another address stays exactly as it was.
pub proof fn lemma_transitions_are_local(
    v: LedgerView,
    depositor: u64,
    mint: u64,
    amount: u64,
    receiver: Vec<u64>,
    start_time: i64,
    deposit_account: u64,
    escrow_id: EscrowId,
    receiver_index: usize,
    caller: u64,
    account: u64,
    now: i64,
    other_acct: TokenAccountId,
    other_escrow: EscrowId,
)
    ensures
        ({
            let v1 = create_outcome(
                v,
                depositor,
                mint,
                amount,
                receiver,
                start_time,
                deposit_account,
            ).1;
            &&& other_acct != TokenAccountId::External(deposit_account) && other_acct
                != vault_address(depositor, mint) ==> balance_at(v1.accounts, other_acct)
                == balance_at(v.accounts, other_acct)
            &&& other_escrow != escrow_address(depositor, mint) ==> v1.escrows.contains_key(
                other_escrow,
            ) == v.escrows.contains_key(other_escrow) && (v.escrows.contains_key(other_escrow)
                ==> v1.escrows[other_escrow] == v.escrows[other_escrow])
        }),
        ({
            let v1 = release_outcome(v, escrow_id, receiver_index, caller, account, now).1;
            &&& other_acct != TokenAccountId::External(account) && other_acct != vault_address(
                escrow_id.initializer,
                escrow_id.mint,
            ) ==> balance_at(v1.accounts, other_acct) == balance_at(v.accounts, other_acct)
            &&& other_escrow != escrow_id ==> v1.escrows.contains_key(other_escrow)
                == v.escrows.contains_key(other_escrow) && (v.escrows.contains_key(other_escrow)
                ==> v1.escrows[other_escrow] == v.escrows[other_escrow])
        }),
        ({
            let v1 = reclaim_outcome(v, escrow_id, caller, account, now).1;
            &&& other_acct != TokenAccountId::External(account) && other_acct != vault_address(
                escrow_id.initializer,
                escrow_id.mint,
            ) ==> balance_at(v1.accounts, other_acct) == balance_at(v.accounts, other_acct)
            &&& other_escrow != escrow_id ==> v1.escrows.contains_key(other_escrow)
                == v.escrows.contains_key(other_escrow) && (v.escrows.contains_key(other_escrow)
                ==> v1.escrows[other_escrow] == v.escrows[other_escrow])
        }),
{
}

} // verus!
