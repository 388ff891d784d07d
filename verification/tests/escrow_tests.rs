use escrow_example::error::EscrowError;
use escrow_example::machine::EscrowLedger;
use escrow_example::machine::TimingPolicy;
use escrow_example::state::Authority;
use escrow_example::state::EscrowId;
use escrow_example::state::TokenAccountId;
use escrow_example::DEADLINE;
use escrow_example::MAX_RECEIVERS;

// Account identifiers used throughout: depositor key 10 deposits from
// account 1, receiver key 20 collects into account 2, the administrator
// key is 999, and the asset is mint 5.
const DEPOSITOR: u64 = 10;
const RECEIVER: u64 = 20;
const ADMIN: u64 = 999;
const MINT: u64 = 5;
const DEP_ACCT: u64 = 1;
const RECV_ACCT: u64 = 2;

fn eid() -> EscrowId {
    EscrowId { initializer: DEPOSITOR, mint: MINT }
}

fn vault() -> TokenAccountId {
    TokenAccountId::Vault(DEPOSITOR, MINT)
}

/// A ledger with a funded depositor account (150 units) and an empty
/// receiver account, under the given release policy.
fn funded_ledger(policy: TimingPolicy) -> EscrowLedger {
    let mut l = EscrowLedger::new(policy, ADMIN);
    assert_eq!(l.open_account(DEP_ACCT, DEPOSITOR, MINT), Ok(()));
    assert_eq!(l.mint_to(DEP_ACCT, 150), Ok(()));
    assert_eq!(l.open_account(RECV_ACCT, RECEIVER, MINT), Ok(()));
    l
}

/// The same ledger with a live escrow over 100 units, started at time 0.
fn ledger_with_escrow(policy: TimingPolicy) -> EscrowLedger {
    let mut l = funded_ledger(policy);
    let r = l.create_escrow(DEPOSITOR, MINT, 100, vec![RECEIVER], 0, DEP_ACCT);
    assert_eq!(r, Ok(eid()));
    l
}

#[test]
fn deadline_is_one_day() {
    assert_eq!(DEADLINE, 86400);
    assert_eq!(MAX_RECEIVERS, 20);
}

#[test]
fn derived_addresses_are_structural() {
    assert_eq!(
        escrow_example::state::derive_escrow_address(1, 2),
        EscrowId { initializer: 1, mint: 2 }
    );
    assert_eq!(
        escrow_example::state::derive_vault_address(1, 2),
        TokenAccountId::Vault(1, 2)
    );
    assert_eq!(escrow_example::state::derive_authority(), Authority::Derived);
}

#[test]
fn create_succeeds_and_funds_vault() {
    let l = ledger_with_escrow(TimingPolicy::ReleaseAfterDeadline);
    assert_eq!(l.balance_of(TokenAccountId::External(DEP_ACCT)), Some(50));
    assert_eq!(l.balance_of(vault()), Some(100));
    assert!(l.has_escrow(eid()));
    let record = l.get_escrow(eid()).unwrap();
    assert_eq!(record.initializer, DEPOSITOR);
    assert_eq!(record.receiver, vec![RECEIVER]);
    assert_eq!(record.mint, MINT);
    assert_eq!(record.amount, 100);
    assert_eq!(record.start_time, 0);
}

#[test]
fn create_fails_on_short_balance() {
    let mut l = funded_ledger(TimingPolicy::ReleaseAfterDeadline);
    let r = l.create_escrow(DEPOSITOR, MINT, 151, vec![RECEIVER], 0, DEP_ACCT);
    assert_eq!(r, Err(EscrowError::InsufficientFunds));
    assert_eq!(l.balance_of(TokenAccountId::External(DEP_ACCT)), Some(150));
    assert!(!l.has_escrow(eid()));
    assert_eq!(l.balance_of(vault()), None);
}

#[test]
fn create_succeeds_on_exact_balance() {
    let mut l = funded_ledger(TimingPolicy::ReleaseAfterDeadline);
    let r = l.create_escrow(DEPOSITOR, MINT, 150, vec![RECEIVER], 0, DEP_ACCT);
    assert_eq!(r, Ok(eid()));
    assert_eq!(l.balance_of(TokenAccountId::External(DEP_ACCT)), Some(0));
    assert_eq!(l.balance_of(vault()), Some(150));
}

#[test]
fn create_rejects_zero_amount() {
    let mut l = funded_ledger(TimingPolicy::ReleaseAfterDeadline);
    let r = l.create_escrow(DEPOSITOR, MINT, 0, vec![RECEIVER], 0, DEP_ACCT);
    assert_eq!(r, Err(EscrowError::InvalidAmount));
    assert!(!l.has_escrow(eid()));
    assert_eq!(l.balance_of(vault()), None);
    assert_eq!(l.balance_of(TokenAccountId::External(DEP_ACCT)), Some(150));
}

#[test]
fn create_rejects_bad_receiver_lists() {
    let mut l = funded_ledger(TimingPolicy::ReleaseAfterDeadline);
    let r = l.create_escrow(DEPOSITOR, MINT, 100, vec![], 0, DEP_ACCT);
    assert_eq!(r, Err(EscrowError::InvalidReceiverCount));
    let too_many = vec![RECEIVER; MAX_RECEIVERS + 1];
    let r = l.create_escrow(DEPOSITOR, MINT, 100, too_many, 0, DEP_ACCT);
    assert_eq!(r, Err(EscrowError::InvalidReceiverCount));
    let just_enough = vec![RECEIVER; MAX_RECEIVERS];
    let r = l.create_escrow(DEPOSITOR, MINT, 100, just_enough, 0, DEP_ACCT);
    assert_eq!(r, Ok(eid()));
}

#[test]
fn create_rejects_duplicate_escrow() {
    let mut l = ledger_with_escrow(TimingPolicy::ReleaseAfterDeadline);
    let r = l.create_escrow(DEPOSITOR, MINT, 10, vec![RECEIVER], 0, DEP_ACCT);
    assert_eq!(r, Err(EscrowError::RecordAlreadyExists));
    assert_eq!(l.balance_of(TokenAccountId::External(DEP_ACCT)), Some(50));
}

#[test]
fn create_rejects_missing_deposit_account() {
    let mut l = funded_ledger(TimingPolicy::ReleaseAfterDeadline);
    let r = l.create_escrow(DEPOSITOR, MINT, 100, vec![RECEIVER], 0, 77);
    assert_eq!(r, Err(EscrowError::RecordNotFound));
}

#[test]
fn create_rejects_unowned_deposit_account() {
    let mut l = funded_ledger(TimingPolicy::ReleaseAfterDeadline);
    // RECV_ACCT belongs to the receiver, not the depositor.
    let r = l.create_escrow(DEPOSITOR, MINT, 100, vec![RECEIVER], 0, RECV_ACCT);
    assert_eq!(r, Err(EscrowError::UnauthorizedCaller));
}

#[test]
fn create_rejects_mint_mismatch() {
    let mut l = funded_ledger(TimingPolicy::ReleaseAfterDeadline);
    assert_eq!(l.open_account(3, DEPOSITOR, MINT + 1), Ok(()));
    let r = l.create_escrow(DEPOSITOR, MINT, 100, vec![RECEIVER], 0, 3);
    assert_eq!(r, Err(EscrowError::MintMismatch));
}

#[test]
fn release_gated_then_pays_receiver() {
    let mut l = ledger_with_escrow(TimingPolicy::ReleaseAfterDeadline);
    // Before the deadline the window is closed.
    let r = l.release(eid(), 0, RECEIVER, RECV_ACCT, 10);
    assert_eq!(r, Err(EscrowError::InvalidTiming));
    assert!(l.has_escrow(eid()));
    // Past the deadline the targeted receiver collects the full amount.
    let r = l.release(eid(), 0, RECEIVER, RECV_ACCT, DEADLINE + 1);
    assert_eq!(r, Ok(()));
    assert_eq!(l.balance_of(TokenAccountId::External(RECV_ACCT)), Some(100));
    assert_eq!(l.balance_of(vault()), None);
    assert!(!l.has_escrow(eid()));
}

#[test]
fn release_succeeds_at_exact_deadline() {
    let mut l = ledger_with_escrow(TimingPolicy::ReleaseAfterDeadline);
    let r = l.release(eid(), 0, RECEIVER, RECV_ACCT, DEADLINE);
    assert_eq!(r, Ok(()));
}

#[test]
fn second_release_finds_no_record() {
    let mut l = ledger_with_escrow(TimingPolicy::ReleaseAfterDeadline);
    assert_eq!(l.release(eid(), 0, RECEIVER, RECV_ACCT, DEADLINE + 1), Ok(()));
    // A racing second release observes the record already gone.
    let r = l.release(eid(), 0, RECEIVER, RECV_ACCT, DEADLINE + 1);
    assert_eq!(r, Err(EscrowError::RecordNotFound));
    assert_eq!(l.balance_of(TokenAccountId::External(RECV_ACCT)), Some(100));
}

#[test]
fn release_rejects_wrong_caller() {
    let mut l = ledger_with_escrow(TimingPolicy::ReleaseAfterDeadline);
    let r = l.release(eid(), 0, 12345, RECV_ACCT, DEADLINE + 1);
    assert_eq!(r, Err(EscrowError::UnauthorizedCaller));
    assert!(l.has_escrow(eid()));
}

#[test]
fn release_rejects_bad_slot_index() {
    let mut l = ledger_with_escrow(TimingPolicy::ReleaseAfterDeadline);
    let r = l.release(eid(), 1, RECEIVER, RECV_ACCT, DEADLINE + 1);
    assert_eq!(r, Err(EscrowError::UnauthorizedCaller));
}

#[test]
fn release_by_admin_pays_slot_receiver() {
    let mut l = ledger_with_escrow(TimingPolicy::ReleaseAfterDeadline);
    let r = l.release(eid(), 0, ADMIN, RECV_ACCT, DEADLINE + 1);
    assert_eq!(r, Ok(()));
    assert_eq!(l.balance_of(TokenAccountId::External(RECV_ACCT)), Some(100));
}

#[test]
fn release_rejects_account_of_other_owner() {
    let mut l = ledger_with_escrow(TimingPolicy::ReleaseAfterDeadline);
    // DEP_ACCT belongs to the depositor, not the slot's receiver.
    let r = l.release(eid(), 0, RECEIVER, DEP_ACCT, DEADLINE + 1);
    assert_eq!(r, Err(EscrowError::UnauthorizedCaller));
}

#[test]
fn release_rejects_mismatched_receiver_account_mint() {
    let mut l = ledger_with_escrow(TimingPolicy::ReleaseAfterDeadline);
    assert_eq!(l.open_account(4, RECEIVER, MINT + 1), Ok(()));
    let r = l.release(eid(), 0, RECEIVER, 4, DEADLINE + 1);
    assert_eq!(r, Err(EscrowError::MintMismatch));
}

#[test]
fn release_rejects_overflowing_payout() {
    let mut l = ledger_with_escrow(TimingPolicy::ReleaseAfterDeadline);
    assert_eq!(l.mint_to(RECV_ACCT, u64::MAX - 50), Ok(()));
    let r = l.release(eid(), 0, RECEIVER, RECV_ACCT, DEADLINE + 1);
    assert_eq!(r, Err(EscrowError::BalanceOverflow));
    assert!(l.has_escrow(eid()));
    assert_eq!(l.balance_of(vault()), Some(100));
}

#[test]
fn reclaim_returns_funds_to_depositor() {
    let mut l = ledger_with_escrow(TimingPolicy::ReleaseAfterDeadline);
    let r = l.reclaim(eid(), DEPOSITOR, DEP_ACCT, DEADLINE + 1);
    assert_eq!(r, Ok(()));
    assert_eq!(l.balance_of(TokenAccountId::External(DEP_ACCT)), Some(150));
    assert_eq!(l.balance_of(vault()), None);
    assert!(!l.has_escrow(eid()));
}

#[test]
fn reclaim_rejects_non_depositor() {
    let mut l = ledger_with_escrow(TimingPolicy::ReleaseAfterDeadline);
    let r = l.reclaim(eid(), RECEIVER, RECV_ACCT, DEADLINE + 1);
    assert_eq!(r, Err(EscrowError::UnauthorizedCaller));
    assert!(l.has_escrow(eid()));
}

#[test]
fn reclaim_rejects_immature_escrow() {
    let mut l = ledger_with_escrow(TimingPolicy::ReleaseAfterDeadline);
    let r = l.reclaim(eid(), DEPOSITOR, DEP_ACCT, DEADLINE - 1);
    assert_eq!(r, Err(EscrowError::InvalidTiming));
    assert!(l.has_escrow(eid()));
}

#[test]
fn reclaim_rejects_mismatched_destination_mint() {
    let mut l = ledger_with_escrow(TimingPolicy::ReleaseAfterDeadline);
    assert_eq!(l.open_account(6, DEPOSITOR, MINT + 1), Ok(()));
    let r = l.reclaim(eid(), DEPOSITOR, 6, DEADLINE + 1);
    assert_eq!(r, Err(EscrowError::MintMismatch));
}

#[test]
fn reclaim_after_release_finds_no_record() {
    let mut l = ledger_with_escrow(TimingPolicy::ReleaseAfterDeadline);
    assert_eq!(l.release(eid(), 0, RECEIVER, RECV_ACCT, DEADLINE + 1), Ok(()));
    let r = l.reclaim(eid(), DEPOSITOR, DEP_ACCT, DEADLINE + 1);
    assert_eq!(r, Err(EscrowError::RecordNotFound));
}

#[test]
fn release_after_reclaim_finds_no_record() {
    let mut l = ledger_with_escrow(TimingPolicy::ReleaseAfterDeadline);
    assert_eq!(l.reclaim(eid(), DEPOSITOR, DEP_ACCT, DEADLINE + 1), Ok(()));
    let r = l.release(eid(), 0, RECEIVER, RECV_ACCT, DEADLINE + 1);
    assert_eq!(r, Err(EscrowError::RecordNotFound));
}

#[test]
fn early_release_policy_flips_the_gate() {
    let mut l = ledger_with_escrow(TimingPolicy::ReleaseBeforeDeadline);
    // Under this policy the receiver collects early and the deadline
    // closes the window instead of opening it.
    let r = l.release(eid(), 0, RECEIVER, RECV_ACCT, DEADLINE);
    assert_eq!(r, Err(EscrowError::InvalidTiming));
    let r = l.release(eid(), 0, RECEIVER, RECV_ACCT, 10);
    assert_eq!(r, Ok(()));
    assert_eq!(l.balance_of(TokenAccountId::External(RECV_ACCT)), Some(100));
}

#[test]
fn early_release_policy_keeps_reclaim_matured() {
    let mut l = ledger_with_escrow(TimingPolicy::ReleaseBeforeDeadline);
    assert_eq!(
        l.reclaim(eid(), DEPOSITOR, DEP_ACCT, 10),
        Err(EscrowError::InvalidTiming)
    );
    assert_eq!(l.reclaim(eid(), DEPOSITOR, DEP_ACCT, DEADLINE), Ok(()));
    assert_eq!(l.balance_of(TokenAccountId::External(DEP_ACCT)), Some(150));
}

#[test]
fn multi_receiver_slot_is_index_checked() {
    let mut l = EscrowLedger::new(TimingPolicy::ReleaseAfterDeadline, ADMIN);
    assert_eq!(l.open_account(DEP_ACCT, DEPOSITOR, MINT), Ok(()));
    assert_eq!(l.mint_to(DEP_ACCT, 100), Ok(()));
    assert_eq!(l.open_account(30, 21, MINT), Ok(()));
    assert_eq!(l.open_account(31, 22, MINT), Ok(()));
    let r = l.create_escrow(DEPOSITOR, MINT, 100, vec![RECEIVER, 21, 22], 0, DEP_ACCT);
    assert_eq!(r, Ok(eid()));
    // Receiver 22 holds slot 2; claiming slot 1 is not theirs.
    let r = l.release(eid(), 1, 22, 31, DEADLINE + 1);
    assert_eq!(r, Err(EscrowError::UnauthorizedCaller));
    // The matching slot, paid into an account of slot 2's owner.
    let r = l.release(eid(), 2, 22, 31, DEADLINE + 1);
    assert_eq!(r, Ok(()));
    assert_eq!(l.balance_of(TokenAccountId::External(31)), Some(100));
    // The single vault is gone; no other slot can claim.
    assert_eq!(
        l.release(eid(), 0, RECEIVER, 30, DEADLINE + 1),
        Err(EscrowError::RecordNotFound)
    );
}

#[test]
fn balances_are_conserved_across_lifecycle() {
    let mut l = ledger_with_escrow(TimingPolicy::ReleaseAfterDeadline);
    let total = |l: &EscrowLedger| {
        l.balance_of(TokenAccountId::External(DEP_ACCT)).unwrap_or(0) as u128
            + l.balance_of(vault()).unwrap_or(0) as u128
            + l.balance_of(TokenAccountId::External(RECV_ACCT)).unwrap_or(0) as u128
    };
    assert_eq!(total(&l), 150);
    assert_eq!(l.release(eid(), 0, RECEIVER, RECV_ACCT, DEADLINE + 1), Ok(()));
    assert_eq!(total(&l), 150);
    assert_eq!(l.balance_of(TokenAccountId::External(RECV_ACCT)), Some(100));
}

#[test]
fn account_setup_errors() {
    let mut l = EscrowLedger::new(TimingPolicy::ReleaseAfterDeadline, ADMIN);
    assert_eq!(l.open_account(1, DEPOSITOR, MINT), Ok(()));
    assert_eq!(
        l.open_account(1, RECEIVER, MINT),
        Err(EscrowError::RecordAlreadyExists)
    );
    assert_eq!(l.mint_to(9, 5), Err(EscrowError::RecordNotFound));
    assert_eq!(l.mint_to(1, u64::MAX), Ok(()));
    assert_eq!(l.mint_to(1, 1), Err(EscrowError::BalanceOverflow));
}

#[test]
fn getters_reflect_configuration() {
    let l = EscrowLedger::new(TimingPolicy::ReleaseBeforeDeadline, 42);
    assert_eq!(l.timing_policy(), TimingPolicy::ReleaseBeforeDeadline);
    assert_eq!(l.admin_id(), 42);
    assert!(l.get_escrow(EscrowId { initializer: 0, mint: 0 }).is_none());
    assert!(l.get_account(TokenAccountId::External(0)).is_none());
}
