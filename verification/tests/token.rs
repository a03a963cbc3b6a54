use ft_ledger::errors::TokenError;
use ft_ledger::events::Event;
use ft_ledger::ids::AccountId;
use ft_ledger::token::{CallbackOutcome, Token, TransferPhase};

const TOTAL_SUPPLY: u128 = 100_000_000_000_000_000_000_000_000;
const ACCOUNT_STORAGE_BYTES: u64 = 125;
const STORAGE_PRICE_PER_BYTE: u128 = 10_000_000_000_000_000_000;
const MIN_BOND: u128 = ACCOUNT_STORAGE_BYTES as u128 * STORAGE_PRICE_PER_BYTE;

fn id(s: &str) -> AccountId {
    AccountId::from_bytes(s.as_bytes().to_vec())
}

#[test]
fn test_new() {
    let contract = Token::genesis(id("bob"), TOTAL_SUPPLY, ACCOUNT_STORAGE_BYTES);
    assert_eq!(contract.total_supply(), TOTAL_SUPPLY);
    assert_eq!(contract.balance_of(&id("bob")), Ok(TOTAL_SUPPLY));
}

#[test]
fn test_transfer() {
    let mut contract = Token::genesis(id("charlie"), TOTAL_SUPPLY, ACCOUNT_STORAGE_BYTES);
    let bounds = contract.storage_bounds();
    let receipt = contract.register(&id("bob"), bounds.0).unwrap();
    assert_eq!(receipt.refund, 0);
    let transfer_amount = TOTAL_SUPPLY / 3;
    contract
        .transfer(&id("charlie"), &id("bob"), transfer_amount)
        .unwrap();
    assert_eq!(
        contract.balance_of(&id("charlie")),
        Ok(TOTAL_SUPPLY - transfer_amount)
    );
    assert_eq!(contract.balance_of(&id("bob")), Ok(transfer_amount));
}

#[test]
fn genesis_invariant() {
    let t = Token::genesis(id("owner"), 1_000, ACCOUNT_STORAGE_BYTES);
    assert_eq!(t.balance_of(&id("owner")), Ok(1_000));
    assert_eq!(t.balance_of(&id("anyone_else")), Err(TokenError::NotRegistered));
    assert_eq!(t.burned_amount(), 0);
    assert!(t.is_registered(&id("owner")));
    assert!(!t.is_registered(&id("anyone_else")));
}

#[test]
fn register_twice_fails_second_time() {
    let mut t = Token::genesis(id("owner"), 1_000, ACCOUNT_STORAGE_BYTES);
    assert!(t.register(&id("alice"), MIN_BOND).is_ok());
    let again = t.register(&id("alice"), MIN_BOND);
    assert_eq!(again.err(), Some(TokenError::AlreadyRegistered));
    // State unchanged by the failing call.
    assert!(t.is_registered(&id("alice")));
    assert_eq!(t.balance_of(&id("alice")), Ok(0));
    assert_eq!(t.balance_of(&id("owner")), Ok(1_000));
}

#[test]
fn deposit_exactness() {
    let mut t = Token::genesis(id("owner"), 1_000, ACCOUNT_STORAGE_BYTES);
    // Exactly the minimum: succeeds, refunds 0.
    let exact = t.register(&id("a"), MIN_BOND).unwrap();
    assert_eq!(exact.bond, MIN_BOND);
    assert_eq!(exact.refund, 0);
    // Less than the minimum: fails; the caller keeps the whole attachment.
    let short = t.register(&id("b"), MIN_BOND - 1);
    assert_eq!(short.err(), Some(TokenError::InsufficientDeposit));
    assert!(!t.is_registered(&id("b")));
    // More than the minimum: succeeds, refunds exactly the excess.
    let over = t.register(&id("c"), MIN_BOND + 77).unwrap();
    assert_eq!(over.bond, MIN_BOND);
    assert_eq!(over.refund, 77);
}

#[test]
fn transfer_atomicity_on_failure() {
    let mut t = Token::genesis(id("owner"), 1_000, ACCOUNT_STORAGE_BYTES);
    t.register(&id("alice"), MIN_BOND).unwrap();
    t.transfer(&id("owner"), &id("alice"), 100).unwrap();

    let failing = t.transfer(&id("alice"), &id("owner"), 101);
    assert_eq!(failing.err(), Some(TokenError::InsufficientBalance));
    assert_eq!(t.balance_of(&id("alice")), Ok(100));
    assert_eq!(t.balance_of(&id("owner")), Ok(900));

    let selfish = t.transfer(&id("alice"), &id("alice"), 1);
    assert_eq!(selfish.err(), Some(TokenError::SelfTransferNotAllowed));
    let zero = t.transfer(&id("alice"), &id("owner"), 0);
    assert_eq!(zero.err(), Some(TokenError::ZeroAmount));
    let ghost_party = t.transfer(&id("alice"), &id("nobody"), 1);
    assert_eq!(ghost_party.err(), Some(TokenError::NotRegistered));
    assert_eq!(t.balance_of(&id("alice")), Ok(100));
    assert_eq!(t.balance_of(&id("owner")), Ok(900));
}

#[test]
fn partial_rejection() {
    // Sender S with balance 100 transfers 40 to R; R reports 15 unused and
    // still holds at least 15: S ends at 75 and R at 25.
    let mut t = Token::genesis(id("s"), 100, ACCOUNT_STORAGE_BYTES);
    t.register(&id("r"), MIN_BOND).unwrap();
    let pending = t.transfer_call_begin(&id("s"), &id("r"), 40).unwrap();
    assert_eq!(t.balance_of(&id("s")), Ok(60));
    assert_eq!(t.balance_of(&id("r")), Ok(40));
    let receipt = t.transfer_call_resolve(&pending, CallbackOutcome::Returned(15));
    assert_eq!(receipt.used, 25);
    assert_eq!(receipt.phase, TransferPhase::PartiallyReversed);
    assert_eq!(t.balance_of(&id("s")), Ok(75));
    assert_eq!(t.balance_of(&id("r")), Ok(25));
}

#[test]
fn full_rejection_reverses_everything() {
    let mut t = Token::genesis(id("s"), 100, ACCOUNT_STORAGE_BYTES);
    t.register(&id("r"), MIN_BOND).unwrap();
    let pending = t.transfer_call_begin(&id("s"), &id("r"), 40).unwrap();
    let receipt = t.transfer_call_resolve(&pending, CallbackOutcome::Returned(40));
    assert_eq!(receipt.used, 0);
    assert_eq!(receipt.phase, TransferPhase::Reversed);
    assert_eq!(t.balance_of(&id("s")), Ok(100));
    assert_eq!(t.balance_of(&id("r")), Ok(0));
}

#[test]
fn trapped_receiver_counts_as_full_rejection() {
    let mut t = Token::genesis(id("s"), 100, ACCOUNT_STORAGE_BYTES);
    t.register(&id("r"), MIN_BOND).unwrap();
    let pending = t.transfer_call_begin(&id("s"), &id("r"), 40).unwrap();
    let receipt = t.transfer_call_resolve(&pending, CallbackOutcome::Trapped);
    assert_eq!(receipt.used, 0);
    assert_eq!(receipt.phase, TransferPhase::Reversed);
    assert_eq!(t.balance_of(&id("s")), Ok(100));
    assert_eq!(t.balance_of(&id("r")), Ok(0));
}

#[test]
fn over_reported_unused_is_clamped() {
    let mut t = Token::genesis(id("s"), 100, ACCOUNT_STORAGE_BYTES);
    t.register(&id("r"), MIN_BOND).unwrap();
    let pending = t.transfer_call_begin(&id("s"), &id("r"), 40).unwrap();
    let receipt = t.transfer_call_resolve(&pending, CallbackOutcome::Returned(1_000));
    assert_eq!(receipt.used, 0);
    assert_eq!(receipt.phase, TransferPhase::Reversed);
    assert_eq!(t.balance_of(&id("s")), Ok(100));
}

#[test]
fn refund_clamped_to_what_receiver_still_holds() {
    let mut t = Token::genesis(id("s"), 100, ACCOUNT_STORAGE_BYTES);
    t.register(&id("r"), MIN_BOND).unwrap();
    let pending = t.transfer_call_begin(&id("s"), &id("r"), 40).unwrap();
    // The receiver spends 30 of the 40 before answering.
    t.transfer(&id("r"), &id("s"), 30).unwrap();
    let receipt = t.transfer_call_resolve(&pending, CallbackOutcome::Returned(40));
    assert_eq!(receipt.used, 30);
    assert_eq!(receipt.phase, TransferPhase::PartiallyReversed);
    assert_eq!(t.balance_of(&id("r")), Ok(0));
    assert_eq!(t.balance_of(&id("s")), Ok(100));
}

#[test]
fn refund_to_a_gone_sender_is_burned() {
    let mut t = Token::genesis(id("owner"), 1_000, ACCOUNT_STORAGE_BYTES);
    t.register(&id("s"), MIN_BOND).unwrap();
    t.register(&id("r"), MIN_BOND).unwrap();
    t.transfer(&id("owner"), &id("s"), 100).unwrap();
    let pending = t.transfer_call_begin(&id("s"), &id("r"), 40).unwrap();
    // The sender force-closes while the receiver is still thinking.
    let closed = t.unregister(&id("s"), true).unwrap();
    assert_eq!(closed.closed_balance, 60);
    let receipt = t.transfer_call_resolve(&pending, CallbackOutcome::Returned(40));
    assert_eq!(receipt.used, 0);
    assert_eq!(receipt.phase, TransferPhase::Reversed);
    assert_eq!(receipt.events.len(), 1);
    match &receipt.events[0] {
        Event::TokensBurned { id: who, amount } => {
            assert_eq!(who.as_bytes().as_slice(), b"s");
            assert_eq!(*amount, 40);
        }
        _ => panic!("expected a burn notification"),
    }
    // 60 burned at the close, 40 burned at the settlement.
    assert_eq!(t.burned_amount(), 100);
    assert_eq!(t.total_supply(), 1_000);
    assert_eq!(t.balance_of(&id("owner")), Ok(900));
    assert_eq!(t.balance_of(&id("r")), Ok(0));
}

#[test]
fn forced_close_burns_correctly() {
    let mut t = Token::genesis(id("owner"), 1_000, ACCOUNT_STORAGE_BYTES);
    t.register(&id("dojo"), MIN_BOND).unwrap();
    t.transfer(&id("owner"), &id("dojo"), 30).unwrap();
    let receipt = t.unregister(&id("dojo"), true).unwrap();
    assert_eq!(receipt.closed_balance, 30);
    assert_eq!(receipt.bond_refund, MIN_BOND);
    assert_eq!(receipt.events.len(), 2);
    match &receipt.events[0] {
        Event::TokensBurned { id: who, amount } => {
            assert_eq!(who.as_bytes().as_slice(), b"dojo");
            assert_eq!(*amount, 30);
        }
        _ => panic!("the burn must be reported first"),
    }
    match &receipt.events[1] {
        Event::AccountClosed { id: who, balance } => {
            assert_eq!(who.as_bytes().as_slice(), b"dojo");
            assert_eq!(*balance, 30);
        }
        _ => panic!("the close must be reported"),
    }
    // The supply constant does not move; the burn log records the 30.
    assert_eq!(t.total_supply(), 1_000);
    assert_eq!(t.burned_amount(), 30);
    assert_eq!(t.balance_of(&id("dojo")), Err(TokenError::NotRegistered));
}

#[test]
fn self_unregister_needs_zero_balance() {
    let mut t = Token::genesis(id("owner"), 1_000, ACCOUNT_STORAGE_BYTES);
    t.register(&id("alice"), MIN_BOND).unwrap();
    t.transfer(&id("owner"), &id("alice"), 5).unwrap();
    let blocked = t.unregister(&id("alice"), false);
    assert_eq!(blocked.err(), Some(TokenError::BalanceNotEmpty));
    assert_eq!(t.balance_of(&id("alice")), Ok(5));
    t.transfer(&id("alice"), &id("owner"), 5).unwrap();
    let receipt = t.unregister(&id("alice"), false).unwrap();
    assert_eq!(receipt.closed_balance, 0);
    assert_eq!(receipt.bond_refund, MIN_BOND);
    assert_eq!(receipt.events.len(), 1);
    match &receipt.events[0] {
        Event::AccountClosed { id: who, balance } => {
            assert_eq!(who.as_bytes().as_slice(), b"alice");
            assert_eq!(*balance, 0);
        }
        _ => panic!("the close must be reported"),
    }
    assert_eq!(t.unregister(&id("alice"), false).err(), Some(TokenError::NotRegistered));
}

#[test]
fn conservation_across_a_history() {
    let mut t = Token::genesis(id("owner"), 10_000, ACCOUNT_STORAGE_BYTES);
    let everyone = ["owner", "a", "b", "c"];
    let observe = |t: &Token| {
        let circulating: u128 = everyone
            .iter()
            .map(|name| t.balance_of(&id(name)).unwrap_or(0))
            .sum();
        assert_eq!(circulating + t.burned_amount(), t.total_supply());
    };
    observe(&t);
    t.register(&id("a"), MIN_BOND).unwrap();
    observe(&t);
    t.register(&id("b"), MIN_BOND).unwrap();
    t.register(&id("c"), MIN_BOND).unwrap();
    t.transfer(&id("owner"), &id("a"), 4_000).unwrap();
    observe(&t);
    t.transfer(&id("a"), &id("b"), 1_500).unwrap();
    observe(&t);
    let pending = t.transfer_call_begin(&id("b"), &id("c"), 500).unwrap();
    observe(&t);
    t.transfer_call_resolve(&pending, CallbackOutcome::Returned(200));
    observe(&t);
    t.unregister(&id("c"), true).unwrap();
    observe(&t);
    t.unregister(&id("a"), true).unwrap();
    observe(&t);
    assert!(t.burned_amount() > 0);
}

#[test]
fn storage_bounds_price_the_entry() {
    let t = Token::genesis(id("owner"), 1_000, ACCOUNT_STORAGE_BYTES);
    let (min, max) = t.storage_bounds();
    assert_eq!(min, MIN_BOND);
    assert_eq!(max, MIN_BOND);
    assert_eq!(t.min_bond(), MIN_BOND);
}
