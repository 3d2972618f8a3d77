use stellar_payments::error::PaymentError;
use stellar_payments::payment_system::PaymentSystem;

const ALICE: &str = "GACAMF2WHKKQTYVHVA3CRMVUHN6GUBLTB7PBJQF73N7ATCIYAIFUCT6B";
const ALICE_SECRET: &str = "SAZ443I6BNR2MD3G27C4EZIEEFMKOPT4SR6IHZDLXPODEHR2GRQVIC7R";
const BOB: &str = "GBNTC5W2J7UHNWDSKIE26EOZL4ZJWNAPOCEWGZNMFBUM7GU2EFYVZNOL";
const CAROL: &str = "GAUZUPTHOMSZEV65VNSRMUDAAE4VBMSRYYAX3UOWYU3BQUZ6OK65NOWM";
// ALICE with its last character changed: the right length, a bad checksum.
const BROKEN: &str = "GACAMF2WHKKQTYVHVA3CRMVUHN6GUBLTB7PBJQF73N7ATCIYAIFUCT6C";

fn public_keypair(id: &str) -> stellar_sdk::Keypair {
    stellar_sdk::Keypair::from_public_key(id).unwrap()
}

fn two_accounts(alice_funds: u64, bob_funds: u64) -> PaymentSystem {
    let mut s = PaymentSystem::new();
    s.create_user(ALICE, ALICE_SECRET).unwrap();
    s.add_user(BOB, public_keypair(BOB));
    s.credit(ALICE, alice_funds);
    s.credit(BOB, bob_funds);
    s
}

#[test]
fn register_twice_resets_balance() {
    let mut s = PaymentSystem::new();
    s.create_user(ALICE, ALICE_SECRET).unwrap();
    s.credit(ALICE, 50);
    assert_eq!(s.get_balance(ALICE), Ok(50));
    s.create_user(ALICE, ALICE_SECRET).unwrap();
    assert_eq!(s.get_balance(ALICE), Ok(0));
    s.credit(ALICE, 5);
    assert_eq!(s.get_balance(ALICE), Ok(5));
}

#[test]
fn add_user_replaces_keypair() {
    let mut s = PaymentSystem::new();
    s.add_user("acct", public_keypair(BOB));
    s.add_user("acct", public_keypair(CAROL));
    assert_eq!(s.keypair("acct").unwrap().public_key(), CAROL);
    assert!(s.keypair("other").is_none());
}

#[test]
fn create_user_rejects_bad_secret() {
    let mut s = PaymentSystem::new();
    assert_eq!(s.create_user(ALICE, "user1_secret_key"), Err(PaymentError::InvalidKey));
    // a public key is not a secret seed
    assert_eq!(s.create_user(ALICE, BOB), Err(PaymentError::InvalidKey));
    assert_eq!(s.get_balance(ALICE), Err(PaymentError::UserNotFound));
}

#[test]
fn create_user_keeps_decoded_keypair() {
    let mut s = PaymentSystem::new();
    s.create_user("user1", ALICE_SECRET).unwrap();
    let kp = s.keypair("user1").unwrap();
    assert!(kp.can_sign());
    assert_eq!(kp.public_key(), ALICE);
}

#[test]
fn get_balance_unknown_account() {
    let s = PaymentSystem::new();
    assert_eq!(s.get_balance(ALICE), Err(PaymentError::UserNotFound));
}

#[test]
fn credit_untracked_is_skipped() {
    let mut s = two_accounts(1, 2);
    s.credit(CAROL, 10);
    assert_eq!(s.get_balance(CAROL), Err(PaymentError::UserNotFound));
    assert_eq!(s.get_balance(ALICE), Ok(1));
    assert_eq!(s.get_balance(BOB), Ok(2));
}

#[test]
fn insufficient_balance_changes_nothing() {
    let mut s = two_accounts(5, 7);
    assert_eq!(s.send_payment(ALICE, BOB, 6, "too much", true), Err(PaymentError::InsufficientBalance));
    assert_eq!(s.get_balance(ALICE), Ok(5));
    assert_eq!(s.get_balance(BOB), Ok(7));
    assert_eq!(s.payment_log().len(), 0);
}

#[test]
fn successful_payment_moves_exact_amount() {
    let mut s = two_accounts(100, 20);
    assert_eq!(s.apply_payment(ALICE, BOB, 30, "rent", true, true, 1_700_000_000), Ok(()));
    assert_eq!(s.get_balance(ALICE), Ok(70));
    assert_eq!(s.get_balance(BOB), Ok(50));
    let log = s.payment_log();
    assert_eq!(log.len(), 1);
    assert_eq!(log[0].timestamp, 1_700_000_000);
    assert_eq!(log[0].message, "rent");
}

#[test]
fn payment_of_whole_balance() {
    let mut s = two_accounts(30, 0);
    assert_eq!(s.send_payment(ALICE, BOB, 30, "all", true), Ok(()));
    assert_eq!(s.get_balance(ALICE), Ok(0));
    assert_eq!(s.get_balance(BOB), Ok(30));
}

#[test]
fn untracked_receiver_is_no_error() {
    let mut s = two_accounts(100, 0);
    assert_eq!(s.send_payment(ALICE, CAROL, 40, "outside", true), Ok(()));
    assert_eq!(s.get_balance(ALICE), Ok(60));
    assert_eq!(s.get_balance(CAROL), Err(PaymentError::UserNotFound));
    assert_eq!(s.payment_log().len(), 1);
}

#[test]
fn payment_to_self_keeps_balance() {
    let mut s = two_accounts(10, 0);
    assert_eq!(s.send_payment(ALICE, ALICE, 4, "self", true), Ok(()));
    assert_eq!(s.get_balance(ALICE), Ok(10));
    assert_eq!(s.payment_log().len(), 1);
}

#[test]
fn unknown_sender_is_not_found() {
    let mut s = two_accounts(10, 0);
    assert_eq!(s.send_payment(CAROL, BOB, 1, "x", true), Err(PaymentError::UserNotFound));
    assert_eq!(s.payment_log().len(), 0);
}

#[test]
fn malformed_receiver_is_invalid_key() {
    let mut s = two_accounts(10, 0);
    assert_eq!(s.send_payment(ALICE, "user2_public_key", 1, "x", true), Err(PaymentError::InvalidKey));
    assert_eq!(s.send_payment(ALICE, BROKEN, 1, "x", true), Err(PaymentError::InvalidKey));
    assert_eq!(s.get_balance(ALICE), Ok(10));
    assert_eq!(s.payment_log().len(), 0);
}

#[test]
fn check_order_sender_before_balance_before_key() {
    let mut s = two_accounts(10, 0);
    assert_eq!(s.send_payment(CAROL, "bad", 100, "x", false), Err(PaymentError::UserNotFound));
    assert_eq!(s.send_payment(ALICE, "bad", 100, "x", false), Err(PaymentError::InsufficientBalance));
    assert_eq!(s.send_payment(ALICE, "bad", 1, "x", false), Err(PaymentError::InvalidKey));
}

#[test]
fn unconfirmed_submission_is_transaction_failed() {
    let mut s = two_accounts(10, 3);
    assert_eq!(s.send_payment(ALICE, BOB, 5, "x", false), Err(PaymentError::TransactionFailed));
    assert_eq!(s.get_balance(ALICE), Ok(10));
    assert_eq!(s.get_balance(BOB), Ok(3));
    assert_eq!(s.payment_log().len(), 0);
}

#[test]
fn apply_payment_with_invalid_receiver_flag() {
    let mut s = two_accounts(10, 3);
    assert_eq!(s.apply_payment(ALICE, BOB, 5, "x", false, true, 0), Err(PaymentError::InvalidKey));
    assert_eq!(s.get_balance(ALICE), Ok(10));
}

#[test]
fn send_payment_stamps_current_time() {
    let mut s = two_accounts(10, 0);
    s.send_payment(ALICE, BOB, 1, "x", true).unwrap();
    assert!(s.payment_log()[0].timestamp > 1_600_000_000);
}

#[test]
fn prepare_payment_decodes_receiver() {
    let s = two_accounts(10, 0);
    let dest = s.prepare_payment(ALICE, CAROL, 10).unwrap();
    assert_eq!(dest.public_key(), CAROL);
    assert!(!dest.can_sign());
    assert_eq!(s.prepare_payment(ALICE, CAROL, 11).err(), Some(PaymentError::InsufficientBalance));
    assert_eq!(s.prepare_payment(BOB, ALICE, 1).err(), Some(PaymentError::InsufficientBalance));
    assert_eq!(s.prepare_payment(CAROL, ALICE, 0).err(), Some(PaymentError::UserNotFound));
    assert_eq!(s.prepare_payment(ALICE, BROKEN, 1).err(), Some(PaymentError::InvalidKey));
}

#[test]
fn history_filters_in_order() {
    let mut s = PaymentSystem::new();
    s.add_user(ALICE, public_keypair(ALICE));
    s.add_user(BOB, public_keypair(BOB));
    s.add_user(CAROL, public_keypair(CAROL));
    s.credit(ALICE, 100);
    s.credit(BOB, 100);
    s.credit(CAROL, 100);
    s.apply_payment(ALICE, BOB, 1, "first", true, true, 1).unwrap();
    s.apply_payment(BOB, CAROL, 2, "second", true, true, 2).unwrap();
    s.apply_payment(CAROL, ALICE, 3, "third", true, true, 3).unwrap();
    s.apply_payment(BOB, CAROL, 4, "fourth", true, true, 4).unwrap();

    let a: Vec<u64> = s.get_transaction_history(ALICE).iter().map(|p| p.amount).collect();
    assert_eq!(a, vec![1, 3]);
    let b: Vec<u64> = s.get_transaction_history(BOB).iter().map(|p| p.amount).collect();
    assert_eq!(b, vec![1, 2, 4]);
    let c: Vec<u64> = s.get_transaction_history(CAROL).iter().map(|p| p.amount).collect();
    assert_eq!(c, vec![2, 3, 4]);
    assert!(s.get_transaction_history("nobody").is_empty());
}

#[test]
fn recurring_payment_interval_in_seconds() {
    let mut s = two_accounts(0, 0);
    s.add_recurring_payment_at(ALICE, BOB, 5, "monthly", 30, 1000);
    let r = &s.recurring_schedule()[0];
    assert_eq!(r.interval, 2_592_000);
    assert_eq!(r.next_payment, 2_593_000);
    assert_eq!(r.amount, 5);
    assert_eq!(r.message, "monthly");
}

#[test]
fn recurring_payment_starts_from_now() {
    let mut s = two_accounts(0, 0);
    s.add_recurring_payment(ALICE, BOB, 5, "daily", 1);
    let r = &s.recurring_schedule()[0];
    assert_eq!(r.interval, 86_400);
    assert!(r.next_payment - r.interval > 1_600_000_000);
}

#[test]
fn sweep_pays_due_once() {
    let mut s = two_accounts(100, 0);
    s.add_recurring_payment_at(ALICE, BOB, 5, "monthly", 30, 0);
    let now: i64 = 2_592_000;
    assert_eq!(s.next_due_recurring(now - 1, 0), None);
    assert_eq!(s.next_due_recurring(now, 0), Some(0));
    assert_eq!(s.process_recurring_payment(0, now, true, true, now), Ok(()));
    assert_eq!(s.payment_log().len(), 1);
    assert_eq!(s.recurring_schedule()[0].next_payment, now + 2_592_000);
    assert_eq!(s.get_balance(ALICE), Ok(95));
    assert_eq!(s.get_balance(BOB), Ok(5));

    // a second sweep at the same time finds nothing due and changes nothing
    assert_eq!(s.next_due_recurring(now, 0), None);
    assert_eq!(s.process_recurring_payment(0, now, true, true, now), Ok(()));
    assert_eq!(s.payment_log().len(), 1);
    assert_eq!(s.get_balance(ALICE), Ok(95));
}

#[test]
fn sweep_failure_keeps_schedule() {
    let mut s = two_accounts(3, 0);
    s.add_recurring_payment_at(ALICE, BOB, 5, "monthly", 30, 0);
    let now: i64 = 3_000_000;
    assert_eq!(s.process_recurring_payment(0, now, true, true, now), Err(PaymentError::InsufficientBalance));
    assert_eq!(s.recurring_schedule()[0].next_payment, 2_592_000);
    assert_eq!(s.payment_log().len(), 0);
    assert_eq!(s.run_recurring_payment(0, now, true), Err(PaymentError::InsufficientBalance));
}

#[test]
fn sweep_finds_due_in_order() {
    let mut s = two_accounts(100, 0);
    s.add_recurring_payment_at(ALICE, BOB, 1, "a", 10, 0);
    s.add_recurring_payment_at(ALICE, BOB, 1, "b", 1, 0);
    s.add_recurring_payment_at(ALICE, BOB, 1, "c", 2, 0);
    let now: i64 = 200_000;
    assert_eq!(s.next_due_recurring(now, 0), Some(1));
    assert_eq!(s.next_due_recurring(now, 2), Some(2));
    assert_eq!(s.next_due_recurring(now, 3), None);
}

#[test]
fn run_recurring_payment_decodes_receiver() {
    let mut s = two_accounts(100, 0);
    s.add_recurring_payment_at(ALICE, "user2_public_key", 5, "bad", 1, 0);
    s.add_recurring_payment_at(ALICE, CAROL, 5, "good", 1, 0);
    let now: i64 = 86_400;
    assert_eq!(s.run_recurring_payment(0, now, true), Err(PaymentError::InvalidKey));
    assert_eq!(s.run_recurring_payment(1, now, true), Ok(()));
    assert_eq!(s.get_balance(ALICE), Ok(95));
    assert_eq!(s.payment_log()[0].to, CAROL);
    assert!(s.payment_log()[0].timestamp > 1_600_000_000);
}

#[test]
fn end_to_end_payment() {
    let mut s = PaymentSystem::new();
    s.create_user(ALICE, ALICE_SECRET).unwrap();
    s.add_user(BOB, public_keypair(BOB));
    s.credit(ALICE, 25);
    assert_eq!(s.send_payment(ALICE, BOB, 10, "first payment", true), Ok(()));
    assert_eq!(s.get_balance(ALICE), Ok(15));
    assert_eq!(s.get_balance(BOB), Ok(10));
    let log = s.payment_log();
    assert_eq!(log.len(), 1);
    assert_eq!(log[0].from, ALICE);
    assert_eq!(log[0].to, BOB);
    assert_eq!(log[0].amount, 10);
}

#[test]
fn end_to_end_insufficient_balance() {
    let mut s = PaymentSystem::new();
    s.create_user(ALICE, ALICE_SECRET).unwrap();
    s.add_user(BOB, public_keypair(BOB));
    s.credit(ALICE, 5);
    assert_eq!(s.send_payment(ALICE, BOB, 10, "first payment", true), Err(PaymentError::InsufficientBalance));
    assert_eq!(s.payment_log().len(), 0);
    assert!(s.get_transaction_history(ALICE).is_empty());
}

#[test]
fn error_messages() {
    assert_eq!(PaymentError::UserNotFound.message(), "User not found");
    assert_eq!(PaymentError::InsufficientBalance.message(), "Insufficient balance");
    assert_eq!(PaymentError::InvalidKey.message(), "Invalid key");
    assert_eq!(PaymentError::TransactionFailed.message(), "Transaction failed");
}
