use tipping_dapp::Platform;
use tipping_dapp::TippingError;
use tipping_dapp::TokenTransfer;

const ADMIN: u64 = 1;
const ALICE: u64 = 2;
const BOB: u64 = 3;
const USDC: u64 = 7;
const BONK: u64 = 8;

fn platform_with_alice() -> Platform {
    let mut p = Platform::new();
    assert_eq!(p.initialize_platform(ADMIN), Ok(()));
    assert_eq!(p.create_profile(ALICE, String::from("alice"), USDC), Ok(()));
    p
}

#[test]
fn tip_value_moves_value_and_records_it() {
    let mut p = platform_with_alice();
    assert_eq!(p.deposit_value(BOB, 100), Ok(()));
    assert_eq!(p.tip_value(BOB, ALICE, 40, String::from("thanks!")), Ok(()));
    assert_eq!(p.value_balance(BOB), 60);
    assert_eq!(p.value_balance(ALICE), 40);
    let stats = p.get_stats(ALICE).unwrap();
    assert_eq!(stats.total_value_received, 40);
    assert_eq!(stats.total_token_received, 0);
    assert_eq!(stats.last_message, "thanks!");
    assert_eq!(p.get_global().unwrap().total_value_tipped, 40);
    assert_eq!(p.get_global().unwrap().total_token_tipped, 0);
}

#[test]
fn sequential_tips_accumulate() {
    let mut p = platform_with_alice();
    assert_eq!(p.deposit_value(BOB, 100), Ok(()));
    assert_eq!(p.tip_value(BOB, ALICE, 30, String::from("first")), Ok(()));
    assert_eq!(p.tip_value(BOB, ALICE, 12, String::from("second")), Ok(()));
    assert_eq!(p.value_balance(BOB), 58);
    assert_eq!(p.value_balance(ALICE), 42);
    let stats = p.get_stats(ALICE).unwrap();
    assert_eq!(stats.total_value_received, 42);
    assert_eq!(stats.last_message, "second");
    assert_eq!(p.get_global().unwrap().total_value_tipped, 42);
}

#[test]
fn self_tip_rejected() {
    let mut p = platform_with_alice();
    assert_eq!(p.deposit_value(ALICE, 100), Ok(()));
    assert_eq!(
        p.tip_value(ALICE, ALICE, 10, String::from("me")),
        Err(TippingError::InvalidRecipient)
    );
    assert_eq!(p.value_balance(ALICE), 100);
    assert_eq!(p.get_stats(ALICE).unwrap().total_value_received, 0);
    assert_eq!(p.get_global().unwrap().total_value_tipped, 0);
}

#[test]
fn insufficient_balance_rejected() {
    let mut p = platform_with_alice();
    assert_eq!(p.deposit_value(BOB, 100), Ok(()));
    assert_eq!(
        p.tip_value(BOB, ALICE, 101, String::from("too much")),
        Err(TippingError::InsufficientValue)
    );
    assert_eq!(p.value_balance(BOB), 100);
    assert_eq!(p.value_balance(ALICE), 0);
    assert_eq!(p.get_stats(ALICE).unwrap().total_value_received, 0);
}

#[test]
fn unfunded_tipper_rejected() {
    let mut p = platform_with_alice();
    assert_eq!(
        p.tip_value(BOB, ALICE, 1, String::from("broke")),
        Err(TippingError::InsufficientValue)
    );
}

#[test]
fn zero_amount_rejected() {
    let mut p = platform_with_alice();
    assert_eq!(p.deposit_value(BOB, 100), Ok(()));
    assert_eq!(
        p.tip_value(BOB, ALICE, 0, String::from("nothing")),
        Err(TippingError::InvalidAmount)
    );
    assert_eq!(p.value_balance(BOB), 100);
}

#[test]
fn tip_to_unregistered_recipient_rejected() {
    let mut p = Platform::new();
    assert_eq!(p.initialize_platform(ADMIN), Ok(()));
    assert_eq!(p.deposit_value(BOB, 100), Ok(()));
    assert_eq!(
        p.tip_value(BOB, 99, 10, String::from("void")),
        Err(TippingError::ProfileNotExists)
    );
}

#[test]
fn tip_before_initialize_rejected() {
    let mut p = Platform::new();
    assert_eq!(p.create_profile(ALICE, String::from("alice"), USDC), Ok(()));
    assert_eq!(p.deposit_value(BOB, 100), Ok(()));
    assert_eq!(
        p.tip_value(BOB, ALICE, 10, String::from("early")),
        Err(TippingError::PlatformNotInitialized)
    );
    assert_eq!(
        p.tip_token(BOB, ALICE, USDC, 10, "early"),
        Err(TippingError::PlatformNotInitialized)
    );
}

#[test]
fn value_message_length_bound_is_sharp() {
    let mut p = platform_with_alice();
    assert_eq!(p.deposit_value(BOB, 100), Ok(()));
    assert_eq!(
        p.tip_value(BOB, ALICE, 10, "m".repeat(81)),
        Err(TippingError::MessageTooLong)
    );
    assert_eq!(p.value_balance(BOB), 100);
    assert_eq!(p.tip_value(BOB, ALICE, 10, "m".repeat(80)), Ok(()));
    assert_eq!(p.get_stats(ALICE).unwrap().last_message, "m".repeat(80));
}

#[test]
fn recipient_balance_overflow_rejected() {
    let mut p = platform_with_alice();
    assert_eq!(p.deposit_value(BOB, 100), Ok(()));
    assert_eq!(p.deposit_value(ALICE, u64::MAX), Ok(()));
    assert_eq!(
        p.tip_value(BOB, ALICE, 1, String::from("drop")),
        Err(TippingError::ArithmeticOverflow)
    );
    assert_eq!(p.value_balance(BOB), 100);
    assert_eq!(p.value_balance(ALICE), u64::MAX);
    assert_eq!(p.get_stats(ALICE).unwrap().total_value_received, 0);
}

#[test]
fn token_tip_orders_transfer_and_records_it() {
    let mut p = platform_with_alice();
    let order = p.tip_token(BOB, ALICE, USDC, 25, "gm").unwrap();
    assert_eq!(
        order,
        TokenTransfer {
            source: BOB,
            destination: ALICE,
            authority: BOB,
            kind: USDC,
            amount: 25,
        }
    );
    // the external token subsystem would perform the ordered transfer here
    assert_eq!(p.record_token_tip(BOB, ALICE, USDC, 25, String::from("gm")), Ok(()));
    let stats = p.get_stats(ALICE).unwrap();
    assert_eq!(stats.total_token_received, 25);
    assert_eq!(stats.total_value_received, 0);
    assert_eq!(stats.last_message, "gm");
    assert_eq!(p.get_global().unwrap().total_token_tipped, 25);
    assert_eq!(p.get_global().unwrap().total_value_tipped, 0);
}

#[test]
fn token_tips_accumulate() {
    let mut p = platform_with_alice();
    assert_eq!(p.record_token_tip(BOB, ALICE, USDC, 5, String::from("a")), Ok(()));
    assert_eq!(p.record_token_tip(BOB, ALICE, USDC, 7, String::from("b")), Ok(()));
    let stats = p.get_stats(ALICE).unwrap();
    assert_eq!(stats.total_token_received, 12);
    assert_eq!(stats.last_message, "b");
    assert_eq!(p.get_global().unwrap().total_token_tipped, 12);
}

#[test]
fn wrong_token_kind_rejected() {
    let mut p = platform_with_alice();
    assert_eq!(p.tip_token(BOB, ALICE, BONK, 25, "gm"), Err(TippingError::InvalidMint));
    assert_eq!(
        p.record_token_tip(BOB, ALICE, BONK, 25, String::from("gm")),
        Err(TippingError::InvalidMint)
    );
    assert_eq!(p.get_stats(ALICE).unwrap().total_token_received, 0);
    assert_eq!(p.get_global().unwrap().total_token_tipped, 0);
}

#[test]
fn token_message_length_bound_is_sharp() {
    let mut p = platform_with_alice();
    assert_eq!(
        p.tip_token(BOB, ALICE, USDC, 10, &"m".repeat(81)),
        Err(TippingError::MessageTooLong)
    );
    assert_eq!(
        p.record_token_tip(BOB, ALICE, USDC, 10, "m".repeat(81)),
        Err(TippingError::MessageTooLong)
    );
    assert!(p.tip_token(BOB, ALICE, USDC, 10, &"m".repeat(80)).is_ok());
    assert_eq!(p.record_token_tip(BOB, ALICE, USDC, 10, "m".repeat(80)), Ok(()));
    assert_eq!(p.get_stats(ALICE).unwrap().last_message, "m".repeat(80));
}

#[test]
fn token_self_tip_rejected() {
    let mut p = platform_with_alice();
    assert_eq!(
        p.tip_token(ALICE, ALICE, USDC, 10, "me"),
        Err(TippingError::InvalidRecipient)
    );
    assert_eq!(
        p.record_token_tip(ALICE, ALICE, USDC, 10, String::from("me")),
        Err(TippingError::InvalidRecipient)
    );
}

#[test]
fn token_counter_overflow_rejected() {
    let mut p = platform_with_alice();
    assert_eq!(
        p.record_token_tip(BOB, ALICE, USDC, u64::MAX, String::from("all")),
        Ok(())
    );
    assert_eq!(
        p.tip_token(BOB, ALICE, USDC, 1, "one more"),
        Err(TippingError::ArithmeticOverflow)
    );
    assert_eq!(
        p.record_token_tip(BOB, ALICE, USDC, 1, String::from("one more")),
        Err(TippingError::ArithmeticOverflow)
    );
    assert_eq!(p.get_stats(ALICE).unwrap().total_token_received, u64::MAX);
    assert_eq!(p.get_stats(ALICE).unwrap().last_message, "all");
}
