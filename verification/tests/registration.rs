use tipping_dapp::Platform;
use tipping_dapp::TippingError;

const ALICE: u64 = 2;
const BOB: u64 = 3;
const USDC: u64 = 7;

#[test]
fn initialize_sets_admin_and_zero_totals() {
    let mut p = Platform::new();
    assert!(p.get_global().is_none());
    assert_eq!(p.initialize_platform(1), Ok(()));
    let g = p.get_global().unwrap();
    assert_eq!(g.admin, 1);
    assert_eq!(g.total_value_tipped, 0);
    assert_eq!(g.total_token_tipped, 0);
}

#[test]
fn initialize_twice_rejected() {
    let mut p = Platform::new();
    assert_eq!(p.initialize_platform(1), Ok(()));
    assert_eq!(p.initialize_platform(5), Err(TippingError::AlreadyInitialized));
    assert_eq!(p.get_global().unwrap().admin, 1);
}

#[test]
fn profile_create_reads_back() {
    let mut p = Platform::new();
    assert_eq!(p.initialize_platform(1), Ok(()));
    assert_eq!(p.create_profile(ALICE, String::from("alice"), USDC), Ok(()));
    let prof = p.get_profile(ALICE).unwrap();
    assert_eq!(prof.owner, ALICE);
    assert_eq!(prof.username, "alice");
    let stats = p.get_stats(ALICE).unwrap();
    assert_eq!(stats.owner, ALICE);
    assert_eq!(stats.total_value_received, 0);
    assert_eq!(stats.total_token_received, 0);
    assert_eq!(stats.token_kind, USDC);
    assert_eq!(stats.last_message, "");
}

#[test]
fn duplicate_profile_rejected() {
    let mut p = Platform::new();
    assert_eq!(p.create_profile(ALICE, String::from("alice"), USDC), Ok(()));
    assert_eq!(
        p.create_profile(ALICE, String::from("other"), 9),
        Err(TippingError::ProfileExists)
    );
    let prof = p.get_profile(ALICE).unwrap();
    assert_eq!(prof.username, "alice");
    assert_eq!(p.get_stats(ALICE).unwrap().token_kind, USDC);
}

#[test]
fn username_length_bound_is_sharp() {
    let mut p = Platform::new();
    assert_eq!(
        p.create_profile(ALICE, "a".repeat(21), USDC),
        Err(TippingError::UsernameTooLong)
    );
    assert!(p.get_profile(ALICE).is_none());
    assert!(p.get_stats(ALICE).is_none());
    assert_eq!(p.create_profile(ALICE, "a".repeat(20), USDC), Ok(()));
    assert_eq!(p.get_profile(ALICE).unwrap().username, "a".repeat(20));
}

#[test]
fn username_length_counts_characters_not_bytes() {
    let mut p = Platform::new();
    // twenty two-byte characters: within the bound, though 40 bytes long
    let name = "\u{e4}".repeat(20);
    assert_eq!(p.create_profile(ALICE, name.clone(), USDC), Ok(()));
    assert_eq!(p.get_profile(ALICE).unwrap().username, name);
}

#[test]
fn update_username_by_owner() {
    let mut p = Platform::new();
    assert_eq!(p.create_profile(ALICE, String::from("alice"), USDC), Ok(()));
    assert_eq!(p.update_username(ALICE, ALICE, String::from("wonderland")), Ok(()));
    assert_eq!(p.get_profile(ALICE).unwrap().username, "wonderland");
    assert_eq!(p.get_profile(ALICE).unwrap().owner, ALICE);
}

#[test]
fn update_username_non_owner_rejected() {
    let mut p = Platform::new();
    assert_eq!(p.create_profile(ALICE, String::from("alice"), USDC), Ok(()));
    assert_eq!(
        p.update_username(BOB, ALICE, String::from("hijacked")),
        Err(TippingError::Unauthorized)
    );
    assert_eq!(p.get_profile(ALICE).unwrap().username, "alice");
}

#[test]
fn update_username_missing_profile_rejected() {
    let mut p = Platform::new();
    assert_eq!(
        p.update_username(BOB, BOB, String::from("bob")),
        Err(TippingError::ProfileNotExists)
    );
}

#[test]
fn update_username_too_long_rejected() {
    let mut p = Platform::new();
    assert_eq!(p.create_profile(ALICE, String::from("alice"), USDC), Ok(()));
    assert_eq!(
        p.update_username(ALICE, ALICE, "b".repeat(21)),
        Err(TippingError::UsernameTooLong)
    );
    assert_eq!(p.get_profile(ALICE).unwrap().username, "alice");
    assert_eq!(p.update_username(ALICE, ALICE, "b".repeat(20)), Ok(()));
}

#[test]
fn deposit_accumulates_and_checks_overflow() {
    let mut p = Platform::new();
    assert_eq!(p.deposit_value(BOB, 60), Ok(()));
    assert_eq!(p.deposit_value(BOB, 40), Ok(()));
    assert_eq!(p.value_balance(BOB), 100);
    assert_eq!(p.deposit_value(BOB, u64::MAX), Err(TippingError::ArithmeticOverflow));
    assert_eq!(p.value_balance(BOB), 100);
}
