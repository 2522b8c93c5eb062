use vstd::prelude::*;

use crate::errors::TippingError;
use crate::platform::profile_created;
use crate::platform::value_tipped;
use crate::platform::Platform;
use crate::state::AccountId;
use crate::state::TokenKind;
use crate::state::MAX_MESSAGE;
use crate::state::MAX_USERNAME;

verus! {

/// The platform can be initialized only once: against a store whose
/// singleton exists, the initializer is owed `AlreadyInitialized` —
/// and, by the initializer's contract, the store stays unchanged.
pub proof fn lemma_initialize_once(s: Platform)
    requires
        s.global is Some,
    ensures
        s.initialize_check() == Err::<(), TippingError>(TippingError::AlreadyInitialized),
{
}

/// Registering with any username within the bound yields a profile
/// that reads back exactly: that username, owned by the caller.
pub proof fn lemma_created_profile_reads_back(
    pre: Platform,
    post: Platform,
    caller: AccountId,
    username: Seq<char>,
    token_kind: TokenKind,
)
    requires
        username.len() <= MAX_USERNAME,
        profile_created(pre, post, caller, username, token_kind),
    ensures
        post.has_profile(caller),
        post.profile_of(caller).owner == caller,
        post.profile_of(caller).username@ == username,
{
}

/// Registering the same identity twice fails: after a successful
/// registration, any further attempt for that identity is owed
/// `ProfileExists` — and, by the registrar's contract, the records of
/// the first registration stay unchanged.
pub proof fn lemma_duplicate_registration_rejected(
    pre: Platform,
    post: Platform,
    caller: AccountId,
    username: Seq<char>,
    token_kind: TokenKind,
    retry_username: Seq<char>,
)
    requires
        profile_created(pre, post, caller, username, token_kind),
        retry_username.len() <= MAX_USERNAME,
    ensures
        post.create_profile_check(caller, retry_username) == Err::<(), TippingError>(
            TippingError::ProfileExists,
        ),
{
}

/// A requester who does not own a stored profile is owed
/// `Unauthorized` for any attempted rename, whatever the new name —
/// and, by the updater's contract, the username stays unchanged.
pub proof fn lemma_non_owner_update_rejected(
    s: Platform,
    caller: AccountId,
    profile_owner: AccountId,
    new_username: Seq<char>,
)
    requires
        s.has_profile(profile_owner),
        caller != profile_owner,
    ensures
        s.update_username_check(caller, profile_owner, new_username) == Err::<(), TippingError>(
            TippingError::Unauthorized,
        ),
{
}

/// A self-tip of native value is owed `InvalidRecipient`, whatever
/// the amount — and, by the handler's contract, no balance or record
/// moves.
pub proof fn lemma_self_tip_rejected(s: Platform, tipper: AccountId, amount: u64, message: Seq<
    char,
>)
    requires
        s.global is Some,
        message.len() <= MAX_MESSAGE,
        s.has_stats(tipper),
    ensures
        s.tip_value_check(tipper, tipper, amount, message) == Err::<(), TippingError>(
            TippingError::InvalidRecipient,
        ),
{
}

/// The message length bound is sharp for native tips: a message over
/// the bound is owed `MessageTooLong`, and with every other condition
/// met a message at the bound is owed success.
pub proof fn lemma_message_bound_value(
    s: Platform,
    tipper: AccountId,
    recipient: AccountId,
    amount: u64,
    message: Seq<char>,
)
    requires
        s.global is Some,
        s.has_stats(recipient),
        tipper != recipient,
        amount > 0,
        s.balance_of(tipper) >= amount,
        s.balance_of(recipient) + amount <= u64::MAX,
        s.stats_of(recipient).total_value_received + amount <= u64::MAX,
        s.global->Some_0.total_value_tipped + amount <= u64::MAX,
    ensures
        message.len() > MAX_MESSAGE ==> s.tip_value_check(tipper, recipient, amount, message)
            == Err::<(), TippingError>(TippingError::MessageTooLong),
        message.len() <= MAX_MESSAGE ==> s.tip_value_check(tipper, recipient, amount, message)
            is Ok,
{
}

/// The message length bound is sharp for token tips: a message over
/// the bound is owed `MessageTooLong`, and with every other condition
/// met a message at the bound is owed success.
pub proof fn lemma_message_bound_token(
    s: Platform,
    tipper: AccountId,
    recipient: AccountId,
    token_kind: TokenKind,
    amount: u64,
    message: Seq<char>,
)
    requires
        s.global is Some,
        s.has_stats(recipient),
        token_kind == s.stats_of(recipient).token_kind,
        tipper != recipient,
        amount > 0,
        s.stats_of(recipient).total_token_received + amount <= u64::MAX,
        s.global->Some_0.total_token_tipped + amount <= u64::MAX,
    ensures
        message.len() > MAX_MESSAGE ==> s.tip_token_check(tipper, recipient, token_kind, amount,
            message) == Err::<(), TippingError>(TippingError::MessageTooLong),
        message.len() <= MAX_MESSAGE ==> s.tip_token_check(tipper, recipient, token_kind, amount,
            message) is Ok,
{
}

/// A token tip in a kind other than the one the recipient registered
/// is owed `InvalidMint` — and, by the handler's contract, no record
/// moves.
pub proof fn lemma_wrong_token_kind_rejected(
    s: Platform,
    tipper: AccountId,
    recipient: AccountId,
    token_kind: TokenKind,
    amount: u64,
    message: Seq<char>,
)
    requires
        s.global is Some,
        message.len() <= MAX_MESSAGE,
        s.has_stats(recipient),
        token_kind != s.stats_of(recipient).token_kind,
    ensures
        s.tip_token_check(tipper, recipient, token_kind, amount, message) == Err::<(),
            TippingError,
        >(TippingError::InvalidMint),
{
}

/// Sequential native tips to the same recipient accumulate: after two
/// successful tips the received and global totals have grown by the
/// sum of the two amounts, the tipper paid the sum, and the last
/// message is the second one.
pub proof fn lemma_value_tips_accumulate(
    s0: Platform,
    s1: Platform,
    s2: Platform,
    tipper: AccountId,
    recipient: AccountId,
    amount1: u64,
    amount2: u64,
    message1: Seq<char>,
    message2: Seq<char>,
)
    requires
        value_tipped(s0, s1, tipper, recipient, amount1, message1),
        value_tipped(s1, s2, tipper, recipient, amount2, message2),
    ensures
        s2.stats_of(recipient).total_value_received == s0.stats_of(recipient).total_value_received
            + amount1 + amount2,
        s2.global->Some_0.total_value_tipped == s0.global->Some_0.total_value_tipped + amount1
            + amount2,
        s2.stats_of(recipient).last_message@ == message2,
        s2.balance_of(tipper) == s0.balance_of(tipper) - amount1 - amount2,
        s2.balance_of(recipient) == s0.balance_of(recipient) + amount1 + amount2,
{
}

/// A native tip whose amount exceeds the tipper's spendable balance
/// is owed `InsufficientValue` — and, by the handler's contract, no
/// balance or record moves.
pub proof fn lemma_insufficient_balance_rejected(
    s: Platform,
    tipper: AccountId,
    recipient: AccountId,
    amount: u64,
    message: Seq<char>,
)
    requires
        s.global is Some,
        message.len() <= MAX_MESSAGE,
        s.has_stats(recipient),
        tipper != recipient,
        amount > 0,
        s.balance_of(tipper) < amount,
    ensures
        s.tip_value_check(tipper, recipient, amount, message) == Err::<(), TippingError>(
            TippingError::InsufficientValue,
        ),
{
}

} // verus!
