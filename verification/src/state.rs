use vstd::prelude::*;

verus! {

/// A principal that can authorize requests; the signature layer that
/// establishes it is outside this library.
pub type AccountId = u64;

/// One fungible-token type, distinct from native value.
pub type TokenKind = u64;

/// Longest display name a profile may carry, in characters.
pub const MAX_USERNAME: usize = 20;

/// Longest tip message a stats record may carry, in characters.
pub const MAX_MESSAGE: usize = 80;

/// The platform-wide singleton: its administrator and the running
/// totals of everything ever tipped. Both totals only ever grow.
pub struct GlobalState {
    /// The identity that initialized the platform.
    pub admin: AccountId,
    /// Cumulative native value ever tipped.
    pub total_value_tipped: u64,
    /// Cumulative token amount ever tipped.
    pub total_token_tipped: u64,
}

/// One user's profile: the owning identity and a display name of at
/// most [`MAX_USERNAME`] characters.
pub struct UserProfile {
    /// The identity that created and owns this profile; never changes.
    pub owner: AccountId,
    /// Display name, at most [`MAX_USERNAME`] characters.
    pub username: String,
}

/// One user's received-tip counters, created together with the
/// profile. The counters only ever grow; the token kind never changes.
pub struct TipStats {
    /// The identity these statistics track; never changes.
    pub owner: AccountId,
    /// Cumulative native value this user received.
    pub total_value_received: u64,
    /// Cumulative token amount this user received.
    pub total_token_received: u64,
    /// The single token kind this record accepts tips in.
    pub token_kind: TokenKind,
    /// The most recent tip message, at most [`MAX_MESSAGE`] characters.
    pub last_message: String,
}

/// One identity's spendable native-value balance.
pub struct NativeBalance {
    /// The identity holding the balance.
    pub owner: AccountId,
    /// The spendable amount.
    pub value: u64,
}

/// An order for the external token subsystem: move `amount` of
/// `kind` from `source` to `destination`, authorized by `authority`.
/// The library only issues the order; the subsystem moves the balance.
#[derive(Clone, Copy, Debug, PartialEq, Eq)]
pub struct TokenTransfer {
    /// The token account debited.
    pub source: AccountId,
    /// The token account credited.
    pub destination: AccountId,
    /// The identity that authorizes the debit.
    pub authority: AccountId,
    /// The token kind moved.
    pub kind: TokenKind,
    /// The amount moved.
    pub amount: u64,
}

} // verus!
