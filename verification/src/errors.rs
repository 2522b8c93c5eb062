use vstd::prelude::*;

verus! {

/// Every way an instruction handler can refuse a request.
///
/// A handler that returns one of these leaves every record unchanged.
#[derive(Clone, Copy, Debug, PartialEq, Eq)]
pub enum TippingError {
    /// A username longer than the profile limit was supplied.
    UsernameTooLong,
    /// A tip message longer than the message limit was supplied.
    MessageTooLong,
    /// A profile or tip-stats record already exists for this identity.
    ProfileExists,
    /// No record exists where one is required.
    ProfileNotExists,
    /// The requester does not own the record it tries to change.
    Unauthorized,
    /// The supplied token kind is not the one the recipient registered.
    InvalidMint,
    /// The tipper and the recipient are the same identity.
    InvalidRecipient,
    /// A tip amount must be positive.
    InvalidAmount,
    /// The tipper's spendable balance does not cover the amount.
    InsufficientValue,
    /// An addition on a counter or balance would overflow.
    ArithmeticOverflow,
    /// The global state was already created.
    AlreadyInitialized,
    /// A tip was attempted before the global state was created.
    PlatformNotInitialized,
}

} // verus!
