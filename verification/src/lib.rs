//! A small ledger engine for a tipping platform.
//!
//! The library models the platform's record store: a singleton
//! [`state::GlobalState`], one [`state::UserProfile`] and one
//! [`state::TipStats`] record per user, and the native-value balances.
//! The instruction handlers on [`platform::Platform`] validate each
//! request, mutate the store atomically, and report every failure as a
//! [`errors::TippingError`] with the store unchanged.

pub mod errors;
pub mod laws;
pub mod platform;
pub mod state;

pub use errors::TippingError;
pub use platform::Platform;
pub use state::AccountId;
pub use state::GlobalState;
pub use state::TipStats;
pub use state::TokenKind;
pub use state::TokenTransfer;
pub use state::UserProfile;
