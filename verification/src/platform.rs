use vstd::prelude::*;

use crate::errors::TippingError;
use crate::state::AccountId;
use crate::state::GlobalState;
use crate::state::NativeBalance;
use crate::state::TipStats;
use crate::state::TokenKind;
use crate::state::TokenTransfer;
use crate::state::UserProfile;
use crate::state::MAX_MESSAGE;
use crate::state::MAX_USERNAME;

verus! {

/// The whole record store of the tipping platform: the global
/// singleton, every user's profile and tip statistics, and every
/// identity's spendable native-value balance.
///
/// Records are keyed by the owning identity: [`Platform::wf`] keeps at
/// most one record of each kind per identity, so `profile_of`,
/// `stats_of` and `balance_of` are well defined. Every instruction
/// handler validates first and mutates only on success; on any error
/// the store is returned unchanged.
pub struct Platform {
    /// The platform singleton; `None` until the platform is initialized.
    pub global: Option<GlobalState>,
    /// Every user profile, at most one per identity.
    pub profiles: Vec<UserProfile>,
    /// Every tip-statistics record, at most one per identity.
    pub stats: Vec<TipStats>,
    /// Every spendable native-value balance; an identity without an
    /// entry holds zero.
    pub balances: Vec<NativeBalance>,
}

/// What a successful registration did to the store: the caller's two
/// fresh records exist as specified, and nothing else moved.
pub open spec fn profile_created(
    pre: Platform,
    post: Platform,
    caller: AccountId,
    username: Seq<char>,
    token_kind: TokenKind,
) -> bool {
    &&& post.global == pre.global
    &&& post.balances@ == pre.balances@
    &&& post.has_profile(caller)
    &&& post.has_stats(caller)
    &&& post.profile_of(caller).owner == caller
    &&& post.profile_of(caller).username@ == username
    &&& post.stats_of(caller).owner == caller
    &&& post.stats_of(caller).total_value_received == 0
    &&& post.stats_of(caller).total_token_received == 0
    &&& post.stats_of(caller).token_kind == token_kind
    &&& post.stats_of(caller).last_message@ == Seq::<char>::empty()
    &&& forall|id: AccountId|
        id != caller ==> #[trigger] post.has_profile(id) == pre.has_profile(id)
    &&& forall|id: AccountId| id != caller ==> #[trigger] post.has_stats(id) == pre.has_stats(id)
    &&& forall|id: AccountId|
        id != caller && pre.has_profile(id) ==> #[trigger] post.profile_of(id) == pre.profile_of(
            id,
        )
    &&& forall|id: AccountId|
        id != caller && pre.has_stats(id) ==> #[trigger] post.stats_of(id) == pre.stats_of(id)
}

/// What a successful username update did to the store: the one
/// profile carries the new name, and nothing else moved.
pub open spec fn username_updated(
    pre: Platform,
    post: Platform,
    profile_owner: AccountId,
    new_username: Seq<char>,
) -> bool {
    &&& post.global == pre.global
    &&& post.stats@ == pre.stats@
    &&& post.balances@ == pre.balances@
    &&& forall|id: AccountId| #[trigger] post.has_profile(id) == pre.has_profile(id)
    &&& post.profile_of(profile_owner).owner == profile_owner
    &&& post.profile_of(profile_owner).username@ == new_username
    &&& forall|id: AccountId|
        id != profile_owner && pre.has_profile(id) ==> #[trigger] post.profile_of(id)
            == pre.profile_of(id)
}

/// What a successful native-value tip did to the store: value moved
/// from tipper to recipient, both running totals grew by exactly the
/// amount, the last message was overwritten, and nothing else moved.
pub open spec fn value_tipped(
    pre: Platform,
    post: Platform,
    tipper: AccountId,
    recipient: AccountId,
    amount: u64,
    message: Seq<char>,
) -> bool {
    &&& post.profiles@ == pre.profiles@
    &&& pre.global is Some
    &&& post.global is Some
    &&& post.global->Some_0.admin == pre.global->Some_0.admin
    &&& post.global->Some_0.total_value_tipped == pre.global->Some_0.total_value_tipped + amount
    &&& post.global->Some_0.total_token_tipped == pre.global->Some_0.total_token_tipped
    &&& forall|id: AccountId| #[trigger] post.has_stats(id) == pre.has_stats(id)
    &&& post.stats_of(recipient).owner == recipient
    &&& post.stats_of(recipient).total_value_received == pre.stats_of(
        recipient,
    ).total_value_received + amount
    &&& post.stats_of(recipient).total_token_received == pre.stats_of(
        recipient,
    ).total_token_received
    &&& post.stats_of(recipient).token_kind == pre.stats_of(recipient).token_kind
    &&& post.stats_of(recipient).last_message@ == message
    &&& forall|id: AccountId|
        id != recipient && pre.has_stats(id) ==> #[trigger] post.stats_of(id) == pre.stats_of(id)
    &&& post.balance_of(tipper) == pre.balance_of(tipper) - amount
    &&& post.balance_of(recipient) == pre.balance_of(recipient) + amount
    &&& forall|id: AccountId|
        id != tipper && id != recipient ==> #[trigger] post.balance_of(id) == pre.balance_of(id)
}

/// What recording a successful token tip did to the store: the
/// recipient's received-token total and the global token total grew by
/// exactly the amount, the last message was overwritten, and nothing
/// else moved. The token balances themselves live in the external
/// token subsystem, not in the store.
pub open spec fn token_tip_recorded(
    pre: Platform,
    post: Platform,
    recipient: AccountId,
    amount: u64,
    message: Seq<char>,
) -> bool {
    &&& post.profiles@ == pre.profiles@
    &&& post.balances@ == pre.balances@
    &&& pre.global is Some
    &&& post.global is Some
    &&& post.global->Some_0.admin == pre.global->Some_0.admin
    &&& post.global->Some_0.total_value_tipped == pre.global->Some_0.total_value_tipped
    &&& post.global->Some_0.total_token_tipped == pre.global->Some_0.total_token_tipped + amount
    &&& forall|id: AccountId| #[trigger] post.has_stats(id) == pre.has_stats(id)
    &&& post.stats_of(recipient).owner == recipient
    &&& post.stats_of(recipient).total_value_received == pre.stats_of(
        recipient,
    ).total_value_received
    &&& post.stats_of(recipient).total_token_received == pre.stats_of(
        recipient,
    ).total_token_received + amount
    &&& post.stats_of(recipient).token_kind == pre.stats_of(recipient).token_kind
    &&& post.stats_of(recipient).last_message@ == message
    &&& forall|id: AccountId|
        id != recipient && pre.has_stats(id) ==> #[trigger] post.stats_of(id) == pre.stats_of(id)
}

impl Platform {
    /// A profile record exists for `id`.
    pub open spec fn has_profile(self, id: AccountId) -> bool {
        exists|i: int| 0 <= i < self.profiles@.len() && self.profiles@[i].owner == id
    }

    /// The profile record for `id`; meaningful when `has_profile(id)`
    /// holds and profile owners are unique.
    pub open spec fn profile_of(self, id: AccountId) -> UserProfile {
        self.profiles@[choose|i: int|
            0 <= i < self.profiles@.len() && self.profiles@[i].owner == id]
    }

    /// A tip-statistics record exists for `id`.
    pub open spec fn has_stats(self, id: AccountId) -> bool {
        exists|i: int| 0 <= i < self.stats@.len() && self.stats@[i].owner == id
    }

    /// The tip-statistics record for `id`; meaningful when
    /// `has_stats(id)` holds and stats owners are unique.
    pub open spec fn stats_of(self, id: AccountId) -> TipStats {
        self.stats@[choose|i: int|
            0 <= i < self.stats@.len() && self.stats@[i].owner == id]
    }

    /// A native-balance entry exists for `id`.
    pub open spec fn has_balance(self, id: AccountId) -> bool {
        exists|i: int| 0 <= i < self.balances@.len() && self.balances@[i].owner == id
    }

    /// The spendable native value `id` holds; zero without an entry.
    pub open spec fn balance_of(self, id: AccountId) -> u64 {
        if self.has_balance(id) {
            self.balances@[choose|i: int|
                0 <= i < self.balances@.len() && self.balances@[i].owner == id].value
        } else {
            0u64
        }
    }

    /// At most one profile per identity.
    pub open spec fn unique_profile_owners(self) -> bool {
        forall|i: int, j: int|
            0 <= i < self.profiles@.len() && 0 <= j < self.profiles@.len() && i != j
                ==> #[trigger] self.profiles@[i].owner != #[trigger] self.profiles@[j].owner
    }

    /// At most one tip-statistics record per identity.
    pub open spec fn unique_stats_owners(self) -> bool {
        forall|i: int, j: int|
            0 <= i < self.stats@.len() && 0 <= j < self.stats@.len() && i != j
                ==> #[trigger] self.stats@[i].owner != #[trigger] self.stats@[j].owner
    }

    /// At most one balance entry per identity.
    pub open spec fn unique_balance_owners(self) -> bool {
        forall|i: int, j: int|
            0 <= i < self.balances@.len() && 0 <= j < self.balances@.len() && i != j
                ==> #[trigger] self.balances@[i].owner != #[trigger] self.balances@[j].owner
    }

    /// Profile and tip statistics are co-created: each identity has
    /// either both records or neither.
    pub open spec fn paired(self) -> bool {
        forall|id: AccountId|
            #![trigger self.has_profile(id)]
            #![trigger self.has_stats(id)]
            self.has_profile(id) <==> self.has_stats(id)
    }

    /// Every stored username is within the length bound.
    pub open spec fn usernames_bounded(self) -> bool {
        forall|i: int|
            0 <= i < self.profiles@.len()
                ==> #[trigger] self.profiles@[i].username@.len() <= MAX_USERNAME
    }

    /// Every stored tip message is within the length bound.
    pub open spec fn messages_bounded(self) -> bool {
        forall|i: int|
            0 <= i < self.stats@.len()
                ==> #[trigger] self.stats@[i].last_message@.len() <= MAX_MESSAGE
    }

    /// Well-formedness of the whole store: record uniqueness, the
    /// co-creation pairing, and the string length bounds. Established
    /// by [`Platform::new`] and preserved by every handler.
    pub open spec fn wf(self) -> bool {
        &&& self.unique_profile_owners()
        &&& self.unique_stats_owners()
        &&& self.unique_balance_owners()
        &&& self.paired()
        &&& self.usernames_bounded()
        &&& self.messages_bounded()
    }

    /// An empty store: uninitialized, no records, no balances.
    pub fn new() -> (r: Platform)
        ensures
            r.wf(),
            r.global is None,
            r.profiles@.len() == 0,
            r.stats@.len() == 0,
            r.balances@.len() == 0,
            forall|id: AccountId| !(#[trigger] r.has_profile(id)),
            forall|id: AccountId| !(#[trigger] r.has_stats(id)),
            forall|id: AccountId| #[trigger] r.balance_of(id) == 0,
    {
        Platform { global: None, profiles: Vec::new(), stats: Vec::new(), balances: Vec::new() }
    }

    /// The outcome the platform initializer owes on this store.
    pub open spec fn initialize_check(self) -> Result<(), TippingError> {
        if self.global is Some {
            Err(TippingError::AlreadyInitialized)
        } else {
            Ok(())
        }
    }

    /// Create the global singleton exactly once: the requester becomes
    /// the administrator and both running totals start at zero. Fails
    /// if the singleton already exists, leaving the store unchanged.
    pub fn initialize_platform(&mut self, admin: AccountId) -> (r: Result<(), TippingError>)
        requires
            old(self).wf(),
        ensures
            final(self).wf(),
            r == old(self).initialize_check(),
            r is Ok ==> *final(self) == (Platform {
                global: Some(GlobalState { admin, total_value_tipped: 0, total_token_tipped: 0 }),
                ..*old(self)
            }),
            r is Err ==> *final(self) == *old(self),
    {
        if self.global.is_some() {
            return Err(TippingError::AlreadyInitialized);
        }
        self.global = Some(GlobalState { admin, total_value_tipped: 0, total_token_tipped: 0 });
        proof {
            Platform::lemma_records_unchanged(*old(self), *self);
        }
        Ok(())
    }

    /// The outcome the profile registrar owes on this store: the
    /// username must fit, and neither record may already exist.
    pub open spec fn create_profile_check(self, caller: AccountId, username: Seq<char>) -> Result<
        (),
        TippingError,
    > {
        if username.len() > MAX_USERNAME {
            Err(TippingError::UsernameTooLong)
        } else if self.has_profile(caller) || self.has_stats(caller) {
            Err(TippingError::ProfileExists)
        } else {
            Ok(())
        }
    }

    /// Create the caller's profile and tip statistics together:
    /// exactly two new records, both owned by the caller, the counters
    /// zero, the last message empty and the token kind fixed to the
    /// supplied value. Fails if the username exceeds [`MAX_USERNAME`]
    /// characters or if the caller is already registered; every
    /// failure leaves the store unchanged.
    pub fn create_profile(&mut self, caller: AccountId, username: String, token_kind: TokenKind)
        -> (r: Result<(), TippingError>)
        requires
            old(self).wf(),
        ensures
            final(self).wf(),
            r == old(self).create_profile_check(caller, username@),
            r is Ok ==> profile_created(*old(self), *final(self), caller, username@, token_kind),
            r is Err ==> *final(self) == *old(self),
    {
        if username.as_str().unicode_len() > MAX_USERNAME {
            return Err(TippingError::UsernameTooLong);
        }
        if self.find_profile(caller).is_some() || self.find_stats(caller).is_some() {
            return Err(TippingError::ProfileExists);
        }
        let ghost pre = *self;
        let new_profile = UserProfile { owner: caller, username };
        let ghost pp = new_profile;
        self.profiles.push(new_profile);
        let new_stats = TipStats {
            owner: caller,
            total_value_received: 0,
            total_token_received: 0,
            token_kind,
            last_message: String::new(),
        };
        let ghost ss = new_stats;
        self.stats.push(new_stats);
        proof {
            Platform::lemma_profile_push(pre, *self, pp);
            Platform::lemma_stats_push(pre, *self, ss);
            assert forall|id: AccountId|
                #![trigger self.has_profile(id)]
                #![trigger self.has_stats(id)]
                self.has_profile(id) <==> self.has_stats(id) by {
                assert(self.has_profile(id) == (pre.has_profile(id) || id == caller));
                assert(self.has_stats(id) == (pre.has_stats(id) || id == caller));
                assert(pre.has_profile(id) == pre.has_stats(id));
            }
        }
        Ok(())
    }

    /// The outcome the profile updater owes on this store: the named
    /// profile must exist, the caller must own it, and the new
    /// username must fit — in that order of precedence.
    pub open spec fn update_username_check(
        self,
        caller: AccountId,
        profile_owner: AccountId,
        new_username: Seq<char>,
    ) -> Result<(), TippingError> {
        if !self.has_profile(profile_owner) {
            Err(TippingError::ProfileNotExists)
        } else if caller != profile_owner {
            Err(TippingError::Unauthorized)
        } else if new_username.len() > MAX_USERNAME {
            Err(TippingError::UsernameTooLong)
        } else {
            Ok(())
        }
    }

    /// Replace the username of the profile stored for `profile_owner`.
    /// Only the owner may do so, and only with a name of at most
    /// [`MAX_USERNAME`] characters; no other field and no other record
    /// changes, and every failure leaves the store unchanged.
    pub fn update_username(
        &mut self,
        caller: AccountId,
        profile_owner: AccountId,
        new_username: String,
    ) -> (r: Result<(), TippingError>)
        requires
            old(self).wf(),
        ensures
            final(self).wf(),
            r == old(self).update_username_check(caller, profile_owner, new_username@),
            r is Ok ==> username_updated(*old(self), *final(self), profile_owner, new_username@),
            r is Err ==> *final(self) == *old(self),
    {
        let i = match self.find_profile(profile_owner) {
            Some(i) => i,
            None => {
                return Err(TippingError::ProfileNotExists);
            },
        };
        if caller != profile_owner {
            return Err(TippingError::Unauthorized);
        }
        if new_username.as_str().unicode_len() > MAX_USERNAME {
            return Err(TippingError::UsernameTooLong);
        }
        let ghost pre = *self;
        let updated = UserProfile { owner: profile_owner, username: new_username };
        let ghost pp = updated;
        self.profiles.set(i, updated);
        proof {
            Platform::lemma_profile_update(pre, *self, i as int, pp);
            Platform::lemma_stats_same(pre, *self);
            Platform::lemma_balances_same(pre, *self);
            assert forall|id: AccountId|
                #![trigger self.has_profile(id)]
                #![trigger self.has_stats(id)]
                self.has_profile(id) <==> self.has_stats(id) by {
                assert(self.has_profile(id) == pre.has_profile(id));
                assert(pre.has_profile(id) == pre.has_stats(id));
            }
        }
        Ok(())
    }

    /// The outcome the native-value tip handler owes on this store,
    /// checked in this order: the platform must be initialized, the
    /// message must fit, the recipient must be registered, self-tips
    /// are refused, the amount must be positive and covered by the
    /// tipper's balance, and no counter may overflow.
    pub open spec fn tip_value_check(
        self,
        tipper: AccountId,
        recipient: AccountId,
        amount: u64,
        message: Seq<char>,
    ) -> Result<(), TippingError> {
        if self.global is None {
            Err(TippingError::PlatformNotInitialized)
        } else if message.len() > MAX_MESSAGE {
            Err(TippingError::MessageTooLong)
        } else if !self.has_stats(recipient) {
            Err(TippingError::ProfileNotExists)
        } else if tipper == recipient {
            Err(TippingError::InvalidRecipient)
        } else if amount == 0 {
            Err(TippingError::InvalidAmount)
        } else if self.balance_of(tipper) < amount {
            Err(TippingError::InsufficientValue)
        } else if self.balance_of(recipient) + amount > u64::MAX
            || self.stats_of(recipient).total_value_received + amount > u64::MAX
            || self.global->Some_0.total_value_tipped + amount > u64::MAX {
            Err(TippingError::ArithmeticOverflow)
        } else {
            Ok(())
        }
    }

    /// Move `amount` of native value from `tipper` to `recipient` and
    /// record the tip: the recipient's received total and the global
    /// total each grow by exactly `amount`, the last message is
    /// overwritten, and no other record or balance moves. All
    /// additions are overflow-checked up front, so every failure —
    /// including overflow — leaves the store unchanged.
    pub fn tip_value(
        &mut self,
        tipper: AccountId,
        recipient: AccountId,
        amount: u64,
        message: String,
    ) -> (r: Result<(), TippingError>)
        requires
            old(self).wf(),
        ensures
            final(self).wf(),
            r == old(self).tip_value_check(tipper, recipient, amount, message@),
            r is Ok ==> value_tipped(*old(self), *final(self), tipper, recipient, amount,
                message@),
            r is Err ==> *final(self) == *old(self),
    {
        let (admin0, gval, gtok) = match &self.global {
            Some(g) => (g.admin, g.total_value_tipped, g.total_token_tipped),
            None => {
                return Err(TippingError::PlatformNotInitialized);
            },
        };
        if message.as_str().unicode_len() > MAX_MESSAGE {
            return Err(TippingError::MessageTooLong);
        }
        let si = match self.find_stats(recipient) {
            Some(i) => i,
            None => {
                return Err(TippingError::ProfileNotExists);
            },
        };
        proof {
            self.lemma_stats_at(si as int);
        }
        if tipper == recipient {
            return Err(TippingError::InvalidRecipient);
        }
        if amount == 0 {
            return Err(TippingError::InvalidAmount);
        }
        let ti = match self.find_balance(tipper) {
            Some(i) => i,
            None => {
                return Err(TippingError::InsufficientValue);
            },
        };
        proof {
            self.lemma_balance_at(ti as int);
        }
        let tbal = self.balances[ti].value;
        if tbal < amount {
            return Err(TippingError::InsufficientValue);
        }
        let ri_opt = self.find_balance(recipient);
        let rbal = match ri_opt {
            Some(i) => {
                proof {
                    self.lemma_balance_at(i as int);
                }
                self.balances[i].value
            },
            None => 0u64,
        };
        if rbal > u64::MAX - amount {
            return Err(TippingError::ArithmeticOverflow);
        }
        let recv = self.stats[si].total_value_received;
        if recv > u64::MAX - amount {
            return Err(TippingError::ArithmeticOverflow);
        }
        if gval > u64::MAX - amount {
            return Err(TippingError::ArithmeticOverflow);
        }
        let ghost pre = *self;
        let debited = NativeBalance { owner: tipper, value: tbal - amount };
        let ghost gdeb = debited;
        self.balances.set(ti, debited);
        let ghost mid1 = *self;
        proof {
            Platform::lemma_balance_update(pre, mid1, ti as int, gdeb);
        }
        match ri_opt {
            Some(ri) => {
                proof {
                    assert(ri != ti);
                    assert(mid1.balances@[ri as int].owner == recipient);
                }
                let credited = NativeBalance { owner: recipient, value: rbal + amount };
                let ghost gcred = credited;
                self.balances.set(ri, credited);
                proof {
                    Platform::lemma_balance_update(mid1, *self, ri as int, gcred);
                }
            },
            None => {
                let credited = NativeBalance { owner: recipient, value: amount };
                let ghost gcred = credited;
                self.balances.push(credited);
                proof {
                    Platform::lemma_balance_push(mid1, *self, gcred);
                }
            },
        }
        let ghost mid2 = *self;
        proof {
            assert(mid2.balance_of(tipper) == pre.balance_of(tipper) - amount);
            assert(mid2.balance_of(recipient) == pre.balance_of(recipient) + amount);
            Platform::lemma_stats_same(pre, mid2);
        }
        let tk = self.stats[si].token_kind;
        let ttr = self.stats[si].total_token_received;
        let new_stats = TipStats {
            owner: recipient,
            total_value_received: recv + amount,
            total_token_received: ttr,
            token_kind: tk,
            last_message: message,
        };
        let ghost gstats = new_stats;
        self.stats.set(si, new_stats);
        let ghost mid3 = *self;
        proof {
            Platform::lemma_stats_update(mid2, mid3, si as int, gstats);
            Platform::lemma_balances_same(mid2, mid3);
        }
        self.global = Some(GlobalState {
            admin: admin0,
            total_value_tipped: gval + amount,
            total_token_tipped: gtok,
        });
        proof {
            Platform::lemma_profiles_same(pre, *self);
            Platform::lemma_stats_same(mid3, *self);
            Platform::lemma_balances_same(mid3, *self);
            assert forall|id: AccountId|
                #![trigger self.has_profile(id)]
                #![trigger self.has_stats(id)]
                self.has_profile(id) <==> self.has_stats(id) by {
                assert(self.has_profile(id) == pre.has_profile(id));
                assert(self.has_stats(id) == mid3.has_stats(id));
                assert(mid3.has_stats(id) == mid2.has_stats(id));
                assert(mid2.has_stats(id) == pre.has_stats(id));
                assert(pre.has_profile(id) == pre.has_stats(id));
            }
            assert(self.balance_of(tipper) == pre.balance_of(tipper) - amount);
            assert(self.balance_of(recipient) == pre.balance_of(recipient) + amount);
            assert forall|id: AccountId|
                id != tipper && id != recipient implies #[trigger] self.balance_of(id)
                == pre.balance_of(id) by {
                assert(self.balance_of(id) == mid3.balance_of(id));
                assert(mid3.balance_of(id) == mid2.balance_of(id));
                assert(mid2.balance_of(id) == pre.balance_of(id));
            }
            assert forall|id: AccountId|
                id != recipient && pre.has_stats(id) implies #[trigger] self.stats_of(id)
                == pre.stats_of(id) by {
                assert(mid2.has_stats(id) == pre.has_stats(id));
                assert(self.stats_of(id) == mid3.stats_of(id));
                assert(mid3.stats_of(id) == mid2.stats_of(id));
                assert(mid2.stats_of(id) == pre.stats_of(id));
            }
            assert(self.stats_of(recipient) == gstats);
            assert(pre.stats_of(recipient).total_value_received == recv);
        }
        Ok(())
    }

    /// The outcome the token tip handler owes on this store, checked
    /// in this order: the platform must be initialized, the message
    /// must fit, the recipient must be registered, the token kind
    /// must be the one the recipient registered, self-tips are
    /// refused, the amount must be positive, and no counter may
    /// overflow. The tipper's token balance is the external
    /// subsystem's affair and is not examined here.
    pub open spec fn tip_token_check(
        self,
        tipper: AccountId,
        recipient: AccountId,
        token_kind: TokenKind,
        amount: u64,
        message: Seq<char>,
    ) -> Result<(), TippingError> {
        if self.global is None {
            Err(TippingError::PlatformNotInitialized)
        } else if message.len() > MAX_MESSAGE {
            Err(TippingError::MessageTooLong)
        } else if !self.has_stats(recipient) {
            Err(TippingError::ProfileNotExists)
        } else if token_kind != self.stats_of(recipient).token_kind {
            Err(TippingError::InvalidMint)
        } else if tipper == recipient {
            Err(TippingError::InvalidRecipient)
        } else if amount == 0 {
            Err(TippingError::InvalidAmount)
        } else if self.stats_of(recipient).total_token_received + amount > u64::MAX
            || self.global->Some_0.total_token_tipped + amount > u64::MAX {
            Err(TippingError::ArithmeticOverflow)
        } else {
            Ok(())
        }
    }

    /// Validate a token tip and issue the transfer order for the
    /// external token subsystem. The store is not touched: the caller
    /// performs the ordered transfer and then records the tip with
    /// [`Platform::record_token_tip`]. The overflow checks run here
    /// already, so a tip validated against an unchanged store cannot
    /// fail to be recorded after the transfer went through.
    pub fn tip_token(
        &self,
        tipper: AccountId,
        recipient: AccountId,
        token_kind: TokenKind,
        amount: u64,
        message: &str,
    ) -> (r: Result<TokenTransfer, TippingError>)
        requires
            self.wf(),
        ensures
            match r {
                Ok(order) => self.tip_token_check(tipper, recipient, token_kind, amount, message@)
                    is Ok && order == (TokenTransfer {
                    source: tipper,
                    destination: recipient,
                    authority: tipper,
                    kind: token_kind,
                    amount,
                }),
                Err(e) => self.tip_token_check(tipper, recipient, token_kind, amount, message@)
                    == Err::<(), TippingError>(e),
            },
    {
        let gtok = match &self.global {
            Some(g) => g.total_token_tipped,
            None => {
                return Err(TippingError::PlatformNotInitialized);
            },
        };
        if message.unicode_len() > MAX_MESSAGE {
            return Err(TippingError::MessageTooLong);
        }
        let si = match self.find_stats(recipient) {
            Some(i) => i,
            None => {
                return Err(TippingError::ProfileNotExists);
            },
        };
        proof {
            self.lemma_stats_at(si as int);
        }
        if token_kind != self.stats[si].token_kind {
            return Err(TippingError::InvalidMint);
        }
        if tipper == recipient {
            return Err(TippingError::InvalidRecipient);
        }
        if amount == 0 {
            return Err(TippingError::InvalidAmount);
        }
        if self.stats[si].total_token_received > u64::MAX - amount {
            return Err(TippingError::ArithmeticOverflow);
        }
        if gtok > u64::MAX - amount {
            return Err(TippingError::ArithmeticOverflow);
        }
        Ok(TokenTransfer {
            source: tipper,
            destination: recipient,
            authority: tipper,
            kind: token_kind,
            amount,
        })
    }

    /// Record a token tip whose transfer the external subsystem has
    /// performed: the recipient's received-token total and the global
    /// token total each grow by exactly `amount` and the last message
    /// is overwritten. The checks are the same as in
    /// [`Platform::tip_token`], and every failure leaves the store
    /// unchanged.
    pub fn record_token_tip(
        &mut self,
        tipper: AccountId,
        recipient: AccountId,
        token_kind: TokenKind,
        amount: u64,
        message: String,
    ) -> (r: Result<(), TippingError>)
        requires
            old(self).wf(),
        ensures
            final(self).wf(),
            r == old(self).tip_token_check(tipper, recipient, token_kind, amount, message@),
            r is Ok ==> token_tip_recorded(*old(self), *final(self), recipient, amount, message@),
            r is Err ==> *final(self) == *old(self),
    {
        let (admin0, gval, gtok) = match &self.global {
            Some(g) => (g.admin, g.total_value_tipped, g.total_token_tipped),
            None => {
                return Err(TippingError::PlatformNotInitialized);
            },
        };
        if message.as_str().unicode_len() > MAX_MESSAGE {
            return Err(TippingError::MessageTooLong);
        }
        let si = match self.find_stats(recipient) {
            Some(i) => i,
            None => {
                return Err(TippingError::ProfileNotExists);
            },
        };
        proof {
            self.lemma_stats_at(si as int);
        }
        if token_kind != self.stats[si].token_kind {
            return Err(TippingError::InvalidMint);
        }
        if tipper == recipient {
            return Err(TippingError::InvalidRecipient);
        }
        if amount == 0 {
            return Err(TippingError::InvalidAmount);
        }
        let recv = self.stats[si].total_token_received;
        if recv > u64::MAX - amount {
            return Err(TippingError::ArithmeticOverflow);
        }
        if gtok > u64::MAX - amount {
            return Err(TippingError::ArithmeticOverflow);
        }
        let ghost pre = *self;
        let tvr = self.stats[si].total_value_received;
        let new_stats = TipStats {
            owner: recipient,
            total_value_received: tvr,
            total_token_received: recv + amount,
            token_kind,
            last_message: message,
        };
        let ghost gstats = new_stats;
        self.stats.set(si, new_stats);
        let ghost mid = *self;
        proof {
            Platform::lemma_stats_update(pre, mid, si as int, gstats);
            Platform::lemma_balances_same(pre, mid);
        }
        self.global = Some(GlobalState {
            admin: admin0,
            total_value_tipped: gval,
            total_token_tipped: gtok + amount,
        });
        proof {
            Platform::lemma_profiles_same(pre, *self);
            Platform::lemma_stats_same(mid, *self);
            Platform::lemma_balances_same(mid, *self);
            assert forall|id: AccountId|
                #![trigger self.has_profile(id)]
                #![trigger self.has_stats(id)]
                self.has_profile(id) <==> self.has_stats(id) by {
                assert(self.has_profile(id) == pre.has_profile(id));
                assert(self.has_stats(id) == mid.has_stats(id));
                assert(mid.has_stats(id) == pre.has_stats(id));
                assert(pre.has_profile(id) == pre.has_stats(id));
            }
            assert forall|id: AccountId|
                id != recipient && pre.has_stats(id) implies #[trigger] self.stats_of(id)
                == pre.stats_of(id) by {
                assert(self.stats_of(id) == mid.stats_of(id));
                assert(mid.stats_of(id) == pre.stats_of(id));
            }
            assert forall|id: AccountId| #[trigger] self.balance_of(id) == pre.balance_of(
                id,
            ) by {
                assert(self.balance_of(id) == mid.balance_of(id));
                assert(mid.balance_of(id) == pre.balance_of(id));
            }
            assert(self.stats_of(recipient) == gstats);
        }
        Ok(())
    }

    /// The outcome a native-value deposit owes on this store: it only
    /// refuses a balance that would overflow.
    pub open spec fn deposit_check(self, owner: AccountId, amount: u64) -> Result<
        (),
        TippingError,
    > {
        if self.balance_of(owner) + amount > u64::MAX {
            Err(TippingError::ArithmeticOverflow)
        } else {
            Ok(())
        }
    }

    /// Credit `amount` of native value to `owner`'s spendable
    /// balance. This is the mirror of the hosting environment's own
    /// funding of accounts; tipping only moves value that was
    /// deposited here first.
    pub fn deposit_value(&mut self, owner: AccountId, amount: u64) -> (r: Result<
        (),
        TippingError,
    >)
        requires
            old(self).wf(),
        ensures
            final(self).wf(),
            r == old(self).deposit_check(owner, amount),
            r is Ok ==> final(self).balance_of(owner) == old(self).balance_of(owner) + amount,
            r is Ok ==> forall|id: AccountId|
                id != owner ==> #[trigger] final(self).balance_of(id) == old(self).balance_of(id),
            r is Ok ==> final(self).profiles@ == old(self).profiles@ && final(self).stats@ == old(
                self,
            ).stats@ && final(self).global == old(self).global,
            r is Err ==> *final(self) == *old(self),
    {
        let ghost pre = *self;
        match self.find_balance(owner) {
            Some(i) => {
                proof {
                    self.lemma_balance_at(i as int);
                }
                let cur = self.balances[i].value;
                if cur > u64::MAX - amount {
                    return Err(TippingError::ArithmeticOverflow);
                }
                let entry = NativeBalance { owner, value: cur + amount };
                let ghost ge = entry;
                self.balances.set(i, entry);
                proof {
                    Platform::lemma_balance_update(pre, *self, i as int, ge);
                }
            },
            None => {
                let entry = NativeBalance { owner, value: amount };
                let ghost ge = entry;
                self.balances.push(entry);
                proof {
                    Platform::lemma_balance_push(pre, *self, ge);
                }
            },
        }
        proof {
            Platform::lemma_profiles_same(pre, *self);
            Platform::lemma_stats_same(pre, *self);
            assert forall|id: AccountId|
                #![trigger self.has_profile(id)]
                #![trigger self.has_stats(id)]
                self.has_profile(id) <==> self.has_stats(id) by {
                assert(self.has_profile(id) == pre.has_profile(id));
                assert(self.has_stats(id) == pre.has_stats(id));
                assert(pre.has_profile(id) == pre.has_stats(id));
            }
        }
        Ok(())
    }

    /// The global singleton, if the platform was initialized.
    pub fn get_global(&self) -> (r: Option<&GlobalState>)
        ensures
            match r {
                Some(g) => self.global == Some(*g),
                None => self.global is None,
            },
    {
        match &self.global {
            Some(g) => Some(g),
            None => None,
        }
    }

    /// The profile record stored for `id`, if any.
    pub fn get_profile(&self, id: AccountId) -> (r: Option<&UserProfile>)
        requires
            self.wf(),
        ensures
            match r {
                Some(p) => self.has_profile(id) && *p == self.profile_of(id),
                None => !self.has_profile(id),
            },
    {
        match self.find_profile(id) {
            Some(i) => {
                proof {
                    self.lemma_profile_at(i as int);
                }
                Some(&self.profiles[i])
            },
            None => None,
        }
    }

    /// The tip-statistics record stored for `id`, if any.
    pub fn get_stats(&self, id: AccountId) -> (r: Option<&TipStats>)
        requires
            self.wf(),
        ensures
            match r {
                Some(s) => self.has_stats(id) && *s == self.stats_of(id),
                None => !self.has_stats(id),
            },
    {
        match self.find_stats(id) {
            Some(i) => {
                proof {
                    self.lemma_stats_at(i as int);
                }
                Some(&self.stats[i])
            },
            None => None,
        }
    }

    /// The spendable native value `id` holds; zero without an entry.
    pub fn value_balance(&self, id: AccountId) -> (r: u64)
        requires
            self.wf(),
        ensures
            r == self.balance_of(id),
    {
        match self.find_balance(id) {
            Some(i) => {
                proof {
                    self.lemma_balance_at(i as int);
                }
                self.balances[i].value
            },
            None => 0u64,
        }
    }

    /// First index holding the profile of `id`, if any.
    fn find_profile(&self, id: AccountId) -> (r: Option<usize>)
        ensures
            match r {
                Some(i) => i < self.profiles@.len() && self.profiles@[i as int].owner == id
                    && self.has_profile(id),
                None => !self.has_profile(id),
            },
    {
        let mut i: usize = 0;
        while i < self.profiles.len()
            invariant
                i <= self.profiles@.len(),
                forall|j: int| 0 <= j < i ==> #[trigger] self.profiles@[j].owner != id,
            decreases self.profiles@.len() - i,
        {
            if self.profiles[i].owner == id {
                proof {
                    assert(self.has_profile(id)) by {
                        assert(self.profiles@[i as int].owner == id);
                    }
                }
                return Some(i);
            }
            i = i + 1;
        }
        proof {
            assert(!self.has_profile(id)) by {
                if self.has_profile(id) {
                    let k = choose|k: int|
                        0 <= k < self.profiles@.len() && self.profiles@[k].owner == id;
                    assert(self.profiles@[k].owner != id);
                }
            }
        }
        None
    }

    /// First index holding the tip statistics of `id`, if any.
    fn find_stats(&self, id: AccountId) -> (r: Option<usize>)
        ensures
            match r {
                Some(i) => i < self.stats@.len() && self.stats@[i as int].owner == id
                    && self.has_stats(id),
                None => !self.has_stats(id),
            },
    {
        let mut i: usize = 0;
        while i < self.stats.len()
            invariant
                i <= self.stats@.len(),
                forall|j: int| 0 <= j < i ==> #[trigger] self.stats@[j].owner != id,
            decreases self.stats@.len() - i,
        {
            if self.stats[i].owner == id {
                proof {
                    assert(self.has_stats(id)) by {
                        assert(self.stats@[i as int].owner == id);
                    }
                }
                return Some(i);
            }
            i = i + 1;
        }
        proof {
            assert(!self.has_stats(id)) by {
                if self.has_stats(id) {
                    let k = choose|k: int|
                        0 <= k < self.stats@.len() && self.stats@[k].owner == id;
                    assert(self.stats@[k].owner != id);
                }
            }
        }
        None
    }

    /// First index holding the balance entry of `id`, if any.
    fn find_balance(&self, id: AccountId) -> (r: Option<usize>)
        ensures
            match r {
                Some(i) => i < self.balances@.len() && self.balances@[i as int].owner == id
                    && self.has_balance(id),
                None => !self.has_balance(id),
            },
    {
        let mut i: usize = 0;
        while i < self.balances.len()
            invariant
                i <= self.balances@.len(),
                forall|j: int| 0 <= j < i ==> #[trigger] self.balances@[j].owner != id,
            decreases self.balances@.len() - i,
        {
            if self.balances[i].owner == id {
                proof {
                    assert(self.has_balance(id)) by {
                        assert(self.balances@[i as int].owner == id);
                    }
                }
                return Some(i);
            }
            i = i + 1;
        }
        proof {
            assert(!self.has_balance(id)) by {
                if self.has_balance(id) {
                    let k = choose|k: int|
                        0 <= k < self.balances@.len() && self.balances@[k].owner == id;
                    assert(self.balances@[k].owner != id);
                }
            }
        }
        None
    }

    /// Two stores with the same profile sequence denote the same
    /// profiles.
    proof fn lemma_profiles_same(pre: Platform, post: Platform)
        requires
            post.profiles@ == pre.profiles@,
        ensures
            forall|id: AccountId| #[trigger] post.has_profile(id) == pre.has_profile(id),
            forall|id: AccountId| #[trigger] post.profile_of(id) == pre.profile_of(id),
            pre.unique_profile_owners() ==> post.unique_profile_owners(),
            pre.usernames_bounded() ==> post.usernames_bounded(),
    {
        assert forall|id: AccountId| #[trigger] post.has_profile(id) == pre.has_profile(id) by {
            if pre.has_profile(id) {
                let k = choose|k: int|
                    0 <= k < pre.profiles@.len() && pre.profiles@[k].owner == id;
                assert(post.profiles@[k].owner == id);
            }
            if post.has_profile(id) {
                let k = choose|k: int|
                    0 <= k < post.profiles@.len() && post.profiles@[k].owner == id;
                assert(pre.profiles@[k].owner == id);
            }
        }
        assert forall|id: AccountId| #[trigger] post.profile_of(id) == pre.profile_of(id) by {
            assert(post.has_profile(id) == pre.has_profile(id));
        }
    }

    /// Two stores with the same stats sequence denote the same stats
    /// records.
    proof fn lemma_stats_same(pre: Platform, post: Platform)
        requires
            post.stats@ == pre.stats@,
        ensures
            forall|id: AccountId| #[trigger] post.has_stats(id) == pre.has_stats(id),
            forall|id: AccountId| #[trigger] post.stats_of(id) == pre.stats_of(id),
            pre.unique_stats_owners() ==> post.unique_stats_owners(),
            pre.messages_bounded() ==> post.messages_bounded(),
    {
        assert forall|id: AccountId| #[trigger] post.has_stats(id) == pre.has_stats(id) by {
            if pre.has_stats(id) {
                let k = choose|k: int| 0 <= k < pre.stats@.len() && pre.stats@[k].owner == id;
                assert(post.stats@[k].owner == id);
            }
            if post.has_stats(id) {
                let k = choose|k: int| 0 <= k < post.stats@.len() && post.stats@[k].owner == id;
                assert(pre.stats@[k].owner == id);
            }
        }
        assert forall|id: AccountId| #[trigger] post.stats_of(id) == pre.stats_of(id) by {
            assert(post.has_stats(id) == pre.has_stats(id));
        }
    }

    /// Two stores with the same balance sequence denote the same
    /// balances.
    proof fn lemma_balances_same(pre: Platform, post: Platform)
        requires
            post.balances@ == pre.balances@,
        ensures
            forall|id: AccountId| #[trigger] post.has_balance(id) == pre.has_balance(id),
            forall|id: AccountId| #[trigger] post.balance_of(id) == pre.balance_of(id),
            pre.unique_balance_owners() ==> post.unique_balance_owners(),
    {
        assert forall|id: AccountId| #[trigger] post.has_balance(id) == pre.has_balance(id) by {
            if pre.has_balance(id) {
                let k = choose|k: int|
                    0 <= k < pre.balances@.len() && pre.balances@[k].owner == id;
                assert(post.balances@[k].owner == id);
            }
            if post.has_balance(id) {
                let k = choose|k: int|
                    0 <= k < post.balances@.len() && post.balances@[k].owner == id;
                assert(pre.balances@[k].owner == id);
            }
        }
        assert forall|id: AccountId| #[trigger] post.balance_of(id) == pre.balance_of(id) by {
            assert(post.has_balance(id) == pre.has_balance(id));
        }
    }

    /// Two stores with the same record sequences denote the same
    /// records, whatever their global singletons hold.
    proof fn lemma_records_unchanged(pre: Platform, post: Platform)
        requires
            post.profiles@ == pre.profiles@,
            post.stats@ == pre.stats@,
            post.balances@ == pre.balances@,
        ensures
            forall|id: AccountId| #[trigger] post.has_profile(id) == pre.has_profile(id),
            forall|id: AccountId| #[trigger] post.has_stats(id) == pre.has_stats(id),
            forall|id: AccountId| #[trigger] post.has_balance(id) == pre.has_balance(id),
            forall|id: AccountId| #[trigger] post.profile_of(id) == pre.profile_of(id),
            forall|id: AccountId| #[trigger] post.stats_of(id) == pre.stats_of(id),
            forall|id: AccountId| #[trigger] post.balance_of(id) == pre.balance_of(id),
            pre.wf() ==> post.wf(),
    {
        Platform::lemma_profiles_same(pre, post);
        Platform::lemma_stats_same(pre, post);
        Platform::lemma_balances_same(pre, post);
    }

    /// Under owner uniqueness, the record at any index is the record
    /// `profile_of` denotes for its owner.
    proof fn lemma_profile_at(self, i: int)
        requires
            self.unique_profile_owners(),
            0 <= i < self.profiles@.len(),
        ensures
            self.has_profile(self.profiles@[i].owner),
            self.profile_of(self.profiles@[i].owner) == self.profiles@[i],
    {
        let id = self.profiles@[i].owner;
        assert(self.has_profile(id)) by {
            assert(self.profiles@[i].owner == id);
        }
        let k = choose|k: int| 0 <= k < self.profiles@.len() && self.profiles@[k].owner == id;
        assert(k == i);
    }

    /// Under owner uniqueness, the record at any index is the record
    /// `stats_of` denotes for its owner.
    proof fn lemma_stats_at(self, i: int)
        requires
            self.unique_stats_owners(),
            0 <= i < self.stats@.len(),
        ensures
            self.has_stats(self.stats@[i].owner),
            self.stats_of(self.stats@[i].owner) == self.stats@[i],
    {
        let id = self.stats@[i].owner;
        assert(self.has_stats(id)) by {
            assert(self.stats@[i].owner == id);
        }
        let k = choose|k: int| 0 <= k < self.stats@.len() && self.stats@[k].owner == id;
        assert(k == i);
    }

    /// Replacing the profile at index `i` by one with the same owner
    /// keeps owners unique and leaves every other profile as it was.
    proof fn lemma_profile_update(pre: Platform, post: Platform, i: int, e: UserProfile)
        requires
            pre.unique_profile_owners(),
            0 <= i < pre.profiles@.len(),
            e.owner == pre.profiles@[i].owner,
            post.profiles@ == pre.profiles@.update(i, e),
        ensures
            post.unique_profile_owners(),
            forall|id: AccountId| #[trigger] post.has_profile(id) == pre.has_profile(id),
            post.profile_of(e.owner) == e,
            forall|id: AccountId|
                id != e.owner && pre.has_profile(id)
                    ==> #[trigger] post.profile_of(id) == pre.profile_of(id),
            pre.usernames_bounded() && e.username@.len() <= MAX_USERNAME
                ==> post.usernames_bounded(),
    {
        assert forall|k: int| 0 <= k < post.profiles@.len() implies #[trigger] post.profiles@[k].owner
            == pre.profiles@[k].owner by {}
        assert forall|k: int, l: int|
            0 <= k < post.profiles@.len() && 0 <= l < post.profiles@.len() && k != l implies
            #[trigger] post.profiles@[k].owner != #[trigger] post.profiles@[l].owner by {
            assert(pre.profiles@[k].owner != pre.profiles@[l].owner);
        }
        assert forall|id: AccountId| #[trigger] post.has_profile(id) == pre.has_profile(id) by {
            if pre.has_profile(id) {
                let k = choose|k: int|
                    0 <= k < pre.profiles@.len() && pre.profiles@[k].owner == id;
                assert(post.profiles@[k].owner == id);
            }
            if post.has_profile(id) {
                let k = choose|k: int|
                    0 <= k < post.profiles@.len() && post.profiles@[k].owner == id;
                assert(pre.profiles@[k].owner == id);
            }
        }
        post.lemma_profile_at(i);
        assert forall|id: AccountId|
            id != e.owner && pre.has_profile(id) implies #[trigger] post.profile_of(id)
            == pre.profile_of(id) by {
            let k = choose|k: int| 0 <= k < pre.profiles@.len() && pre.profiles@[k].owner == id;
            assert(k != i);
            pre.lemma_profile_at(k);
            post.lemma_profile_at(k);
        }
        if pre.usernames_bounded() && e.username@.len() <= MAX_USERNAME {
            assert forall|k: int| 0 <= k < post.profiles@.len() implies #[trigger] post.profiles@[k].username@.len()
                <= MAX_USERNAME by {
                if k != i {
                    assert(post.profiles@[k] == pre.profiles@[k]);
                }
            }
        }
    }

    /// Appending a profile for a fresh owner keeps owners unique, adds
    /// exactly that record, and leaves every other profile as it was.
    proof fn lemma_profile_push(pre: Platform, post: Platform, e: UserProfile)
        requires
            pre.unique_profile_owners(),
            !pre.has_profile(e.owner),
            post.profiles@ == pre.profiles@.push(e),
        ensures
            post.unique_profile_owners(),
            post.profile_of(e.owner) == e,
            forall|id: AccountId| #[trigger] post.has_profile(id) == (pre.has_profile(id)
                || id == e.owner),
            forall|id: AccountId|
                id != e.owner && pre.has_profile(id)
                    ==> #[trigger] post.profile_of(id) == pre.profile_of(id),
            pre.usernames_bounded() && e.username@.len() <= MAX_USERNAME
                ==> post.usernames_bounded(),
    {
        let n = pre.profiles@.len() as int;
        assert forall|k: int| 0 <= k < n implies #[trigger] pre.profiles@[k].owner != e.owner by {
            if pre.profiles@[k].owner == e.owner {
                assert(pre.has_profile(e.owner));
            }
        }
        assert forall|k: int, l: int|
            0 <= k < post.profiles@.len() && 0 <= l < post.profiles@.len() && k != l implies
            #[trigger] post.profiles@[k].owner != #[trigger] post.profiles@[l].owner by {
            if k < n && l < n {
                assert(pre.profiles@[k].owner != pre.profiles@[l].owner);
            }
        }
        assert forall|id: AccountId| #[trigger] post.has_profile(id) == (pre.has_profile(id)
            || id == e.owner) by {
            if pre.has_profile(id) {
                let k = choose|k: int|
                    0 <= k < pre.profiles@.len() && pre.profiles@[k].owner == id;
                assert(post.profiles@[k].owner == id);
            }
            if id == e.owner {
                assert(post.profiles@[n].owner == id);
            }
            if post.has_profile(id) {
                let k = choose|k: int|
                    0 <= k < post.profiles@.len() && post.profiles@[k].owner == id;
                if k < n {
                    assert(pre.profiles@[k].owner == id);
                }
            }
        }
        post.lemma_profile_at(n);
        assert forall|id: AccountId|
            id != e.owner && pre.has_profile(id) implies #[trigger] post.profile_of(id)
            == pre.profile_of(id) by {
            let k = choose|k: int| 0 <= k < pre.profiles@.len() && pre.profiles@[k].owner == id;
            pre.lemma_profile_at(k);
            post.lemma_profile_at(k);
        }
        if pre.usernames_bounded() && e.username@.len() <= MAX_USERNAME {
            assert forall|k: int| 0 <= k < post.profiles@.len() implies #[trigger] post.profiles@[k].username@.len()
                <= MAX_USERNAME by {
                if k < n {
                    assert(post.profiles@[k] == pre.profiles@[k]);
                }
            }
        }
    }

    /// Replacing the stats record at index `i` by one with the same
    /// owner keeps owners unique and leaves every other record as it
    /// was.
    proof fn lemma_stats_update(pre: Platform, post: Platform, i: int, e: TipStats)
        requires
            pre.unique_stats_owners(),
            0 <= i < pre.stats@.len(),
            e.owner == pre.stats@[i].owner,
            post.stats@ == pre.stats@.update(i, e),
        ensures
            post.unique_stats_owners(),
            forall|id: AccountId| #[trigger] post.has_stats(id) == pre.has_stats(id),
            post.stats_of(e.owner) == e,
            forall|id: AccountId|
                id != e.owner && pre.has_stats(id)
                    ==> #[trigger] post.stats_of(id) == pre.stats_of(id),
            pre.messages_bounded() && e.last_message@.len() <= MAX_MESSAGE
                ==> post.messages_bounded(),
    {
        assert forall|k: int| 0 <= k < post.stats@.len() implies #[trigger] post.stats@[k].owner
            == pre.stats@[k].owner by {}
        assert forall|k: int, l: int|
            0 <= k < post.stats@.len() && 0 <= l < post.stats@.len() && k != l implies
            #[trigger] post.stats@[k].owner != #[trigger] post.stats@[l].owner by {
            assert(pre.stats@[k].owner != pre.stats@[l].owner);
        }
        assert forall|id: AccountId| #[trigger] post.has_stats(id) == pre.has_stats(id) by {
            if pre.has_stats(id) {
                let k = choose|k: int| 0 <= k < pre.stats@.len() && pre.stats@[k].owner == id;
                assert(post.stats@[k].owner == id);
            }
            if post.has_stats(id) {
                let k = choose|k: int| 0 <= k < post.stats@.len() && post.stats@[k].owner == id;
                assert(pre.stats@[k].owner == id);
            }
        }
        post.lemma_stats_at(i);
        assert forall|id: AccountId|
            id != e.owner && pre.has_stats(id) implies #[trigger] post.stats_of(id)
            == pre.stats_of(id) by {
            let k = choose|k: int| 0 <= k < pre.stats@.len() && pre.stats@[k].owner == id;
            assert(k != i);
            pre.lemma_stats_at(k);
            post.lemma_stats_at(k);
        }
        if pre.messages_bounded() && e.last_message@.len() <= MAX_MESSAGE {
            assert forall|k: int| 0 <= k < post.stats@.len() implies #[trigger] post.stats@[k].last_message@.len()
                <= MAX_MESSAGE by {
                if k != i {
                    assert(pre.stats@[k].last_message@.len() <= MAX_MESSAGE);
                    assert(post.stats@[k] == pre.stats@[k]);
                }
            }
        }
    }

    /// Appending a stats record for a fresh owner keeps owners unique,
    /// adds exactly that record, and leaves every other record as it
    /// was.
    proof fn lemma_stats_push(pre: Platform, post: Platform, e: TipStats)
        requires
            pre.unique_stats_owners(),
            !pre.has_stats(e.owner),
            post.stats@ == pre.stats@.push(e),
        ensures
            post.unique_stats_owners(),
            post.stats_of(e.owner) == e,
            forall|id: AccountId| #[trigger] post.has_stats(id) == (pre.has_stats(id)
                || id == e.owner),
            forall|id: AccountId|
                id != e.owner && pre.has_stats(id)
                    ==> #[trigger] post.stats_of(id) == pre.stats_of(id),
            pre.messages_bounded() && e.last_message@.len() <= MAX_MESSAGE
                ==> post.messages_bounded(),
    {
        let n = pre.stats@.len() as int;
        assert forall|k: int| 0 <= k < n implies #[trigger] pre.stats@[k].owner != e.owner by {
            if pre.stats@[k].owner == e.owner {
                assert(pre.has_stats(e.owner));
            }
        }
        assert forall|k: int, l: int|
            0 <= k < post.stats@.len() && 0 <= l < post.stats@.len() && k != l implies
            #[trigger] post.stats@[k].owner != #[trigger] post.stats@[l].owner by {
            if k < n && l < n {
                assert(pre.stats@[k].owner != pre.stats@[l].owner);
            }
        }
        assert forall|id: AccountId| #[trigger] post.has_stats(id) == (pre.has_stats(id)
            || id == e.owner) by {
            if pre.has_stats(id) {
                let k = choose|k: int| 0 <= k < pre.stats@.len() && pre.stats@[k].owner == id;
                assert(post.stats@[k].owner == id);
            }
            if id == e.owner {
                assert(post.stats@[n].owner == id);
            }
            if post.has_stats(id) {
                let k = choose|k: int| 0 <= k < post.stats@.len() && post.stats@[k].owner == id;
                if k < n {
                    assert(pre.stats@[k].owner == id);
                }
            }
        }
        post.lemma_stats_at(n);
        assert forall|id: AccountId|
            id != e.owner && pre.has_stats(id) implies #[trigger] post.stats_of(id)
            == pre.stats_of(id) by {
            let k = choose|k: int| 0 <= k < pre.stats@.len() && pre.stats@[k].owner == id;
            pre.lemma_stats_at(k);
            post.lemma_stats_at(k);
        }
        if pre.messages_bounded() && e.last_message@.len() <= MAX_MESSAGE {
            assert forall|k: int| 0 <= k < post.stats@.len() implies #[trigger] post.stats@[k].last_message@.len()
                <= MAX_MESSAGE by {
                if k < n {
                    assert(pre.stats@[k].last_message@.len() <= MAX_MESSAGE);
                    assert(post.stats@[k] == pre.stats@[k]);
                }
            }
        }
    }

    /// Replacing the balance entry at index `i` by one with the same
    /// owner keeps owners unique and leaves every other balance as it
    /// was.
    proof fn lemma_balance_update(pre: Platform, post: Platform, i: int, e: NativeBalance)
        requires
            pre.unique_balance_owners(),
            0 <= i < pre.balances@.len(),
            e.owner == pre.balances@[i].owner,
            post.balances@ == pre.balances@.update(i, e),
        ensures
            post.unique_balance_owners(),
            forall|id: AccountId| #[trigger] post.has_balance(id) == pre.has_balance(id),
            post.balance_of(e.owner) == e.value,
            forall|id: AccountId|
                id != e.owner ==> #[trigger] post.balance_of(id) == pre.balance_of(id),
    {
        assert forall|k: int| 0 <= k < post.balances@.len() implies #[trigger] post.balances@[k].owner
            == pre.balances@[k].owner by {}
        assert forall|k: int, l: int|
            0 <= k < post.balances@.len() && 0 <= l < post.balances@.len() && k != l implies
            #[trigger] post.balances@[k].owner != #[trigger] post.balances@[l].owner by {
            assert(pre.balances@[k].owner != pre.balances@[l].owner);
        }
        assert forall|id: AccountId| #[trigger] post.has_balance(id) == pre.has_balance(id) by {
            if pre.has_balance(id) {
                let k = choose|k: int|
                    0 <= k < pre.balances@.len() && pre.balances@[k].owner == id;
                assert(post.balances@[k].owner == id);
            }
            if post.has_balance(id) {
                let k = choose|k: int|
                    0 <= k < post.balances@.len() && post.balances@[k].owner == id;
                assert(pre.balances@[k].owner == id);
            }
        }
        post.lemma_balance_at(i);
        assert forall|id: AccountId|
            id != e.owner implies #[trigger] post.balance_of(id) == pre.balance_of(id) by {
            if pre.has_balance(id) {
                let k = choose|k: int|
                    0 <= k < pre.balances@.len() && pre.balances@[k].owner == id;
                assert(k != i);
                pre.lemma_balance_at(k);
                post.lemma_balance_at(k);
            }
        }
    }

    /// Appending a balance entry for a fresh owner keeps owners
    /// unique, adds exactly that entry, and leaves every other balance
    /// as it was.
    proof fn lemma_balance_push(pre: Platform, post: Platform, e: NativeBalance)
        requires
            pre.unique_balance_owners(),
            !pre.has_balance(e.owner),
            post.balances@ == pre.balances@.push(e),
        ensures
            post.unique_balance_owners(),
            post.has_balance(e.owner),
            post.balance_of(e.owner) == e.value,
            forall|id: AccountId|
                id != e.owner ==> #[trigger] post.balance_of(id) == pre.balance_of(id),
    {
        let n = pre.balances@.len() as int;
        assert forall|k: int| 0 <= k < n implies #[trigger] pre.balances@[k].owner != e.owner by {
            if pre.balances@[k].owner == e.owner {
                assert(pre.has_balance(e.owner));
            }
        }
        assert forall|k: int, l: int|
            0 <= k < post.balances@.len() && 0 <= l < post.balances@.len() && k != l implies
            #[trigger] post.balances@[k].owner != #[trigger] post.balances@[l].owner by {
            if k < n && l < n {
                assert(pre.balances@[k].owner != pre.balances@[l].owner);
            }
        }
        assert(post.balances@[n].owner == e.owner);
        post.lemma_balance_at(n);
        assert forall|id: AccountId|
            id != e.owner implies #[trigger] post.balance_of(id) == pre.balance_of(id) by {
            if pre.has_balance(id) {
                let k = choose|k: int|
                    0 <= k < pre.balances@.len() && pre.balances@[k].owner == id;
                assert(post.balances@[k].owner == id);
                pre.lemma_balance_at(k);
                post.lemma_balance_at(k);
            } else {
                if post.has_balance(id) {
                    let k = choose|k: int|
                        0 <= k < post.balances@.len() && post.balances@[k].owner == id;
                    assert(k < n);
                    assert(pre.balances@[k].owner == id);
                }
            }
        }
    }

    /// Under owner uniqueness, the entry at any index holds the value
    /// `balance_of` denotes for its owner.
    proof fn lemma_balance_at(self, i: int)
        requires
            self.unique_balance_owners(),
            0 <= i < self.balances@.len(),
        ensures
            self.has_balance(self.balances@[i].owner),
            self.balance_of(self.balances@[i].owner) == self.balances@[i].value,
    {
        let id = self.balances@[i].owner;
        assert(self.has_balance(id)) by {
            assert(self.balances@[i].owner == id);
        }
        let k = choose|k: int| 0 <= k < self.balances@.len() && self.balances@[k].owner == id;
        assert(k == i);
    }
}

} // verus!
