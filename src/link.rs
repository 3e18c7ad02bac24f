//! A shortened link and its expiration policy.
use vstd::prelude::*;

use crate::clock::time_now;
use crate::text::join_path;

verus! {

/// The time limit of a link has run out at `now`: a negative `valid_for` is
/// always expired, zero never expires by time, and a positive `valid_for`
/// expires once more than `valid_for` milliseconds have passed since creation.
pub open spec fn time_expired(created_at: int, valid_for: int, now: int) -> bool {
    valid_for < 0 || (valid_for > 0 && now - created_at > valid_for)
}

/// The use limit of a link is used up: a negative `max_uses` is always used
/// up, zero is unlimited, and a positive `max_uses` is used up once
/// `invocations` reaches it.
pub open spec fn uses_invalid(max_uses: int, invocations: int) -> bool {
    max_uses < 0 || (max_uses > 0 && invocations >= max_uses)
}

/// The expiration policy of a link.
pub open spec fn link_expired(
    max_uses: int,
    invocations: int,
    created_at: int,
    valid_for: int,
    now: int,
) -> bool {
    time_expired(created_at, valid_for, now) || uses_invalid(max_uses, invocations)
}

/// A shortened link. All timestamps and durations are in milliseconds.
#[derive(Debug)]
pub struct Link {
    /// The short identifier.
    pub id: String,
    /// The target, always with an explicit scheme.
    pub redirect_to: String,
    /// How often the link may be used: 0 is unlimited, negative is always expired.
    pub max_uses: i64,
    /// How often the link has been resolved.
    pub invocations: i64,
    /// Creation time, in milliseconds since the Unix epoch.
    pub created_at: i64,
    /// How long the link is valid: 0 is unlimited, negative is always expired.
    pub valid_for: i64,
}

impl Clone for Link {
    fn clone(&self) -> (r: Self)
        ensures
            r == *self,
    {
        Link {
            id: self.id.clone(),
            redirect_to: self.redirect_to.clone(),
            max_uses: self.max_uses,
            invocations: self.invocations,
            created_at: self.created_at,
            valid_for: self.valid_for,
        }
    }
}

impl Link {
    /// Whether this link is expired at time `now`.
    pub open spec fn expired_at(&self, now: int) -> bool {
        link_expired(
            self.max_uses as int,
            self.invocations as int,
            self.created_at as int,
            self.valid_for as int,
            now,
        )
    }

    /// Evaluates the expiration policy at time `now`.
    pub fn is_expired_at(&self, now: i64) -> (r: bool)
        ensures
            r == self.expired_at(now as int),
    {
        let elapsed: i128 = now as i128 - self.created_at as i128;
        let time_expired = self.valid_for < 0 || (self.valid_for > 0 && elapsed
            > self.valid_for as i128);
        let uses_invalid = self.max_uses < 0 || (self.max_uses > 0 && self.invocations
            >= self.max_uses);
        time_expired || uses_invalid
    }

    /// Evaluates the expiration policy at the current time. The sentinels
    /// decide without the clock, and so does a used-up use limit.
    pub fn is_expired(&self) -> (r: bool)
        ensures
            exists|now: i64| r == self.expired_at(now as int),
            self.valid_for < 0 ==> r,
            uses_invalid(self.max_uses as int, self.invocations as int) ==> r,
            self.valid_for == 0 ==> (r == uses_invalid(
                self.max_uses as int,
                self.invocations as int,
            )),
    {
        let now = time_now();
        self.is_expired_at(now)
    }

    /// The shortened address of this link: `public_url`, a slash, the identifier.
    pub fn formatted(&self, public_url: &str) -> (r: String)
        ensures
            r@ == public_url@ + seq!['/'] + self.id@,
    {
        join_path(public_url, self.id.as_str())
    }
}

/// Once a positive use limit is reached, the link is expired, and it stays
/// expired for every larger number of invocations.
pub proof fn lemma_use_limit_sticks(
    max_uses: int,
    invocations: int,
    more: int,
    created_at: int,
    valid_for: int,
    now: int,
)
    requires
        max_uses > 0,
        invocations >= max_uses,
        more >= invocations,
    ensures
        link_expired(max_uses, invocations, created_at, valid_for, now),
        link_expired(max_uses, more, created_at, valid_for, now),
{
}

/// With a positive time limit, the time limit has run out exactly when more
/// than `valid_for` milliseconds have passed since creation; for a link whose
/// use limit is not used up that decides expiry; and once expired at one time
/// a link is expired at every later time.
pub proof fn lemma_time_limit(
    max_uses: int,
    invocations: int,
    created_at: int,
    valid_for: int,
    now: int,
    later: int,
)
    requires
        valid_for > 0,
        now <= later,
    ensures
        time_expired(created_at, valid_for, now) <==> now - created_at > valid_for,
        !uses_invalid(max_uses, invocations) ==> (link_expired(
            max_uses,
            invocations,
            created_at,
            valid_for,
            now,
        ) <==> now - created_at > valid_for),
        link_expired(max_uses, invocations, created_at, valid_for, now) ==> link_expired(
            max_uses,
            invocations,
            created_at,
            valid_for,
            later,
        ),
{
}

/// A negative time limit or a negative use limit makes a link expired,
/// whatever its other fields.
pub proof fn lemma_negative_sentinel(
    max_uses: int,
    invocations: int,
    created_at: int,
    valid_for: int,
    now: int,
)
    requires
        valid_for < 0 || max_uses < 0,
    ensures
        link_expired(max_uses, invocations, created_at, valid_for, now),
{
}

/// A link with neither a time limit nor a use limit never expires.
pub proof fn lemma_unlimited(invocations: int, created_at: int, now: int)
    ensures
        !link_expired(0, invocations, created_at, 0, now),
{
}

} // verus!
