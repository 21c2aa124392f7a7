//! OAuth-style token bookkeeping: when a token is still fresh, and what an
//! owner should do about a stale one.  Time is carried as plain Unix
//! timestamps in nanoseconds; reading the clock itself is the one trusted
//! call.

use vstd::prelude::*;

verus! {

/// A bearer token with its lifetime and issue time.
#[derive(Clone, Debug, PartialEq, Eq, Hash)]
pub struct Token {
    /// Seconds until expiry, counted from `created_at`.
    pub expires_in: i64,
    /// The access token itself.
    pub access_token: String,
    /// The token that can mint a new access token, if one was granted.
    pub refresh_token: Option<String>,
    /// Unix timestamp of issue, in nanoseconds.
    pub created_at: i64,
}

/// What the owner of a possibly-stale token should do next.
#[derive(Clone, Copy, Debug, PartialEq, Eq, Structural)]
pub enum RefreshAction {
    /// The token is still fresh: use it as it is.
    AlreadyFresh,
    /// The token is stale and no refresh token exists: fail.
    NoRefreshToken,
    /// The token is stale and a refresh token exists: refresh it in place.
    Refresh,
}

/// Reads the wall clock as a Unix timestamp in nanoseconds.
///
/// Relies on chrono's `Utc::now` and `DateTime::timestamp_nanos_opt`;
/// the clock's reading cannot be pinned down, so nothing is promised.
#[verifier::external_body]
pub fn now_nanos() -> i64 {
    chrono::Utc::now().timestamp_nanos_opt().unwrap_or(i64::MAX)
}

impl Token {
    /// Whether the token counts as fresh at instant `now`: at least a
    /// quarter of its lifetime is still left.  With the lifetime `e` in
    /// seconds, that is `created_at + e - e/4 > now`, i.e. three quarters
    /// of `e` past the issue instant.
    pub open spec fn spec_is_fresh_at(self, now: i64) -> bool {
        self.created_at + self.expires_in * 750_000_000 > now
    }

    /// The bounds under which the freshness arithmetic stays in `i64`.
    pub open spec fn freshness_in_range(self) -> bool {
        &&& i64::MIN <= self.expires_in * 750_000_000 <= i64::MAX
        &&& i64::MIN <= self.created_at + self.expires_in * 750_000_000 <= i64::MAX
    }

    /// Whether the token is fresh at the given instant.
    pub fn is_fresh_at(&self, now: i64) -> (r: bool)
        requires
            self.freshness_in_range(),
        ensures
            r == self.spec_is_fresh_at(now),
    {
        self.created_at + self.expires_in * 750_000_000 > now
    }

    /// Whether the token is fresh now.  The clock is read once; the
    /// verdict is `is_fresh_at` of that reading.
    pub fn is_fresh(&self) -> bool
        requires
            self.freshness_in_range(),
    {
        let now = now_nanos();
        self.is_fresh_at(now)
    }

    /// What the owner should do at instant `now`: keep a fresh token,
    /// refresh a stale one in place, or give up when a stale token has no
    /// refresh token.
    pub fn refresh_action_at(&self, now: i64) -> (r: RefreshAction)
        requires
            self.freshness_in_range(),
        ensures
            r == if self.spec_is_fresh_at(now) {
                RefreshAction::AlreadyFresh
            } else if self.refresh_token is None {
                RefreshAction::NoRefreshToken
            } else {
                RefreshAction::Refresh
            },
    {
        if self.is_fresh_at(now) {
            RefreshAction::AlreadyFresh
        } else if self.refresh_token.is_none() {
            RefreshAction::NoRefreshToken
        } else {
            RefreshAction::Refresh
        }
    }

    /// What the owner should do now, against the wall clock.
    pub fn refresh_action(&self) -> RefreshAction
        requires
            self.freshness_in_range(),
    {
        let now = now_nanos();
        self.refresh_action_at(now)
    }

    /// The lifetime as a span, for display and arithmetic.
    pub fn expires_in_duration(&self) -> (r: crate::duration::Duration)
        requires
            -9_223_372_036_854_775 <= self.expires_in <= 9_223_372_036_854_775,
        ensures
            r.wf(),
            r.total_nanos() == self.expires_in * 1_000_000_000,
    {
        crate::duration::Duration::seconds(self.expires_in)
    }

    /// The access token, as a borrowed string.
    pub fn access_token(&self) -> (r: &String)
        ensures
            r == self.access_token,
    {
        &self.access_token
    }

    /// The refresh token, if one was granted.
    pub fn refresh_token(&self) -> (r: Option<&String>)
        ensures
            match r {
                Some(s) => self.refresh_token == Some(*s),
                None => self.refresh_token is None,
            },
    {
        self.refresh_token.as_ref()
    }
}

} // verus!
