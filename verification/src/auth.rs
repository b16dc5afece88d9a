//! The credential record and its expiry rules.
//!
//! A credential is the bag of tokens upstream hands out for one account.
//! The manager refreshes it shortly before it expires: the stored
//! `refresh_at` deadline is the issuance time plus the validity period minus
//! a fixed safety buffer.

use vstd::prelude::*;
use vstd::string::StringExecFns;

use crate::ids::{spec_hyphenated, AccountId};

verus! {

/// Safety margin subtracted from a credential's expiry when computing its
/// refresh deadline, in milliseconds (300 s).
pub const REFRESH_BUFFER_MS: i64 = 300_000;

/// Largest validity period a well-formed credential may carry, in seconds
/// (a little under 32 years); keeps deadline arithmetic inside `i64`.
pub const MAX_EXPIRES_SECS: u64 = 1_000_000_000;

/// Bound on wall-clock instants fed into the core, in milliseconds since
/// the epoch (about the year 128,000); keeps deadline arithmetic inside
/// `i64`.
pub const MAX_INSTANT_MS: i64 = 4_000_000_000_000_000;

/// Lower bound on a well-formed credential's refresh deadline.
pub const MIN_REFRESH_AT_MS: i64 = -1_000_000;

/// Upper bound on a well-formed credential's refresh deadline; computed
/// deadlines stay below it whenever `now` is a valid instant.
pub const MAX_REFRESH_AT_MS: i64 = 5_000_000_000_000_000;

/// The tokens and metadata needed to act for one account against upstream.
///
/// `access_token` and `refresh_token` are sensitive: nothing the core hands
/// to a log sink may contain them, so the type deliberately has no `Debug`
/// form.
pub struct Auth {
    pub access_token: String,
    pub account_name: String,
    /// Validity period from issuance, in seconds.
    pub expires_in: u64,
    /// Absolute refresh deadline in milliseconds since the epoch; absent on
    /// a credential that has never been scheduled.
    pub refresh_at: Option<i64>,
    pub refresh_token: String,
    /// The canonical key of the account the credential belongs to.
    pub sub: AccountId,
}

/// Mathematical image of a credential: every field by its abstract value.
pub ghost struct AuthAbs {
    pub access_token: Seq<char>,
    pub account_name: Seq<char>,
    pub expires_in: u64,
    pub refresh_at: Option<i64>,
    pub refresh_token: Seq<char>,
    pub sub: u128,
}

impl Clone for Auth {
    /// A clone carries exactly the same field values.
    fn clone(&self) -> (r: Auth)
        ensures
            r == *self,
    {
        Auth {
            access_token: self.access_token.clone(),
            account_name: self.account_name.clone(),
            expires_in: self.expires_in,
            refresh_at: self.refresh_at,
            refresh_token: self.refresh_token.clone(),
            sub: self.sub,
        }
    }
}

impl View for Auth {
    type V = AuthAbs;

    open spec fn view(&self) -> AuthAbs {
        AuthAbs {
            access_token: self.access_token@,
            account_name: self.account_name@,
            expires_in: self.expires_in,
            refresh_at: self.refresh_at,
            refresh_token: self.refresh_token@,
            sub: self.sub.0,
        }
    }
}

/// The refresh deadline assigned when a credential is (re)scheduled at time
/// `now_ms`: expiry minus the safety buffer.
pub open spec fn spec_refresh_deadline(now_ms: int, expires_in_s: int) -> int {
    now_ms + expires_in_s * 1000 - REFRESH_BUFFER_MS
}

/// Computes the refresh deadline for a credential scheduled at `now_ms`
/// whose validity period is `expires_in_s` seconds.
pub fn refresh_deadline(now_ms: i64, expires_in_s: u64) -> (r: i64)
    requires
        0 <= now_ms <= MAX_INSTANT_MS,
        expires_in_s <= MAX_EXPIRES_SECS,
    ensures
        r == spec_refresh_deadline(now_ms as int, expires_in_s as int),
        MIN_REFRESH_AT_MS <= r <= MAX_REFRESH_AT_MS,
{
    now_ms + (expires_in_s as i64) * 1000 - REFRESH_BUFFER_MS
}

impl Auth {
    /// Whether the credential is due: no deadline was ever assigned, or the
    /// deadline lies within `buffer_ms` of `now_ms`.
    pub open spec fn spec_expired(self, buffer_ms: int, now_ms: int) -> bool {
        match self.refresh_at {
            None => true,
            Some(t) => t <= now_ms + buffer_ms,
        }
    }

    /// Tests whether the credential is due for refresh at time `now_ms`,
    /// counting one that comes due within the next `buffer_ms` as already
    /// expired.
    pub fn expired(&self, buffer_ms: i64, now_ms: i64) -> (b: bool)
        requires
            0 <= buffer_ms <= MAX_INSTANT_MS,
            -MAX_INSTANT_MS <= now_ms <= MAX_INSTANT_MS,
        ensures
            b == self.spec_expired(buffer_ms as int, now_ms as int),
    {
        match self.refresh_at {
            None => true,
            Some(t) => t <= now_ms + buffer_ms,
        }
    }

    /// Bounds under which the core's deadline arithmetic cannot overflow:
    /// the validity period and any assigned deadline stay inside the ranges
    /// the constants above fix.
    pub open spec fn wf(self) -> bool {
        &&& self.expires_in <= MAX_EXPIRES_SECS
        &&& match self.refresh_at {
            None => true,
            Some(t) => MIN_REFRESH_AT_MS <= t <= MAX_REFRESH_AT_MS,
        }
    }

    /// Describes the credential for a log line. The label is built from the
    /// account name and account id alone, so neither token can reach a log
    /// sink through it (see [`lemma_redacted_label_ignores_tokens`]).
    pub fn redacted_label(&self) -> (r: String)
        ensures
            r@ == spec_redacted_label(self@),
    {
        let mut s = String::from_str("account ");
        let hex = self.sub.hyphenated();
        s.append(hex.as_str());
        s.append(" (");
        s.append(self.account_name.as_str());
        s.append(")");
        proof {
            assert(s@ =~= spec_redacted_label(self@));
        }
        s
    }

    /// Tests the bounds of [`Auth::wf`] on a concrete credential, so that
    /// unverified callers can screen input before handing it to the core.
    pub fn is_well_formed(&self) -> (b: bool)
        ensures
            b == self.wf(),
    {
        let expires_ok = self.expires_in <= MAX_EXPIRES_SECS;
        let deadline_ok = match self.refresh_at {
            None => true,
            Some(t) => MIN_REFRESH_AT_MS <= t && t <= MAX_REFRESH_AT_MS,
        };
        expires_ok && deadline_ok
    }
}

/// The characters of a credential's log label: account id and account name
/// only; the tokens do not enter.
pub open spec fn spec_redacted_label(v: AuthAbs) -> Seq<char> {
    "account "@ + spec_hyphenated(v.sub) + " ("@ + v.account_name + ")"@
}

/// The log label depends on the non-secret fields alone: two credentials
/// that differ only in their tokens (or validity data) carry the same
/// label.
pub proof fn lemma_redacted_label_ignores_tokens(a: AuthAbs, b: AuthAbs)
    requires
        a.account_name == b.account_name,
        a.sub == b.sub,
    ensures
        spec_redacted_label(a) == spec_redacted_label(b),
{
}

} // verus!
