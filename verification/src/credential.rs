//! The credential cache: one bearer token and its computed expiry.
//!
//! The cache never performs the refresh itself; it decides. A caller asks
//! what to do at the current instant: within the validity window it is handed
//! the cached token, otherwise it must fetch a fresh token from the issuer
//! and install it. Failed refreshes leave the cache unchanged, so the next
//! caller retries immediately.
//!
//! Instants are seconds of an arbitrary fixed epoch.

use vstd::prelude::*;

verus! {

/// Issuer-stated token lifetime, in seconds.
pub const TOKEN_LIFETIME_SECS: u64 = 7200;

/// Safety margin subtracted from the lifetime when computing the expiry,
/// to avoid races against wall-clock skew.
pub const TOKEN_SAFETY_MARGIN_SECS: u64 = 300;

/// A bearer token together with the instant it stops being trusted.
pub struct Credential {
    pub token: String,
    pub expires_at: u64,
}

/// What the caller must do to obtain a valid token.
pub enum TokenDecision {
    /// A cached token is still valid: use it, no refresh is needed.
    UseCached(String),
    /// No valid token is cached: fetch one from the issuer and install it.
    NeedsRefresh,
}

/// The single slot holding the most recently issued credential, if any.
pub struct CredentialCache {
    pub slot: Option<Credential>,
}

impl CredentialCache {
    /// The cached credential, if any.
    pub open spec fn spec_slot(&self) -> Option<Credential> {
        self.slot
    }

    /// Whether a cached token is valid at `now`.
    pub open spec fn spec_valid_at(&self, now: u64) -> bool {
        match self.slot {
            Some(c) => now < c.expires_at,
            None => false,
        }
    }

    /// The decision the cache makes at `now`.
    pub open spec fn spec_decide(&self, now: u64) -> TokenDecision {
        match self.slot {
            Some(c) => if now < c.expires_at {
                TokenDecision::UseCached(c.token)
            } else {
                TokenDecision::NeedsRefresh
            },
            None => TokenDecision::NeedsRefresh,
        }
    }

    /// An empty cache: the first request at any instant needs a refresh.
    pub fn new() -> (c: Self)
        ensures
            c.spec_slot() is None,
            forall|now: u64| c.spec_decide(now) is NeedsRefresh,
    {
        CredentialCache { slot: None }
    }

    /// Decides at `now`: the cached token while it is valid, otherwise a
    /// refresh. Reads the cache only; never discards a valid credential.
    pub fn decide(&self, now: u64) -> (d: TokenDecision)
        ensures
            d == self.spec_decide(now),
    {
        match &self.slot {
            Some(c) => {
                if now < c.expires_at {
                    TokenDecision::UseCached(c.token.clone())
                } else {
                    TokenDecision::NeedsRefresh
                }
            },
            None => TokenDecision::NeedsRefresh,
        }
    }

    /// Installs a freshly issued token at `now`, replacing the slot
    /// wholesale; the expiry is the issuer-stated lifetime less the safety
    /// margin. Returns the same token for immediate use.
    pub fn install(&mut self, token: String, now: u64) -> (out: String)
        requires
            now <= u64::MAX - (TOKEN_LIFETIME_SECS - TOKEN_SAFETY_MARGIN_SECS),
        ensures
            final(self).spec_slot() == Some(
                Credential {
                    token: out,
                    expires_at: (now + (TOKEN_LIFETIME_SECS - TOKEN_SAFETY_MARGIN_SECS)) as u64,
                },
            ),
            out@ == token@,
    {
        let expires_at = now + (TOKEN_LIFETIME_SECS - TOKEN_SAFETY_MARGIN_SECS);
        let out = token.clone();
        self.slot = Some(Credential { token, expires_at });
        proof {
            assert(final(self).spec_slot() == Some(Credential { token: out, expires_at }));
        }
        out
    }
}

/// Law: for any two requests inside the token's validity window, the cache
/// decides identically — the second caller is handed the very token the
/// first was, and neither decision asks for a refresh, so no call to the
/// issuer is made in between.
pub proof fn lemma_cached_token_stable(c: &CredentialCache, now1: u64, now2: u64)
    requires
        c.spec_valid_at(now1),
        c.spec_valid_at(now2),
    ensures
        c.spec_decide(now1) == c.spec_decide(now2),
        c.spec_decide(now1) matches TokenDecision::UseCached(t) && t == c.spec_slot().unwrap().token,
{
}

/// The authorization header value for a bearer token: the word `Bearer`,
/// one space, then the token, verbatim.
pub fn auth_header_value(token: &str) -> (r: String)
    ensures
        r@ == "Bearer "@ + token@,
{
    let mut s = String::new();
    s.append("Bearer ");
    s.append(token);
    s
}

/// Law: a freshly installed token is the one handed back for the whole of
/// its validity window.
pub proof fn lemma_installed_token_is_served(c: &CredentialCache, now: u64)
    requires
        c.spec_slot() is Some,
        now < c.spec_slot().unwrap().expires_at,
    ensures
        c.spec_decide(now) == TokenDecision::UseCached(c.spec_slot().unwrap().token),
{
}

} // verus!
