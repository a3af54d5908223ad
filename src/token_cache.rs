use vstd::prelude::*;

verus! {

/// How long a fetched installation token is used, in milliseconds (one hour).
pub const TOKEN_TTL_MILLIS: u64 = 3_600_000;

/// A token and the instant, in milliseconds of a monotonic clock, at which
/// it stops being used.
pub struct CachedToken {
    pub token: String,
    pub expires_at: u64,
}

/// The single-slot token store. It is empty at start and is only ever
/// replaced whole by a token fetched after a miss.
pub struct TokenCache {
    slot: Option<CachedToken>,
}

/// The view of a cache: the token held and its expiry, if any.
pub type CacheView = Option<(Seq<char>, u64)>;

impl View for TokenCache {
    type V = CacheView;

    closed spec fn view(&self) -> CacheView {
        match self.slot {
            Some(c) => Some((c.token@, c.expires_at)),
            None => None,
        }
    }
}

/// The token a cache holds that is still valid at `now`, if any.
pub open spec fn lookup(c: CacheView, now: u64) -> Option<Seq<char>> {
    match c {
        Some((token, expires_at)) => if now < expires_at {
            Some(token)
        } else {
            None
        },
        None => None,
    }
}

/// The expiry given to a token stored at `now`.
pub open spec fn expiry_from(now: u64) -> u64 {
    if now as int + TOKEN_TTL_MILLIS as int <= u64::MAX as int {
        (now + TOKEN_TTL_MILLIS) as u64
    } else {
        u64::MAX
    }
}

/// The cache after a freshly fetched `token` is offered at `now`, and the
/// token the caller is to use: a token that another caller stored meanwhile
/// and that is still valid wins; otherwise `token` is stored.
pub open spec fn install(c: CacheView, token: Seq<char>, now: u64) -> (CacheView, Seq<char>) {
    match lookup(c, now) {
        Some(held) => (c, held),
        None => (Some((token, expiry_from(now))), token),
    }
}

impl TokenCache {
    /// An empty cache.
    pub fn new() -> (r: TokenCache)
        ensures
            r@ is None,
    {
        TokenCache { slot: None }
    }

    /// The cached token, if it is still valid at `now`. `None` means that a
    /// new token has to be fetched.
    pub fn valid_token(&self, now: u64) -> (r: Option<String>)
        ensures
            match r {
                Some(t) => lookup(self@, now) == Some(t@),
                None => lookup(self@, now) is None,
            },
    {
        match &self.slot {
            Some(cached) => {
                if now < cached.expires_at {
                    Some(cached.token.clone())
                } else {
                    None
                }
            },
            None => None,
        }
    }

    /// Offers a freshly fetched token at `now` and returns the token to use.
    pub fn store(&mut self, token: String, now: u64) -> (r: String)
        ensures
            (final(self)@, r@) == install(old(self)@, token@, now),
    {
        match self.valid_token(now) {
            Some(held) => held,
            None => {
                let expires_at = now.saturating_add(TOKEN_TTL_MILLIS);
                let r = token.clone();
                self.slot = Some(CachedToken { token, expires_at });
                r
            },
        }
    }
}

/// After a call at `t0` that missed, fetched `token` and stored it, a second
/// call at any `t1` within the lifetime hits: it gets the same token and
/// fetches nothing, so one fetch served both.
pub proof fn lemma_token_reuse(c: CacheView, token: Seq<char>, t0: u64, t1: u64)
    requires
        lookup(c, t0) is None,
        t0 as int + TOKEN_TTL_MILLIS as int <= u64::MAX as int,
        t0 <= t1,
        (t1 as int) < t0 as int + TOKEN_TTL_MILLIS as int,
    ensures
        install(c, token, t0).1 == token,
        lookup(install(c, token, t0).0, t1) == Some(token),
{
}

/// Once the held token has expired a lookup misses, so exactly one new fetch
/// is made; and whatever a caller offers, the token it is handed is valid at
/// the instant it was stored, never an expired one.
pub proof fn lemma_token_refresh(c: CacheView, token: Seq<char>, now: u64)
    requires
        now as int + TOKEN_TTL_MILLIS as int <= u64::MAX as int,
    ensures
        (c matches Some((_, e)) && now >= e) ==> lookup(c, now) is None,
        lookup(install(c, token, now).0, now) == Some(install(c, token, now).1),
        lookup(c, now) is None ==> install(c, token, now).1 == token,
{
}

} // verus!
