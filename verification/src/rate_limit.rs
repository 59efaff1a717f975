//! Token-bucket rate limiting, one bucket per client address.
//!
//! Each client starts with a full bucket. A request spends one token; tokens
//! come back with time, never above the bucket's capacity. How many tokens
//! the time elapsed since the last refill is worth depends on the refill rate,
//! which the caller turns into a whole number of tokens; the bucket logic
//! below is exact given that number.

use vstd::prelude::*;
use crate::assoc::{AssocList, distinct_keys, to_map};
use crate::error::ErrorResponse;
use crate::login_state::elapsed;
use crate::text::{
    chars_of, lemma_split_nonempty, split_chars, string_from_str, string_of, trim_chars, views,
};

verus! {

/// The state of one client's bucket.
#[derive(Debug, Clone, Copy, PartialEq, Eq)]
pub struct TokenBucket {
    /// Remaining tokens available for this client.
    pub remaining_tokens: u32,
    /// When tokens were last refilled (nanoseconds of the limiter's clock).
    pub last_refill: u64,
    /// Maximum tokens the bucket can hold.
    pub maximum_tokens: u32,
}

/// A bucket never holds more than its capacity.
pub open spec fn bucket_wf(b: TokenBucket) -> bool {
    b.remaining_tokens <= b.maximum_tokens
}

/// The bucket after `tokens_to_add` tokens came back at `now`: when there is
/// at least one, the bucket is topped up (never above capacity) and the
/// refill time moves to `now`; otherwise nothing changes.
pub open spec fn refilled(b: TokenBucket, tokens_to_add: u32, now: u64) -> TokenBucket {
    if tokens_to_add > 0 {
        TokenBucket {
            remaining_tokens: if b.remaining_tokens + tokens_to_add < b.maximum_tokens {
                (b.remaining_tokens + tokens_to_add) as u32
            } else {
                b.maximum_tokens
            },
            last_refill: now,
            maximum_tokens: b.maximum_tokens,
        }
    } else {
        b
    }
}

/// The outcome of spending one token: allowed when one is left.
pub open spec fn consumed(b: TokenBucket) -> (TokenBucket, bool) {
    if b.remaining_tokens > 0 {
        (
            TokenBucket {
                remaining_tokens: (b.remaining_tokens - 1) as u32,
                last_refill: b.last_refill,
                maximum_tokens: b.maximum_tokens,
            },
            true,
        )
    } else {
        (b, false)
    }
}

impl TokenBucket {
    /// A full bucket created at `now`.
    pub fn new(maximum_tokens: u32, now: u64) -> (b: Self)
        ensures
            b == (TokenBucket { remaining_tokens: maximum_tokens, last_refill: now, maximum_tokens }),
            bucket_wf(b),
    {
        TokenBucket { remaining_tokens: maximum_tokens, last_refill: now, maximum_tokens }
    }

    /// Refill with the tokens earned since the last refill, then try to spend
    /// one. Returns whether the request is allowed.
    pub fn try_consume(&mut self, tokens_to_add: u32, now: u64) -> (allowed: bool)
        requires
            bucket_wf(*old(self)),
        ensures
            bucket_wf(*final(self)),
            (*final(self), allowed) == consumed(refilled(*old(self), tokens_to_add, now)),
    {
        if tokens_to_add > 0 {
            let room = self.maximum_tokens - self.remaining_tokens;
            self.remaining_tokens = if tokens_to_add < room {
                self.remaining_tokens + tokens_to_add
            } else {
                self.maximum_tokens
            };
            self.last_refill = now;
        }
        if self.remaining_tokens > 0 {
            self.remaining_tokens = self.remaining_tokens - 1;
            true
        } else {
            false
        }
    }

    /// Seconds until at least one token is available: none while tokens are
    /// left, else the time one token takes to come back (`seconds_per_token`,
    /// the refill interval rounded up).
    pub fn seconds_until_refill(&self, seconds_per_token: u64) -> (s: u64)
        ensures
            s == if self.remaining_tokens > 0 {
                0
            } else {
                seconds_per_token
            },
    {
        if self.remaining_tokens > 0 {
            0
        } else {
            seconds_per_token
        }
    }

    /// Whether this bucket has been idle long enough to be dropped: more
    /// than `staleness_threshold` since its last refill, and full.
    pub fn is_stale(&self, now: u64, staleness_threshold: u64) -> (r: bool)
        ensures
            r == is_stale_bucket(*self, now, staleness_threshold),
    {
        let idle = if now >= self.last_refill {
            now - self.last_refill
        } else {
            0
        };
        idle > staleness_threshold && self.remaining_tokens == self.maximum_tokens
    }
}

/// A bucket idle for more than `threshold` at `now`, and full.
pub open spec fn is_stale_bucket(b: TokenBucket, now: u64, threshold: u64) -> bool {
    elapsed(now, b.last_refill) > threshold && b.remaining_tokens == b.maximum_tokens
}

/// The bucket a check works on: the client's own, or a full new one created
/// at `now` (whose elapsed time, and so its refill, is nil).
pub open spec fn bucket_for(m: Map<Seq<char>, TokenBucket>, client: Seq<char>, maximum_tokens: u32, now: u64, tokens_to_add: u32) -> TokenBucket {
    if m.contains_key(client) {
        refilled(m[client], tokens_to_add, now)
    } else {
        TokenBucket { remaining_tokens: maximum_tokens, last_refill: now, maximum_tokens }
    }
}

/// Every bucket is well formed and has the limiter's capacity.
pub open spec fn buckets_wf(m: Map<Seq<char>, TokenBucket>, maximum_tokens: u32) -> bool {
    forall|k: Seq<char>| #[trigger] m.contains_key(k) ==> bucket_wf(m[k]) && m[k].maximum_tokens
        == maximum_tokens
}

/// The buckets that survive a cleanup at `now`.
pub open spec fn live_buckets(m: Map<Seq<char>, TokenBucket>, now: u64, threshold: u64) -> Map<Seq<char>, TokenBucket> {
    m.restrict(m.dom().filter(|k: Seq<char>| !is_stale_bucket(m[k], now, threshold)))
}

/// Rate limiter state keyed by client address.
pub struct RateLimiter {
    buckets: AssocList<TokenBucket>,
    maximum_tokens: u32,
    trust_proxy_headers: bool,
}

impl RateLimiter {
    /// The buckets by client address.
    pub closed spec fn view(&self) -> Map<Seq<char>, TokenBucket> {
        self.buckets.view()
    }

    /// The capacity of every bucket.
    pub closed spec fn capacity(&self) -> u32 {
        self.maximum_tokens
    }

    /// Whether client addresses are read from proxy headers.
    pub closed spec fn spec_trusts_proxy_headers(&self) -> bool {
        self.trust_proxy_headers
    }

    /// The limiter is well formed: distinct keys, and every bucket within its
    /// capacity, which is the limiter's.
    pub closed spec fn wf(&self) -> bool {
        self.buckets.wf() && buckets_wf(self.buckets.view(), self.maximum_tokens)
    }

    /// A limiter with no client yet, whose buckets hold `maximum_tokens`,
    /// and which counts requests by peer address.
    pub fn new(maximum_tokens: u32) -> (r: Self)
        ensures
            r.wf(),
            r.capacity() == maximum_tokens,
            r.view() == Map::<Seq<char>, TokenBucket>::empty(),
            !r.spec_trusts_proxy_headers(),
    {
        RateLimiter { buckets: AssocList::new(), maximum_tokens, trust_proxy_headers: false }
    }

    /// The same limiter, reading client addresses from proxy headers when
    /// `trust` is set (only behind a trusted reverse proxy).
    pub fn with_trust_proxy_headers(self, trust: bool) -> (r: Self)
        requires
            self.wf(),
        ensures
            r.wf(),
            r.capacity() == self.capacity(),
            r.view() == self.view(),
            r.spec_trusts_proxy_headers() == trust,
    {
        RateLimiter { buckets: self.buckets, maximum_tokens: self.maximum_tokens, trust_proxy_headers: trust }
    }

    /// Whether client addresses are read from proxy headers.
    pub fn trusts_proxy_headers(&self) -> (r: bool)
        ensures
            r == self.spec_trusts_proxy_headers(),
    {
        self.trust_proxy_headers
    }

    /// When the client's bucket was last refilled (`None` for an unknown
    /// client): the caller turns the time since then into tokens.
    pub fn last_refill_of(&self, client: &str) -> (r: Option<u64>)
        requires
            self.wf(),
        ensures
            match r {
                Some(t) => self.view().contains_key(client@) && self.view()[client@].last_refill == t,
                None => !self.view().contains_key(client@),
            },
    {
        match self.buckets.find(client) {
            Some(i) => Some(self.buckets.value_at(i).last_refill),
            None => None,
        }
    }

    /// Check a request from `client` at `now`, the client's bucket having
    /// earned `tokens_to_add` tokens since its last refill. `Ok` when allowed;
    /// else `Err` with the seconds to wait (`seconds_per_token`).
    pub fn check_at(&mut self, client: &str, tokens_to_add: u32, now: u64, seconds_per_token: u64) -> (r: Result<(), u64>)
        requires
            old(self).wf(),
        ensures
            final(self).wf(),
            final(self).capacity() == old(self).capacity(),
            final(self).spec_trusts_proxy_headers() == old(self).spec_trusts_proxy_headers(),
            ({
                let b = bucket_for(old(self).view(), client@, old(self).capacity(), now, tokens_to_add);
                &&& final(self).view() == old(self).view().insert(client@, consumed(b).0)
                &&& r == if consumed(b).1 {
                    Ok::<(), u64>(())
                } else {
                    Err::<(), u64>(seconds_per_token)
                }
            }),
    {
        let (mut bucket, add) = match self.buckets.find(client) {
            Some(i) => (*self.buckets.value_at(i), tokens_to_add),
            None => (TokenBucket::new(self.maximum_tokens, now), 0),
        };
        let allowed = bucket.try_consume(add, now);
        let wait = bucket.seconds_until_refill(seconds_per_token);
        self.buckets.insert(string_from_str(client), bucket);
        proof {
            assert forall|k: Seq<char>| #[trigger] self.buckets.view().contains_key(k) implies bucket_wf(
                self.buckets.view()[k],
            ) && self.buckets.view()[k].maximum_tokens == self.maximum_tokens by {
                if k != client@ {
                    assert(old(self).view().contains_key(k));
                }
            }
        }
        if allowed {
            Ok(())
        } else {
            Err(wait)
        }
    }

    /// Drop the buckets that are stale at `now`.
    pub fn prune_stale(&mut self, now: u64, staleness_threshold: u64)
        requires
            old(self).wf(),
        ensures
            final(self).wf(),
            final(self).capacity() == old(self).capacity(),
            final(self).spec_trusts_proxy_headers() == old(self).spec_trusts_proxy_headers(),
            final(self).view() == live_buckets(old(self).view(), now, staleness_threshold),
    {
        let ghost orig = self.view();
        let ghost orig_entries = self.buckets.entries();
        let ghost cap = self.maximum_tokens;
        let ghost trust = self.trust_proxy_headers;
        proof {
            self.buckets.lemma_entries();
        }
        let mut i: usize = self.buckets.len();
        while i > 0
            invariant
                self.buckets.wf(),
                self.maximum_tokens == cap,
                self.trust_proxy_headers == trust,
                buckets_wf(orig, self.maximum_tokens),
                i <= self.buckets.entries().len(),
                i <= orig_entries.len(),
                self.buckets.entries().take(i as int) == orig_entries.take(i as int),
                distinct_keys(orig_entries),
                orig == to_map(orig_entries),
                forall|k: Seq<char>|
                    #[trigger] self.buckets.view().contains_key(k) <==> orig.contains_key(k) && (
                    !is_stale_bucket(orig[k], now, staleness_threshold) || exists|j: int|
                        0 <= j < i && orig_entries[j].0@ == k),
                forall|k: Seq<char>|
                    #[trigger] self.buckets.view().contains_key(k) ==> self.buckets.view()[k]
                        == orig[k],
            decreases i,
        {
            i = i - 1;
            proof {
                self.buckets.lemma_entries();
                assert(self.buckets.entries()[i as int] == self.buckets.entries().take(i + 1)[i as int]);
                assert(orig_entries[i as int] == orig_entries.take(i + 1)[i as int]);
                crate::assoc::lemma_to_map_lookup(orig_entries, i as int);
            }
            let stale = self.buckets.value_at(i).is_stale(now, staleness_threshold);
            if stale {
                let ghost k_i = orig_entries[i as int].0@;
                let _ = self.buckets.remove_at(i);
                proof {
                    assert forall|j: int| 0 <= j < i implies orig_entries[j].0@ != k_i by {}
                    assert(self.buckets.entries().take(i as int) =~= orig_entries.take(i as int));
                    assert forall|k: Seq<char>|
                        #[trigger] self.buckets.view().contains_key(k) <==> orig.contains_key(k) && (
                        !is_stale_bucket(orig[k], now, staleness_threshold) || exists|j: int|
                            0 <= j < i && orig_entries[j].0@ == k) by {
                        if k != k_i {
                            if exists|j: int| 0 <= j < i + 1 && orig_entries[j].0@ == k {
                                let j = choose|j: int| 0 <= j < i + 1 && orig_entries[j].0@ == k;
                                assert(j != i);
                            }
                        }
                    }
                }
            } else {
                proof {
                    assert forall|k: Seq<char>|
                        #[trigger] self.buckets.view().contains_key(k) <==> orig.contains_key(k) && (
                        !is_stale_bucket(orig[k], now, staleness_threshold) || exists|j: int|
                            0 <= j < i && orig_entries[j].0@ == k) by {
                        if exists|j: int| 0 <= j < i + 1 && orig_entries[j].0@ == k {
                            let j = choose|j: int| 0 <= j < i + 1 && orig_entries[j].0@ == k;
                            if j == i {
                                assert(!is_stale_bucket(orig[k], now, staleness_threshold));
                            }
                        }
                    }
                }
            }
        }
        proof {
            assert(self.buckets.view() =~= live_buckets(orig, now, staleness_threshold));
        }
    }
}

/// The address text a proxy reports first: what `X-Forwarded-For` holds
/// before its first comma, trimmed.
pub open spec fn forwarded_first(header: Seq<char>) -> Seq<char> {
    crate::text::trim(crate::text::split_on(header, ',')[0])
}

/// The first entry of an `X-Forwarded-For` header (the original client).
pub fn first_forwarded_address(header: &str) -> (out: String)
    ensures
        out@ == forwarded_first(header@),
{
    let h = chars_of(header);
    let parts = split_chars(&h, ',');
    proof {
        lemma_split_nonempty(header@, ',');
    }
    assert(views(parts@)[0] == parts@[0]@);
    let t = trim_chars(&parts[0]);
    string_of(&t)
}

/// The address a request is counted under. Behind a trusted proxy: the
/// first `X-Forwarded-For` entry when it parses, else `X-Real-Ip` when it
/// parses, else the peer. Otherwise always the peer socket address, since
/// a direct client can write those headers itself.
pub fn client_address<A>(trust_proxy_headers: bool, forwarded: Option<A>, real_ip: Option<A>, peer: A) -> (r: A)
    ensures
        r == if !trust_proxy_headers {
            peer
        } else {
            match forwarded {
                Some(a) => a,
                None => match real_ip {
                    Some(b) => b,
                    None => peer,
                },
            }
        },
{
    if !trust_proxy_headers {
        return peer;
    }
    match forwarded {
        Some(a) => a,
        None => match real_ip {
            Some(b) => b,
            None => peer,
        },
    }
}

/// What a refused request is answered: 429, code `rate_limited`, and the
/// seconds to wait (also sent as `Retry-After`).
pub fn too_many_requests_response(retry_after_seconds: u64) -> (r: ErrorResponse)
    ensures
        r.status == 429,
        r.code@ == "rate_limited"@,
        r.message@ == "Too many requests. Please slow down."@,
        r.retry_after == Some(retry_after_seconds),
        r.log_detail is None,
{
    ErrorResponse {
        status: 429,
        code: string_from_str("rate_limited"),
        message: string_from_str("Too many requests. Please slow down."),
        retry_after: Some(retry_after_seconds),
        log_detail: None,
    }
}

/// How many of `n` requests in a row pass when no token comes back in
/// between, starting from bucket `b`.
pub open spec fn burst_allowed(b: TokenBucket, n: nat) -> nat
    decreases n,
{
    if n == 0 {
        0
    } else {
        let (next, ok) = consumed(b);
        burst_allowed(next, (n - 1) as nat) + if ok {
            1nat
        } else {
            0nat
        }
    }
}

/// A burst drains the bucket: of `n` requests in a row with no refill in
/// between, exactly as many pass as the bucket held tokens (at most `n`), so
/// never more than its capacity.
pub proof fn lemma_burst_is_bounded(b: TokenBucket, n: nat)
    requires
        bucket_wf(b),
    ensures
        burst_allowed(b, n) == if n < b.remaining_tokens {
            n as int
        } else {
            b.remaining_tokens as int
        },
        burst_allowed(b, n) <= b.maximum_tokens,
    decreases n,
{
    if n > 0 {
        lemma_burst_is_bounded(consumed(b).0, (n - 1) as nat);
    }
}

/// A refill never takes a bucket above its capacity, and spending a token
/// keeps it within: every check keeps the bucket well formed.
pub proof fn lemma_check_keeps_capacity(b: TokenBucket, tokens_to_add: u32, now: u64)
    requires
        bucket_wf(b),
    ensures
        bucket_wf(refilled(b, tokens_to_add, now)),
        bucket_wf(consumed(refilled(b, tokens_to_add, now)).0),
        consumed(refilled(b, tokens_to_add, now)).0.maximum_tokens == b.maximum_tokens,
{
}

} // verus!
