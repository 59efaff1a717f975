//! In-memory stores for login-flow state: per-account lockout and pending
//! two-factor tokens.
//!
//! Times are nanoseconds of a monotonic clock, counted from the moment the
//! store was created. The `_at` methods take that time as an argument and are
//! fully specified; the plain methods read the clock and call them.

use vstd::prelude::*;
use crate::assoc::{AssocList, distinct_keys, to_map};
use crate::error::AppError;

verus! {

// ---------------------------------------------------------------------------
// Clock
// ---------------------------------------------------------------------------

/// `std::time::Instant`, a reading of the monotonic clock.
#[verifier::external_type_specification]
#[verifier::external_body]
pub struct ExInstant(std::time::Instant);

/// `Instant::now`: the current reading of the monotonic clock.
#[verifier::external_body]
fn instant_now() -> (t: std::time::Instant) {
    std::time::Instant::now()
}

/// `Instant::saturating_duration_since`: nanoseconds from `base` to `t` (0 if
/// `t` is earlier), capped at `u64::MAX`. Nothing is stated of the value: it
/// depends on clock readings.
#[verifier::external_body]
fn nanos_between(base: &std::time::Instant, t: &std::time::Instant) -> (n: u64) {
    u64::try_from(t.saturating_duration_since(*base).as_nanos()).unwrap_or(u64::MAX)
}

/// One second in nanoseconds.
pub const NANOS_PER_SEC: u64 = 1_000_000_000;

/// Time elapsed from `since` to `now`, zero when `now` is earlier.
pub open spec fn elapsed(now: u64, since: u64) -> int {
    if now >= since {
        now - since
    } else {
        0
    }
}

// ---------------------------------------------------------------------------
// Account lockout
// ---------------------------------------------------------------------------

/// Failures that lock an account.
pub const MAX_FAILED_ATTEMPTS: u32 = 5;

/// How long a locked account stays locked (15 min), in nanoseconds.
pub const LOCKOUT_DURATION_NANOS: u64 = 900_000_000_000;

/// The sliding window in which failures are counted (10 min), in nanoseconds.
pub const ATTEMPT_WINDOW_NANOS: u64 = 600_000_000_000;

/// The failure record of one user name.
#[derive(Debug, Clone, Copy, PartialEq, Eq)]
pub struct AttemptEntry {
    /// Failures counted in the current window.
    pub count: u32,
    /// When the current window started.
    pub window_start: u64,
    /// Until when the account is locked, if it was locked.
    pub locked_until: Option<u64>,
}

/// The record of `key` in `m`, if any.
pub open spec fn lookup<V>(m: Map<Seq<char>, V>, key: Seq<char>) -> Option<V> {
    if m.contains_key(key) {
        Some(m[key])
    } else {
        None
    }
}

/// `(is_locked, retry_after_secs)` for a record at time `now`: locked while
/// `now` is before `locked_until`; the retry delay is the whole seconds left
/// plus one.
pub open spec fn lock_status(e: Option<AttemptEntry>, now: u64) -> (bool, u64) {
    match e {
        Some(en) => match en.locked_until {
            Some(t) => if now < t {
                (true, ((t - now) / (NANOS_PER_SEC as int) + 1) as u64)
            } else {
                (false, 0)
            },
            None => (false, 0),
        },
        None => (false, 0),
    }
}

/// The record after one more failure at `now`: a missing record starts a
/// window at `now`; an expired window (older than `ATTEMPT_WINDOW_NANOS`)
/// restarts from zero; the count goes up by one; reaching
/// `MAX_FAILED_ATTEMPTS` locks until `now + LOCKOUT_DURATION_NANOS`.
pub open spec fn failed_entry(e: Option<AttemptEntry>, now: u64) -> AttemptEntry {
    let base = match e {
        Some(en) => en,
        None => AttemptEntry { count: 0, window_start: now, locked_until: None },
    };
    let fresh = if elapsed(now, base.window_start) > ATTEMPT_WINDOW_NANOS {
        AttemptEntry { count: 0, window_start: now, locked_until: None }
    } else {
        base
    };
    let c: u32 = if fresh.count < u32::MAX {
        (fresh.count + 1) as u32
    } else {
        u32::MAX
    };
    if c >= MAX_FAILED_ATTEMPTS {
        AttemptEntry {
            count: c,
            window_start: fresh.window_start,
            locked_until: Some((now + LOCKOUT_DURATION_NANOS) as u64),
        }
    } else {
        AttemptEntry { count: c, window_start: fresh.window_start, locked_until: fresh.locked_until }
    }
}

/// What `record_failure` reports for the new record: locked with the full
/// lockout in seconds, or not locked.
pub open spec fn failure_report(e: AttemptEntry) -> (bool, u64) {
    if e.count >= MAX_FAILED_ATTEMPTS {
        (true, 900)
    } else {
        (false, 0)
    }
}

/// A record is consistent when a lockout is only set once the count has
/// reached `MAX_FAILED_ATTEMPTS`.
pub open spec fn consistent_entry(e: AttemptEntry) -> bool {
    e.locked_until is Some ==> e.count >= MAX_FAILED_ATTEMPTS
}

/// The failures counted before one more at `now`: those of the record's
/// window while it is still open, none otherwise.
pub open spec fn counted_before(e: Option<AttemptEntry>, now: u64) -> u32 {
    match e {
        Some(en) => if elapsed(now, en.window_start) > ATTEMPT_WINDOW_NANOS {
            0
        } else {
            en.count
        },
        None => 0,
    }
}

/// One more failure keeps a record consistent.
proof fn lemma_failed_entry_consistent(e: Option<AttemptEntry>, now: u64)
    requires
        e matches Some(en) ==> consistent_entry(en),
    ensures
        consistent_entry(failed_entry(e, now)),
{
}

/// Per-username failed-login backoff store: `MAX_FAILED_ATTEMPTS` failures
/// within the window lock the account for 15 minutes.
pub struct LoginAttemptStore {
    clock: std::time::Instant,
    entries: AssocList<AttemptEntry>,
}

impl LoginAttemptStore {
    /// The failure records by user name.
    pub closed spec fn view(&self) -> Map<Seq<char>, AttemptEntry> {
        self.entries.view()
    }

    /// The store is well formed: every record is consistent (see
    /// [`consistent_entry`]).
    pub closed spec fn wf(&self) -> bool {
        &&& self.entries.wf()
        &&& forall|k: Seq<char>| #[trigger] self.view().contains_key(k) ==> consistent_entry(self.view()[k])
    }

    /// An empty store.
    pub fn new() -> (r: Self)
        ensures
            r.wf(),
            r.view() == Map::<Seq<char>, AttemptEntry>::empty(),
    {
        LoginAttemptStore { clock: instant_now(), entries: AssocList::new() }
    }

    /// The current time of the store's clock: nanoseconds since the store
    /// was made. It is a clock reading, so any value can come back.
    pub fn now(&self) -> (t: u64) {
        let n = instant_now();
        nanos_between(&self.clock, &n)
    }

    /// `(is_locked, retry_after_secs)` for `username` at time `now`. Does not
    /// modify state.
    pub fn check_locked_at(&self, username: &str, now: u64) -> (r: (bool, u64))
        requires
            self.wf(),
        ensures
            r == lock_status(lookup(self.view(), username@), now),
    {
        match self.entries.find(username) {
            None => (false, 0),
            Some(i) => {
                let e = self.entries.value_at(i);
                match e.locked_until {
                    Some(t) => if now < t {
                        (true, (t - now) / NANOS_PER_SEC + 1)
                    } else {
                        (false, 0)
                    },
                    None => (false, 0),
                }
            },
        }
    }

    /// `(is_locked, retry_after_secs)` for `username` now.
    pub fn check_locked(&self, username: &str) -> (r: (bool, u64))
        requires
            self.wf(),
        ensures
            exists|now: u64| r == lock_status(lookup(self.view(), username@), now),
    {
        let now = self.now();
        self.check_locked_at(username, now)
    }

    /// Record one failed attempt at time `now`. Returns `(is_now_locked,
    /// retry_after_secs)`.
    pub fn record_failure_at(&mut self, username: &str, now: u64) -> (r: (bool, u64))
        requires
            old(self).wf(),
            now <= u64::MAX - LOCKOUT_DURATION_NANOS,
        ensures
            final(self).wf(),
            final(self).view() == old(self).view().insert(
                username@,
                failed_entry(lookup(old(self).view(), username@), now),
            ),
            r == failure_report(failed_entry(lookup(old(self).view(), username@), now)),
    {
        let ghost old_e = lookup(self.view(), username@);
        let current = match self.entries.find(username) {
            Some(i) => *self.entries.value_at(i),
            None => AttemptEntry { count: 0, window_start: now, locked_until: None },
        };
        let since = if now >= current.window_start {
            now - current.window_start
        } else {
            0
        };
        let fresh = if since > ATTEMPT_WINDOW_NANOS {
            AttemptEntry { count: 0, window_start: now, locked_until: None }
        } else {
            current
        };
        let c: u32 = if fresh.count < u32::MAX {
            fresh.count + 1
        } else {
            u32::MAX
        };
        let updated = if c >= MAX_FAILED_ATTEMPTS {
            AttemptEntry {
                count: c,
                window_start: fresh.window_start,
                locked_until: Some(now + LOCKOUT_DURATION_NANOS),
            }
        } else {
            AttemptEntry { count: c, window_start: fresh.window_start, locked_until: fresh.locked_until }
        };
        assert(updated == failed_entry(old_e, now));
        proof {
            lemma_failed_entry_consistent(old_e, now);
        }
        self.entries.insert(crate::text::string_from_str(username), updated);
        if c >= MAX_FAILED_ATTEMPTS {
            (true, 900)
        } else {
            (false, 0)
        }
    }

    /// Record one failed attempt now. Returns `(is_now_locked, retry_after_secs)`.
    pub fn record_failure(&mut self, username: &str) -> (r: (bool, u64))
        requires
            old(self).wf(),
        ensures
            final(self).wf(),
            exists|now: u64|
                final(self).view() == old(self).view().insert(
                    username@,
                    failed_entry(lookup(old(self).view(), username@), now),
                ) && r == failure_report(failed_entry(lookup(old(self).view(), username@), now)),
    {
        let n = self.now();
        let now = if n > u64::MAX - LOCKOUT_DURATION_NANOS {
            u64::MAX - LOCKOUT_DURATION_NANOS
        } else {
            n
        };
        self.record_failure_at(username, now)
    }

    /// The first step of a password login at `now`, before anything is
    /// looked up: a locked account is answered 429 with its retry delay.
    pub fn login_gate_at(&self, username: &str, now: u64) -> (r: Result<(), AppError>)
        requires
            self.wf(),
        ensures
            lock_status(lookup(self.view(), username@), now).0 ==> r == Err::<(), AppError>(
                AppError::TooManyRequests(lock_status(lookup(self.view(), username@), now).1),
            ),
            !lock_status(lookup(self.view(), username@), now).0 ==> r is Ok,
    {
        let (locked, retry_after) = self.check_locked_at(username, now);
        if locked {
            Err(AppError::TooManyRequests(retry_after))
        } else {
            Ok(())
        }
    }

    /// The password step of a login at `now`, once the account was looked
    /// up (`user_found`) and its password checked (`password_ok`): a match
    /// clears the account's failures; otherwise one failure is recorded, and
    /// the answer is 401 "Invalid credentials", or 429 with the full lockout
    /// when a wrong password for an existing account locked it.
    pub fn password_checked_at(&mut self, username: &str, user_found: bool, password_ok: bool, now: u64) -> (r: Result<
        (),
        AppError,
    >)
        requires
            old(self).wf(),
            now <= u64::MAX - LOCKOUT_DURATION_NANOS,
        ensures
            final(self).wf(),
            user_found && password_ok ==> r is Ok && final(self).view() == old(self).view().remove(username@),
            !(user_found && password_ok) ==> ({
                let e = failed_entry(lookup(old(self).view(), username@), now);
                &&& final(self).view() == old(self).view().insert(username@, e)
                &&& if user_found && failure_report(e).0 {
                    r == Err::<(), AppError>(AppError::TooManyRequests(failure_report(e).1))
                } else {
                    r matches Err(x) && x matches AppError::Unauthorized(m) && m@ == "Invalid credentials"@
                }
            }),
    {
        if user_found && password_ok {
            self.record_success(username);
            return Ok(());
        }
        let (now_locked, retry_after) = self.record_failure_at(username, now);
        if user_found && now_locked {
            Err(AppError::TooManyRequests(retry_after))
        } else {
            Err(AppError::Unauthorized(crate::text::string_from_str("Invalid credentials")))
        }
    }

    /// Reset attempts on successful login.
    pub fn record_success(&mut self, username: &str)
        requires
            old(self).wf(),
        ensures
            final(self).wf(),
            final(self).view() == old(self).view().remove(username@),
    {
        let ghost before = self.view();
        let _ = self.entries.remove(username);
        assert forall|k: Seq<char>| #[trigger] self.view().contains_key(k) implies consistent_entry(self.view()[k]) by {
            assert(before.contains_key(k));
        }
    }
}


// ---------------------------------------------------------------------------
// Pending two-factor tokens
// ---------------------------------------------------------------------------

/// How long a pending two-factor token stays valid (5 min), in nanoseconds.
pub const TOTP_TOKEN_TTL_NANOS: u64 = 300_000_000_000;

/// At most this many pending tokens are kept.
pub const MAX_TOTP_ENTRIES: usize = 500;

/// Code attempts allowed per pending token.
pub const MAX_TOTP_ATTEMPTS: u32 = 6;

/// A login that passed the password step and awaits its TOTP code.
pub struct PendingTotp {
    pub user_id: String,
    pub username: String,
    pub is_owner: bool,
    pub created_at: std::time::Instant,
    pub attempt_count: u32,
}

impl PendingTotp {
    /// A pending login created now, with no code attempts yet.
    pub fn new(user_id: String, username: String, is_owner: bool) -> (p: Self)
        ensures
            p.user_id == user_id,
            p.username == username,
            p.is_owner == is_owner,
            p.attempt_count == 0,
    {
        PendingTotp { user_id, username, is_owner, created_at: instant_now(), attempt_count: 0 }
    }
}

/// A stored pending login and its creation time on the store's clock.
pub struct TotpEntry {
    pub pending: PendingTotp,
    pub created: u64,
}

/// Whether a pending login created at `e.created` is still valid at `now`.
pub open spec fn is_fresh(e: TotpEntry, now: u64) -> bool {
    elapsed(now, e.created) < TOTP_TOKEN_TTL_NANOS
}

/// The still-valid part of a token map at `now`.
pub open spec fn fresh_part(m: Map<Seq<char>, TotpEntry>, now: u64) -> Map<Seq<char>, TotpEntry> {
    m.restrict(m.dom().filter(|k: Seq<char>| is_fresh(m[k], now)))
}

/// `v` is a key of `m` whose entry is among the oldest.
pub open spec fn is_oldest(m: Map<Seq<char>, TotpEntry>, v: Seq<char>) -> bool {
    m.contains_key(v) && forall|k: Seq<char>| m.contains_key(k) ==> m[v].created <= m[k].created
}

/// What `take` returns for a stored entry at `now`: the pending login while it
/// is valid.
pub open spec fn take_result(e: Option<TotpEntry>, now: u64) -> Option<PendingTotp> {
    match e {
        Some(en) => if is_fresh(en, now) {
            Some(en.pending)
        } else {
            None
        },
        None => None,
    }
}

/// The attempt count after one more attempt (saturating).
pub open spec fn next_attempt(c: u32) -> u32 {
    if c < u32::MAX {
        (c + 1) as u32
    } else {
        u32::MAX
    }
}

/// The store after `pending` is set under `token` at `now` (created at
/// `created`): expired entries are dropped first; if the store is still full,
/// one of the oldest entries is evicted.
pub open spec fn inserted_as(
    before: Map<Seq<char>, TotpEntry>,
    token: Seq<char>,
    pending: PendingTotp,
    created: u64,
    now: u64,
    after: Map<Seq<char>, TotpEntry>,
) -> bool {
    let kept = fresh_part(before, now);
    let e = TotpEntry { pending, created };
    if kept.dom().len() >= MAX_TOTP_ENTRIES {
        exists|v: Seq<char>| is_oldest(kept, v) && after == kept.remove(v).insert(token, e)
    } else {
        after == kept.insert(token, e)
    }
}

/// One more code attempt for `token` at `now`: an unknown token gives
/// nothing; an expired one, or one reaching `MAX_TOTP_ATTEMPTS`, is dropped
/// and gives nothing; otherwise its count goes up and is returned.
pub open spec fn attempt_counted(
    before: Map<Seq<char>, TotpEntry>,
    token: Seq<char>,
    now: u64,
    r: Option<u32>,
    after: Map<Seq<char>, TotpEntry>,
) -> bool {
    match lookup(before, token) {
        None => r is None && after == before,
        Some(e) => if !is_fresh(e, now) {
            r is None && after == before.remove(token)
        } else if next_attempt(e.pending.attempt_count) >= MAX_TOTP_ATTEMPTS {
            r is None && after == before.remove(token)
        } else {
            r == Some(next_attempt(e.pending.attempt_count)) && after == before.insert(
                token,
                TotpEntry {
                    pending: PendingTotp { attempt_count: next_attempt(e.pending.attempt_count), ..e.pending },
                    created: e.created,
                },
            )
        },
    }
}

/// Short-lived token store bridging step 1 (password OK) to step 2 (TOTP code).
pub struct PendingTotpStore {
    clock: std::time::Instant,
    entries: AssocList<TotpEntry>,
}

impl PendingTotpStore {
    /// The pending logins by token.
    pub closed spec fn view(&self) -> Map<Seq<char>, TotpEntry> {
        self.entries.view()
    }

    /// The store is well formed.
    pub closed spec fn wf(&self) -> bool {
        self.entries.wf()
    }

    /// An empty store.
    pub fn new() -> (r: Self)
        ensures
            r.wf(),
            r.view() == Map::<Seq<char>, TotpEntry>::empty(),
    {
        PendingTotpStore { clock: instant_now(), entries: AssocList::new() }
    }

    /// The current time of the store's clock: nanoseconds since the store
    /// was made. It is a clock reading, so any value can come back.
    pub fn now(&self) -> (t: u64) {
        let n = instant_now();
        nanos_between(&self.clock, &n)
    }

    /// Drops every entry that is no longer valid at `now`.
    fn evict_expired(&mut self, now: u64)
        requires
            old(self).wf(),
        ensures
            final(self).wf(),
            final(self).view() == fresh_part(old(self).view(), now),
    {
        let ghost orig = self.view();
        let ghost orig_entries = self.entries.entries();
        proof {
            self.entries.lemma_entries();
        }
        let mut i: usize = self.entries.len();
        while i > 0
            invariant
                self.wf(),
                i <= self.entries.entries().len(),
                i <= orig_entries.len(),
                self.entries.entries().take(i as int) == orig_entries.take(i as int),
                distinct_keys(orig_entries),
                orig == to_map(orig_entries),
                forall|k: Seq<char>|
                    #[trigger] self.view().contains_key(k) <==> orig.contains_key(k) && (is_fresh(
                        orig[k],
                        now,
                    ) || exists|j: int| 0 <= j < i && orig_entries[j].0@ == k),
                forall|k: Seq<char>|
                    #[trigger] self.view().contains_key(k) ==> self.view()[k] == orig[k],
            decreases i,
        {
            i = i - 1;
            proof {
                self.entries.lemma_entries();
                assert(self.entries.entries()[i as int] == self.entries.entries().take(i + 1)[i as int]);
                assert(orig_entries[i as int] == orig_entries.take(i + 1)[i as int]);
                crate::assoc::lemma_to_map_lookup(orig_entries, i as int);
            }
            let e = self.entries.value_at(i);
            let age = if now >= e.created {
                now - e.created
            } else {
                0
            };
            if age >= TOTP_TOKEN_TTL_NANOS {
                let ghost before = self.view();
                let ghost k_i = orig_entries[i as int].0@;
                let _ = self.entries.remove_at(i);
                proof {
                    assert forall|j: int| 0 <= j < i implies orig_entries[j].0@ != k_i by {}
                    assert(self.entries.entries().take(i as int) =~= orig_entries.take(i as int));
                    assert forall|k: Seq<char>| #[trigger] self.view().contains_key(k) <==> orig.contains_key(k) && (is_fresh(orig[k], now) || exists|j: int| 0 <= j < i && orig_entries[j].0@ == k) by {
                        if k != k_i {
                            if exists|j: int| 0 <= j < i + 1 && orig_entries[j].0@ == k {
                                let j = choose|j: int| 0 <= j < i + 1 && orig_entries[j].0@ == k;
                                assert(j != i);
                            }
                        }
                    }
                }
            } else {
                proof {
                    assert forall|k: Seq<char>| #[trigger] self.view().contains_key(k) <==> orig.contains_key(k) && (is_fresh(orig[k], now) || exists|j: int| 0 <= j < i && orig_entries[j].0@ == k) by {
                        if exists|j: int| 0 <= j < i + 1 && orig_entries[j].0@ == k {
                            let j = choose|j: int| 0 <= j < i + 1 && orig_entries[j].0@ == k;
                            if j == i {
                                assert(is_fresh(orig[k], now));
                            }
                        }
                    }
                }
            }
        }
        proof {
            assert(self.view() =~= fresh_part(orig, now));
        }
    }

    /// Removes one of the oldest entries.
    fn evict_oldest(&mut self) -> (victim: Ghost<Seq<char>>)
        requires
            old(self).wf(),
            old(self).view().dom().len() > 0,
        ensures
            final(self).wf(),
            is_oldest(old(self).view(), victim@),
            final(self).view() == old(self).view().remove(victim@),
    {
        proof {
            self.entries.lemma_entries();
        }
        let n = self.entries.len();
        let mut best: usize = 0;
        let mut j: usize = 1;
        while j < n
            invariant
                self.wf(),
                n == self.entries.entries().len(),
                0 < n,
                best < n,
                j <= n,
                forall|a: int| 0 <= a < j ==> self.entries.entries()[best as int].1.created
                    <= #[trigger] self.entries.entries()[a].1.created,
            decreases n - j,
        {
            if self.entries.value_at(j).created < self.entries.value_at(best).created {
                best = j;
            }
            j = j + 1;
        }
        let ghost old_view = self.view();
        let ghost es = self.entries.entries();
        let e = self.entries.remove_at(best);
        proof {
            assert forall|k: Seq<char>| old_view.contains_key(k) implies old_view[es[best as int].0@].created
                <= old_view[k].created by {
                let a = choose|a: int| 0 <= a < es.len() && es[a].0@ == k;
                assert(old_view[es[a].0@] == es[a].1);
            }
        }
        Ghost(e.0@)
    }

    /// Store a pending login under `token` at time `now`: expired entries are
    /// dropped first; if the store is still full, one of the oldest entries is
    /// evicted; then `token` is set.
    pub fn insert_at(&mut self, token: String, pending: PendingTotp, created: u64, now: u64)
        requires
            old(self).wf(),
        ensures
            final(self).wf(),
            inserted_as(old(self).view(), token@, pending, created, now, final(self).view()),
            old(self).view().dom().len() <= MAX_TOTP_ENTRIES ==> final(self).view().dom().len()
                <= MAX_TOTP_ENTRIES,
    {
        proof {
            self.entries.lemma_entries();
        }
        let ghost old_dom = self.view().dom();
        self.evict_expired(now);
        proof {
            self.entries.lemma_entries();
            assert(self.view().dom().subset_of(old_dom));
            vstd::set_lib::lemma_len_subset(self.view().dom(), old_dom);
        }
        let ghost tk = token@;
        if self.entries.len() >= MAX_TOTP_ENTRIES {
            let victim = self.evict_oldest();
            let ghost mid = self.view();
            self.entries.insert(token, TotpEntry { pending, created });
            proof {
                self.entries.lemma_entries();
                assert(self.view().dom() =~= mid.dom().insert(tk));
            }
        } else {
            let ghost mid = self.view();
            self.entries.insert(token, TotpEntry { pending, created });
            proof {
                self.entries.lemma_entries();
                assert(self.view().dom() =~= mid.dom().insert(tk));
            }
        }
    }

    /// Store a pending login under `token`.
    pub fn insert(&mut self, token: String, pending: PendingTotp)
        requires
            old(self).wf(),
        ensures
            final(self).wf(),
            exists|created: u64, now: u64|
                inserted_as(old(self).view(), token@, pending, created, now, final(self).view()),
    {
        let created = nanos_between(&self.clock, &pending.created_at);
        let now = self.now();
        self.insert_at(token, pending, created, now);
    }

    /// Take (consume) the pending login of `token` at time `now`; `None` when
    /// missing or expired. The token is gone afterwards either way.
    pub fn take_at(&mut self, token: &str, now: u64) -> (r: Option<PendingTotp>)
        requires
            old(self).wf(),
        ensures
            final(self).wf(),
            final(self).view() == old(self).view().remove(token@),
            r == take_result(lookup(old(self).view(), token@), now),
    {
        match self.entries.remove(token) {
            Some(e) => {
                let age = if now >= e.created {
                    now - e.created
                } else {
                    0
                };
                if age >= TOTP_TOKEN_TTL_NANOS {
                    None
                } else {
                    Some(e.pending)
                }
            },
            None => None,
        }
    }

    /// Take (consume) the pending login of `token`.
    pub fn take(&mut self, token: &str) -> (r: Option<PendingTotp>)
        requires
            old(self).wf(),
        ensures
            final(self).wf(),
            final(self).view() == old(self).view().remove(token@),
            exists|now: u64| r == take_result(lookup(old(self).view(), token@), now),
    {
        let now = self.now();
        self.take_at(token, now)
    }

    /// Count one code attempt for `token` at time `now`. Returns the new
    /// attempt count; `None` (and the token is dropped) when it is missing,
    /// expired, or has reached `MAX_TOTP_ATTEMPTS`.
    pub fn increment_attempt_at(&mut self, token: &str, now: u64) -> (r: Option<u32>)
        requires
            old(self).wf(),
        ensures
            final(self).wf(),
            attempt_counted(old(self).view(), token@, now, r, final(self).view()),
    {
        let i = match self.entries.find(token) {
            Some(i) => i,
            None => {
                return None;
            },
        };
        let e = self.entries.value_at(i);
        let age = if now >= e.created {
            now - e.created
        } else {
            0
        };
        if age >= TOTP_TOKEN_TTL_NANOS {
            let _ = self.entries.remove_at(i);
            return None;
        }
        let count = if e.pending.attempt_count < u32::MAX {
            e.pending.attempt_count + 1
        } else {
            u32::MAX
        };
        if count >= MAX_TOTP_ATTEMPTS {
            let _ = self.entries.remove_at(i);
            return None;
        }
        let (key, old_entry) = self.entries.remove_at(i);
        let updated = TotpEntry {
            pending: PendingTotp { attempt_count: count, ..old_entry.pending },
            created: old_entry.created,
        };
        self.entries.push_new(key, updated);
        proof {
            assert(self.view() =~= old(self).view().insert(token@, updated));
        }
        Some(count)
    }

    /// Count one code attempt for `token` now.
    pub fn increment_attempt(&mut self, token: &str) -> (r: Option<u32>)
        requires
            old(self).wf(),
        ensures
            final(self).wf(),
            exists|now: u64| attempt_counted(old(self).view(), token@, now, r, final(self).view()),
    {
        let now = self.now();
        self.increment_attempt_at(token, now)
    }
}


// ---------------------------------------------------------------------------
// Laws
// ---------------------------------------------------------------------------

/// The record after a sequence of failures at the given times.
pub open spec fn after_failures(e: Option<AttemptEntry>, times: Seq<u64>) -> Option<AttemptEntry>
    decreases times.len(),
{
    if times.len() == 0 {
        e
    } else {
        Some(failed_entry(after_failures(e, times.drop_last()), times.last()))
    }
}

/// Times that never go backwards.
pub open spec fn nondecreasing(times: Seq<u64>) -> bool {
    forall|i: int, j: int| 0 <= i <= j < times.len() ==> times[i] <= times[j]
}

/// Failures counted within one window add up: from no record, `n` failures
/// (1 <= n <= MAX_FAILED_ATTEMPTS) whose times never go backwards and span at
/// most the attempt window give a count of `n` in a window opened at the first
/// failure; the account is locked exactly when `n` reaches the maximum.
pub proof fn lemma_failures_in_window(times: Seq<u64>)
    requires
        1 <= times.len() <= MAX_FAILED_ATTEMPTS,
        nondecreasing(times),
        times.last() - times[0] <= ATTEMPT_WINDOW_NANOS,
        times.last() <= u64::MAX - LOCKOUT_DURATION_NANOS,
    ensures
        after_failures(None, times) matches Some(e) && e.count == times.len() && e.window_start
            == times[0] && (e.locked_until == if times.len() == MAX_FAILED_ATTEMPTS {
            Some((times.last() + LOCKOUT_DURATION_NANOS) as u64)
        } else {
            None::<u64>
        }),
    decreases times.len(),
{
    if times.len() > 1 {
        let t = times.drop_last();
        assert(nondecreasing(t));
        assert(t[0] == times[0]);
        assert(t.last() <= times.last());
        lemma_failures_in_window(t);
        assert(times[0] <= times.last());
        assert(elapsed(times.last(), times[0]) <= ATTEMPT_WINDOW_NANOS);
    } else {
        assert(times.drop_last().len() == 0);
        assert(after_failures(None, times.drop_last()) is None);
    }
}

/// `MAX_FAILED_ATTEMPTS` failures within the window lock the account: the last
/// failure reports a lockout of 900 seconds, and the account stays locked for
/// the whole lockout duration after it.
pub proof fn lemma_max_failures_lock(times: Seq<u64>, later: u64)
    requires
        times.len() == MAX_FAILED_ATTEMPTS,
        nondecreasing(times),
        times.last() - times[0] <= ATTEMPT_WINDOW_NANOS,
        times.last() <= u64::MAX - LOCKOUT_DURATION_NANOS,
        times.last() <= later < times.last() + LOCKOUT_DURATION_NANOS,
    ensures
        failure_report(after_failures(None, times)->0) == (true, 900u64),
        lock_status(after_failures(None, times), later).0,
{
    lemma_failures_in_window(times);
}

/// Fewer than `MAX_FAILED_ATTEMPTS` failures within the window do not lock.
pub proof fn lemma_fewer_failures_do_not_lock(times: Seq<u64>, later: u64)
    requires
        1 <= times.len() < MAX_FAILED_ATTEMPTS,
        nondecreasing(times),
        times.last() - times[0] <= ATTEMPT_WINDOW_NANOS,
        times.last() <= u64::MAX - LOCKOUT_DURATION_NANOS,
    ensures
        failure_report(after_failures(None, times)->0) == (false, 0u64),
        lock_status(after_failures(None, times), later) == (false, 0u64),
{
    lemma_failures_in_window(times);
}

/// A successful login clears the lockout: after the record is removed, the
/// user name is not locked at any time.
pub proof fn lemma_success_unlocks(m: Map<Seq<char>, AttemptEntry>, username: Seq<char>, now: u64)
    ensures
        lock_status(lookup(m.remove(username), username), now) == (false, 0u64),
{
}

/// One failure more: with `k - 1` failures counted in the open window (none
/// once the window has run out), the failure reports a lockout of 900
/// seconds exactly when `k` reaches `MAX_FAILED_ATTEMPTS`, and at that same
/// moment the account is locked exactly then.
pub proof fn lemma_failure_locks_exactly_at_max(
    store: LoginAttemptStore,
    username: Seq<char>,
    now: u64,
    after: Map<Seq<char>, AttemptEntry>,
)
    requires
        store.wf(),
        now <= u64::MAX - LOCKOUT_DURATION_NANOS,
        after == store.view().insert(username, failed_entry(lookup(store.view(), username), now)),
    ensures
        ({
            let k = next_attempt(counted_before(lookup(store.view(), username), now));
            &&& lookup(after, username) matches Some(e) && e.count == k
            &&& failure_report(failed_entry(lookup(store.view(), username), now)) == if k
                >= MAX_FAILED_ATTEMPTS {
                (true, 900u64)
            } else {
                (false, 0u64)
            }
            &&& lock_status(lookup(after, username), now).0 == (k >= MAX_FAILED_ATTEMPTS)
        }),
{
    let e = lookup(store.view(), username);
    if store.view().contains_key(username) {
        assert(consistent_entry(store.view()[username]));
    }
}

/// A user name with no record is never locked.
pub proof fn lemma_unknown_user_not_locked(username: Seq<char>, now: u64)
    ensures
        lock_status(lookup(Map::<Seq<char>, AttemptEntry>::empty(), username), now) == (false, 0u64),
{
}

/// A pending token is single-use: once taken, taking it again finds nothing.
pub proof fn lemma_take_consumes(m: Map<Seq<char>, TotpEntry>, token: Seq<char>, now: u64)
    ensures
        take_result(lookup(m.remove(token), token), now) is None,
{
}

/// Code attempts are bounded: counting an attempt never reports a count of
/// `MAX_TOTP_ATTEMPTS` or more, and from a fresh pending login the reported
/// counts are 1, 2, ... up to `MAX_TOTP_ATTEMPTS - 1`.
pub proof fn lemma_attempts_bounded(c: u32)
    ensures
        next_attempt(c) < MAX_TOTP_ATTEMPTS <==> c < MAX_TOTP_ATTEMPTS - 1,
        c < MAX_TOTP_ATTEMPTS - 1 ==> next_attempt(c) == c + 1,
{
}

/// A counted attempt is always below the limit: once a token's count would
/// reach `MAX_TOTP_ATTEMPTS`, it is dropped instead of reported.
pub proof fn lemma_counted_attempt_below_max(
    before: Map<Seq<char>, TotpEntry>,
    token: Seq<char>,
    now: u64,
    c: u32,
    after: Map<Seq<char>, TotpEntry>,
)
    requires
        attempt_counted(before, token, now, Some(c), after),
    ensures
        c < MAX_TOTP_ATTEMPTS,
        after.contains_key(token) && after[token].pending.attempt_count == c,
{
}

} // verus!
