use argon2::password_hash::rand_core::{OsRng, RngCore};
use argon2::password_hash::{PasswordHash, PasswordHasher, PasswordVerifier, SaltString};
use argon2::Argon2;
use rand::distr::Alphanumeric;
use rand::RngExt;
use std::time::Instant;
use vstd::prelude::*;

use crate::fingerprint::{sha256_hex, spec_sha256_hex};
use crate::text::{is_ascii_alnum, push_char, str_eq};
use vstd::utf8::encode_utf8;

verus! {

// ---------------------------------------------------------------------------
// Login rate limiting
// ---------------------------------------------------------------------------

/// Failed attempts a user may have inside the window before being refused.
pub const MAX_ATTEMPTS: usize = 5;

/// The window, in nanoseconds (15 minutes), inside which failures count.
pub const WINDOW_NANOS: u128 = 900_000_000_000;

/// Failures recorded per user name; a user missing from the map has none.
pub type AttemptLog = Map<Seq<char>, Seq<u128>>;

/// A failure recorded at `t` still counts at `now` when less than the window
/// has passed since it (a failure stamped after `now` counts too).
pub open spec fn still_counts(t: u128, now: u128) -> bool {
    now < t + WINDOW_NANOS
}

pub open spec fn attempts_of(log: AttemptLog, user: Seq<char>) -> Seq<u128> {
    if log.dom().contains(user) {
        log[user]
    } else {
        Seq::empty()
    }
}

/// The failures of `user` that still count at `now`.
pub open spec fn recent_attempts(log: AttemptLog, user: Seq<char>, now: u128) -> Seq<u128> {
    attempts_of(log, user).filter(|t: u128| still_counts(t, now))
}

/// A user may try to log in while fewer than `MAX_ATTEMPTS` failures count.
pub open spec fn login_allowed(log: AttemptLog, user: Seq<char>, now: u128) -> bool {
    recent_attempts(log, user, now).len() < MAX_ATTEMPTS
}

/// The log after a check: the user's failures that no longer count are dropped.
pub open spec fn after_check(log: AttemptLog, user: Seq<char>, now: u128) -> AttemptLog {
    log.insert(user, recent_attempts(log, user, now))
}

/// The log after a failure of `user` at `now`.
pub open spec fn after_failure(log: AttemptLog, user: Seq<char>, now: u128) -> AttemptLog {
    log.insert(user, attempts_of(log, user).push(now))
}

/// The log after a successful login: the user's slate is clear.
pub open spec fn after_success(log: AttemptLog, user: Seq<char>) -> AttemptLog {
    log.remove(user)
}

#[verifier::external_type_specification]
#[verifier::external_body]
pub struct ExInstant(Instant);

/// `std::time::Instant::now`. Nothing is claimed of the instant returned.
#[verifier::external_body]
fn clock_now() -> Instant {
    Instant::now()
}

/// `Instant::elapsed`, in nanoseconds. Nothing is claimed of the reading: it
/// depends on the clock.
#[verifier::external_body]
fn nanos_since(origin: &Instant) -> u128 {
    origin.elapsed().as_nanos()
}

struct UserAttempts {
    user: String,
    times: Vec<u128>,
}

spec fn distinct_users(entries: Seq<UserAttempts>) -> bool {
    forall|i: int, j: int|
        0 <= i < entries.len() && 0 <= j < entries.len() && i != j
            ==> #[trigger] entries[i].user@ != #[trigger] entries[j].user@
}

spec fn has_user(entries: Seq<UserAttempts>, u: Seq<char>) -> bool {
    exists|i: int| 0 <= i < entries.len() && #[trigger] entries[i].user@ == u
}

spec fn slot_of(entries: Seq<UserAttempts>, u: Seq<char>) -> int {
    choose|i: int| 0 <= i < entries.len() && #[trigger] entries[i].user@ == u
}

spec fn log_of(entries: Seq<UserAttempts>) -> AttemptLog {
    Map::new(|u: Seq<char>| has_user(entries, u), |u: Seq<char>| entries[slot_of(entries, u)].times@)
}

proof fn lemma_slot(entries: Seq<UserAttempts>, i: int)
    requires
        distinct_users(entries),
        0 <= i < entries.len(),
    ensures
        has_user(entries, entries[i].user@),
        slot_of(entries, entries[i].user@) == i,
        log_of(entries).dom().contains(entries[i].user@),
        log_of(entries)[entries[i].user@] == entries[i].times@,
{
    let u = entries[i].user@;
    assert(has_user(entries, u));
    let j = slot_of(entries, u);
    assert(entries[j].user@ == u);
}

/// Replacing the failures of one entry replaces them in the log.
proof fn lemma_log_update(before: Seq<UserAttempts>, after: Seq<UserAttempts>, i: int)
    requires
        distinct_users(before),
        0 <= i < before.len(),
        after.len() == before.len(),
        after[i].user@ == before[i].user@,
        forall|k: int| 0 <= k < before.len() && k != i ==> #[trigger] after[k] == before[k],
    ensures
        distinct_users(after),
        log_of(after) == log_of(before).insert(before[i].user@, after[i].times@),
{
    let u = before[i].user@;
    assert forall|a: int, b: int|
        0 <= a < after.len() && 0 <= b < after.len() && a != b implies #[trigger] after[a].user@
        != #[trigger] after[b].user@ by {
        assert(before[a].user@ != before[b].user@);
    }
    lemma_slot(before, i);
    lemma_slot(after, i);
    let target = log_of(before).insert(u, after[i].times@);
    assert forall|k: Seq<char>| #[trigger] log_of(after).dom().contains(k) == target.dom().contains(k) by {
        if k != u {
            if has_user(after, k) {
                let j = slot_of(after, k);
                assert(before[j].user@ == k);
            }
            if has_user(before, k) {
                let j = slot_of(before, k);
                assert(after[j].user@ == k);
            }
        }
    }
    assert forall|k: Seq<char>| #[trigger] log_of(after).dom().contains(k) implies log_of(after)[k] == target[k] by {
        if k != u {
            let j = slot_of(after, k);
            assert(before[j].user@ == k);
            lemma_slot(before, j);
            lemma_slot(after, j);
        }
    }
    assert(log_of(after) =~= target);
}

/// Appending a new user adds it to the log.
proof fn lemma_log_push(before: Seq<UserAttempts>, e: UserAttempts)
    requires
        distinct_users(before),
        !log_of(before).dom().contains(e.user@),
    ensures
        distinct_users(before.push(e)),
        log_of(before.push(e)) == log_of(before).insert(e.user@, e.times@),
{
    let after = before.push(e);
    let u = e.user@;
    let n = before.len() as int;
    assert forall|k: int| 0 <= k < n implies #[trigger] before[k].user@ != u by {
        lemma_slot(before, k);
    }
    assert forall|a: int, b: int|
        0 <= a < after.len() && 0 <= b < after.len() && a != b implies #[trigger] after[a].user@
        != #[trigger] after[b].user@ by {
        if a < n && b < n {
            assert(before[a].user@ != before[b].user@);
        }
    }
    lemma_slot(after, n);
    let target = log_of(before).insert(u, e.times@);
    assert forall|k: Seq<char>| #[trigger] log_of(after).dom().contains(k) == target.dom().contains(k) by {
        if k != u {
            if has_user(after, k) {
                let j = slot_of(after, k);
                assert(before[j].user@ == k);
            }
            if has_user(before, k) {
                let j = slot_of(before, k);
                assert(after[j].user@ == k);
            }
        }
    }
    assert forall|k: Seq<char>| #[trigger] log_of(after).dom().contains(k) implies log_of(after)[k] == target[k] by {
        if k != u {
            let j = slot_of(after, k);
            assert(before[j].user@ == k);
            lemma_slot(before, j);
            lemma_slot(after, j);
        }
    }
    assert(log_of(after) =~= target);
}

/// Removing an entry removes its user from the log.
proof fn lemma_log_remove(before: Seq<UserAttempts>, i: int)
    requires
        distinct_users(before),
        0 <= i < before.len(),
    ensures
        distinct_users(before.remove(i)),
        log_of(before.remove(i)) == log_of(before).remove(before[i].user@),
{
    let after = before.remove(i);
    let u = before[i].user@;
    assert forall|a: int, b: int|
        0 <= a < after.len() && 0 <= b < after.len() && a != b implies #[trigger] after[a].user@
        != #[trigger] after[b].user@ by {
        let a2 = if a < i { a } else { a + 1 };
        let b2 = if b < i { b } else { b + 1 };
        assert(before[a2].user@ != before[b2].user@);
    }
    let target = log_of(before).remove(u);
    assert forall|k: Seq<char>| #[trigger] log_of(after).dom().contains(k) == target.dom().contains(k) by {
        if has_user(after, k) {
            let j = slot_of(after, k);
            if j < i {
                assert(before[j].user@ == k);
            } else {
                assert(before[j + 1].user@ == k);
                lemma_slot(before, j + 1);
            }
        }
        if has_user(before, k) && k != u {
            let j = slot_of(before, k);
            if j < i {
                assert(after[j].user@ == k);
            } else {
                lemma_slot(before, i);
                assert(j != i);
                assert(after[j - 1].user@ == k);
            }
        }
    }
    assert forall|k: Seq<char>| #[trigger] log_of(after).dom().contains(k) implies log_of(after)[k] == target[k] by {
        let j = slot_of(after, k);
        lemma_slot(after, j);
        if j < i {
            lemma_slot(before, j);
        } else {
            lemma_slot(before, j + 1);
        }
    }
    assert(log_of(after) =~= target);
}

/// Tracks recent failed login attempts per user name. Time stamps are
/// nanoseconds since the limiter was made.
pub struct LoginRateLimiter {
    entries: Vec<UserAttempts>,
    origin: Instant,
}

impl LoginRateLimiter {
    #[verifier::type_invariant]
    spec fn entries_distinct(self) -> bool {
        distinct_users(self.entries@)
    }

    /// The failures recorded per user.
    pub closed spec fn log(self) -> AttemptLog {
        log_of(self.entries@)
    }

    fn find(&self, username: &str) -> (r: Option<usize>)
        ensures
            match r {
                Some(i) => i < self.entries.len() && self.entries@[i as int].user@ == username@,
                None => !self.log().dom().contains(username@),
            },
    {
        let mut i: usize = 0;
        while i < self.entries.len()
            invariant
                i <= self.entries.len(),
                forall|k: int| 0 <= k < i ==> #[trigger] self.entries@[k].user@ != username@,
            decreases self.entries.len() - i,
        {
            if str_eq(self.entries[i].user.as_str(), username) {
                return Some(i);
            }
            i = i + 1;
        }
        proof {
            if has_user(self.entries@, username@) {
                let j = slot_of(self.entries@, username@);
                assert(self.entries@[j].user@ == username@);
            }
        }
        None
    }

    pub fn new() -> (r: Self)
        ensures
            r.log() == AttemptLog::empty(),
    {
        let r = LoginRateLimiter { entries: Vec::new(), origin: clock_now() };
        assert(r.log() =~= AttemptLog::empty());
        r
    }

    /// Replaces the failures of entry `i`.
    fn set_times(&mut self, i: usize, times: Vec<u128>)
        requires
            i < old(self).entries.len(),
        ensures
            final(self).log() == old(self).log().insert(old(self).entries@[i as int].user@, times@),
    {
        proof {
            use_type_invariant(&*self);
        }
        let mut entries: Vec<UserAttempts> = Vec::new();
        std::mem::swap(&mut entries, &mut self.entries);
        let ghost before = entries@;
        let user = entries[i].user.clone();
        entries.set(i, UserAttempts { user, times });
        proof {
            lemma_log_update(before, entries@, i as int);
        }
        self.entries = entries;
    }

    /// Adds a new user with the given failures.
    fn add_user(&mut self, username: &str, times: Vec<u128>)
        requires
            !old(self).log().dom().contains(username@),
        ensures
            final(self).log() == old(self).log().insert(username@, times@),
    {
        proof {
            use_type_invariant(&*self);
        }
        let mut entries: Vec<UserAttempts> = Vec::new();
        std::mem::swap(&mut entries, &mut self.entries);
        let ghost before = entries@;
        let e = UserAttempts { user: username.to_owned(), times };
        proof {
            lemma_log_push(before, e);
        }
        entries.push(e);
        self.entries = entries;
    }

    /// Whether `username` may attempt a login at time `now`; failures that no
    /// longer count are dropped from the record.
    pub fn check_at(&mut self, username: &str, now: u128) -> (r: bool)
        ensures
            r == login_allowed(old(self).log(), username@, now),
            final(self).log() == after_check(old(self).log(), username@, now),
    {
        proof {
            use_type_invariant(&*self);
        }
        match self.find(username) {
            Some(i) => {
                proof {
                    lemma_slot(self.entries@, i as int);
                }
                let kept = keep_recent(&self.entries[i].times, now);
                let allowed = kept.len() < MAX_ATTEMPTS;
                self.set_times(i, kept);
                allowed
            },
            None => {
                let kept: Vec<u128> = Vec::new();
                proof {
                    reveal(Seq::filter);
                    assert(kept@ =~= recent_attempts(self.log(), username@, now));
                }
                self.add_user(username, kept);
                true
            },
        }
    }

    /// Records a failed attempt by `username` at time `now`.
    pub fn record_failure_at(&mut self, username: &str, now: u128)
        ensures
            final(self).log() == after_failure(old(self).log(), username@, now),
    {
        proof {
            use_type_invariant(&*self);
        }
        match self.find(username) {
            Some(i) => {
                proof {
                    lemma_slot(self.entries@, i as int);
                }
                let mut times = self.entries[i].times.clone();
                times.push(now);
                self.set_times(i, times);
            },
            None => {
                let mut times: Vec<u128> = Vec::new();
                times.push(now);
                proof {
                    assert(times@ =~= attempts_of(self.log(), username@).push(now));
                }
                self.add_user(username, times);
            },
        }
    }

    /// Clears the failures of `username`, after a successful login.
    pub fn record_success(&mut self, username: &str)
        ensures
            final(self).log() == after_success(old(self).log(), username@),
    {
        proof {
            use_type_invariant(&*self);
        }
        match self.find(username) {
            Some(i) => {
                let mut entries: Vec<UserAttempts> = Vec::new();
                std::mem::swap(&mut entries, &mut self.entries);
                let ghost before = entries@;
                entries.remove(i);
                proof {
                    lemma_log_remove(before, i as int);
                }
                self.entries = entries;
            },
            None => {
                proof {
                    assert(self.log() =~= self.log().remove(username@));
                }
            },
        }
    }

    /// Whether `username` may attempt a login now (at most `MAX_ATTEMPTS - 1`
    /// failures within the last 15 minutes); drops failures that no longer count.
    pub fn check(&mut self, username: &str) -> (r: bool)
        ensures
            exists|now: u128|
                {
                    &&& r == login_allowed(old(self).log(), username@, now)
                    &&& final(self).log() == after_check(old(self).log(), username@, now)
                },
    {
        let now = nanos_since(&self.origin);
        self.check_at(username, now)
    }

    /// Records a failed attempt by `username`, stamped with the current time.
    pub fn record_failure(&mut self, username: &str)
        ensures
            exists|now: u128| final(self).log() == after_failure(old(self).log(), username@, now),
    {
        let now = nanos_since(&self.origin);
        self.record_failure_at(username, now);
    }
}

/// The failures in `times` that still count at `now`, in order.
fn keep_recent(times: &Vec<u128>, now: u128) -> (r: Vec<u128>)
    ensures
        r@ == times@.filter(|t: u128| still_counts(t, now)),
{
    let mut out: Vec<u128> = Vec::new();
    let mut i: usize = 0;
    while i < times.len()
        invariant
            i <= times.len(),
            out@ == times@.take(i as int).filter(|t: u128| still_counts(t, now)),
        decreases times.len() - i,
    {
        let t = times[i];
        let counts = now <= t || now - t < WINDOW_NANOS;
        proof {
            reveal(Seq::filter);
            assert(times@.take(i + 1).drop_last() =~= times@.take(i as int));
            assert(counts == still_counts(t, now));
        }
        if counts {
            out.push(t);
        }
        i = i + 1;
    }
    proof {
        assert(times@.take(times@.len() as int) =~= times@);
    }
    out
}


/// The log after failures of `user` at each of the given times, in order.
pub open spec fn after_failures(log: AttemptLog, user: Seq<char>, times: Seq<u128>) -> AttemptLog
    decreases times.len(),
{
    if times.len() == 0 {
        log
    } else {
        after_failure(after_failures(log, user, times.drop_last()), user, times.last())
    }
}

/// A successful login clears the slate: the user may try again at once.
pub proof fn lemma_success_unlocks(log: AttemptLog, user: Seq<char>, now: u128)
    ensures
        login_allowed(after_success(log, user), user, now),
        attempts_of(after_success(log, user), user) == Seq::<u128>::empty(),
{
    reveal(Seq::filter);
    assert(!after_success(log, user).dom().contains(user));
}

/// Each user is tracked on their own: what happens to one user's record
/// leaves every other user's record as it was.
pub proof fn lemma_users_independent(
    log: AttemptLog,
    user: Seq<char>,
    other: Seq<char>,
    t: u128,
    now: u128,
)
    requires
        user != other,
    ensures
        attempts_of(after_failure(log, user, t), other) == attempts_of(log, other),
        attempts_of(after_success(log, user), other) == attempts_of(log, other),
        attempts_of(after_check(log, user, now), other) == attempts_of(log, other),
{
}

/// A failure older than the window does not count against the user.
pub proof fn lemma_stale_failure_ignored(log: AttemptLog, user: Seq<char>, t: u128, now: u128)
    requires
        !still_counts(t, now),
    ensures
        recent_attempts(after_failure(log, user, t), user, now) == recent_attempts(log, user, now),
        login_allowed(after_failure(log, user, t), user, now) == login_allowed(log, user, now),
{
    reveal(Seq::filter);
    let s = attempts_of(log, user).push(t);
    assert(s.drop_last() =~= attempts_of(log, user));
}

/// A failure inside the window counts once more against the user.
pub proof fn lemma_recent_failure_counts(log: AttemptLog, user: Seq<char>, t: u128, now: u128)
    requires
        still_counts(t, now),
    ensures
        recent_attempts(after_failure(log, user, t), user, now).len() == recent_attempts(
            log,
            user,
            now,
        ).len() + 1,
{
    reveal(Seq::filter);
    let s = attempts_of(log, user).push(t);
    assert(s.drop_last() =~= attempts_of(log, user));
}

proof fn lemma_failures_count(log: AttemptLog, user: Seq<char>, times: Seq<u128>, now: u128)
    requires
        forall|i: int| 0 <= i < times.len() ==> still_counts(#[trigger] times[i], now),
    ensures
        recent_attempts(after_failures(log, user, times), user, now).len() >= times.len(),
    decreases times.len(),
{
    if times.len() > 0 {
        let rest = times.drop_last();
        assert forall|i: int| 0 <= i < rest.len() implies still_counts(#[trigger] rest[i], now) by {
            assert(rest[i] == times[i]);
        }
        lemma_failures_count(log, user, rest, now);
        lemma_recent_failure_counts(after_failures(log, user, rest), user, times.last(), now);
    }
}

/// `MAX_ATTEMPTS` failures inside the window lock the user out, whatever
/// was recorded before.
pub proof fn lemma_lockout(log: AttemptLog, user: Seq<char>, times: Seq<u128>, now: u128)
    requires
        times.len() >= MAX_ATTEMPTS,
        forall|i: int| 0 <= i < times.len() ==> still_counts(#[trigger] times[i], now),
    ensures
        !login_allowed(after_failures(log, user, times), user, now),
{
    lemma_failures_count(log, user, times, now);
}

proof fn lemma_after_failures_attempts(log: AttemptLog, user: Seq<char>, times: Seq<u128>)
    ensures
        attempts_of(after_failures(log, user, times), user) == attempts_of(log, user) + times,
    decreases times.len(),
{
    if times.len() > 0 {
        lemma_after_failures_attempts(log, user, times.drop_last());
        assert(attempts_of(log, user) + times =~= (attempts_of(log, user) + times.drop_last()).push(
            times.last(),
        ));
    } else {
        assert(attempts_of(log, user) + times =~= attempts_of(log, user));
    }
}

proof fn lemma_none_count(s: Seq<u128>, now: u128)
    requires
        forall|k: int| 0 <= k < s.len() ==> !still_counts(#[trigger] s[k], now),
    ensures
        s.filter(|t: u128| still_counts(t, now)).len() == 0,
    decreases s.len(),
{
    reveal(Seq::filter);
    if s.len() > 0 {
        let r = s.drop_last();
        assert forall|k: int| 0 <= k < r.len() implies !still_counts(#[trigger] r[k], now) by {
            assert(r[k] == s[k]);
        }
        lemma_none_count(r, now);
        assert(!still_counts(s[s.len() - 1], now));
    }
}

/// A lockout ends by itself: `MAX_ATTEMPTS` failures stamped `t0`, on top of
/// failures no later than `t0`, refuse the user exactly until the window has
/// passed since `t0`.
pub proof fn lemma_lockout_expires(log: AttemptLog, user: Seq<char>, times: Seq<u128>, t0: u128, now: u128)
    requires
        times.len() == MAX_ATTEMPTS,
        forall|i: int| 0 <= i < times.len() ==> #[trigger] times[i] == t0,
        forall|k: int| 0 <= k < attempts_of(log, user).len() ==> #[trigger] attempts_of(log, user)[k] <= t0,
    ensures
        login_allowed(after_failures(log, user, times), user, now) <==> now >= t0 + WINDOW_NANOS,
{
    if now < t0 + WINDOW_NANOS {
        lemma_lockout(log, user, times, now);
    } else {
        lemma_after_failures_attempts(log, user, times);
        let all = attempts_of(log, user) + times;
        assert forall|k: int| 0 <= k < all.len() implies !still_counts(#[trigger] all[k], now) by {
            if k < attempts_of(log, user).len() {
                assert(all[k] == attempts_of(log, user)[k]);
            } else {
                assert(all[k] == times[k - attempts_of(log, user).len()]);
            }
        }
        lemma_none_count(all, now);
    }
}

proof fn lemma_filter_idempotent(s: Seq<u128>, now: u128)
    ensures
        s.filter(|t: u128| still_counts(t, now)).filter(|t: u128| still_counts(t, now)) == s.filter(
            |t: u128| still_counts(t, now),
        ),
    decreases s.len(),
{
    reveal(Seq::filter);
    if s.len() > 0 {
        lemma_filter_idempotent(s.drop_last(), now);
        let f = s.drop_last().filter(|t: u128| still_counts(t, now));
        if still_counts(s.last(), now) {
            assert(f.push(s.last()).drop_last() =~= f);
        }
    }
}

/// Dropping the failures that no longer count does not change whether the
/// user may try.
pub proof fn lemma_check_keeps_verdict(log: AttemptLog, user: Seq<char>, now: u128)
    ensures
        login_allowed(after_check(log, user, now), user, now) == login_allowed(log, user, now),
        recent_attempts(after_check(log, user, now), user, now) == recent_attempts(log, user, now),
{
    lemma_filter_idempotent(attempts_of(log, user), now);
}

// ---------------------------------------------------------------------------
// Passwords
// ---------------------------------------------------------------------------

#[verifier::external_type_specification]
#[verifier::external_body]
pub struct ExPasswordHashError(argon2::password_hash::Error);

/// Whether Argon2 verification (`PasswordHash::new` on the stored text, then
/// `Argon2::default().verify_password`) accepts `password` against `encoded`.
pub uninterp spec fn argon2_accepts(password: Seq<u8>, encoded: Seq<char>) -> bool;

/// How every stored Argon2id hash begins: the PHC identifier of Argon2id and
/// its version 19.
pub open spec fn argon2id_prefix() -> Seq<char> {
    seq!['$', 'a', 'r', 'g', 'o', 'n', '2', 'i', 'd', '$', 'v', '=', '1', '9', '$']
}

/// The head of a PHC string made with Argon2's default settings, up to the
/// salt: "$argon2id$v=19$m=19456,t=2,p=1$".
pub open spec fn argon2id_default_head() -> Seq<char> {
    argon2id_prefix() + seq!['m', '=', '1', '9', '4', '5', '6', ',', 't', '=', '2', ',', 'p', '=', '1', '$']
}

/// The B64 text of a salt, as `SaltString::encode_b64` renders its bytes.
pub uninterp spec fn salt_b64(salt: Seq<u8>) -> Seq<char>;

/// The PHC string `Argon2::default().hash_password` makes of a password with
/// the salt whose bytes are given.
pub uninterp spec fn argon2_phc(password: Seq<u8>, salt: Seq<u8>) -> Seq<char>;

/// Whether a PHC string is one of Argon2's defaults that carries `salt`: the
/// default head, the salt's B64 text, then '$' and the digest.
pub open spec fn phc_with_salt(phc: Seq<char>, salt: Seq<u8>) -> bool {
    (argon2id_default_head() + salt_b64(salt) + seq!['$']).is_prefix_of(phc)
}

/// 16 fresh salt bytes from the operating system (`OsRng::fill_bytes`, as
/// `SaltString::generate` draws them). They are left to chance, so nothing is
/// claimed of them.
#[verifier::external_body]
fn random_salt() -> [u8; 16] {
    let mut bytes = [0u8; 16];
    OsRng.fill_bytes(&mut bytes);
    bytes
}

/// `SaltString::encode_b64` of the salt bytes, then
/// `Argon2::default().hash_password`, rendered as a PHC string. The contract
/// claims what the `argon2` and `password-hash` sources show:
/// - the text is a function of the password and the salt (the default
///   context has no secret), named `argon2_phc`;
/// - encoding 16 bytes always fits a `SaltString`, and with the default
///   parameters and a 16-byte salt the only error left is `verify_inputs`
///   refusing a password longer than `MAX_PWD_LEN` (0xFFFFFFFF) bytes;
/// - `PasswordHash`'s `Display` writes '$argon2id', '$v=19', '$' and the
///   default parameters "m=19456,t=2,p=1", '$' and the salt's B64 text, then
///   '$' and the digest;
/// - a hash it produces is accepted by verification of the same password
///   (`verify_password` recomputes with the algorithm, version, parameters
///   and salt the text carries).
#[verifier::external_body]
fn argon2_hash(password: &[u8], salt: &[u8; 16]) -> (r: Result<String, argon2::password_hash::Error>)
    ensures
        r is Ok <==> password@.len() <= 0xFFFF_FFFF,
        r matches Ok(h) ==> h@ == argon2_phc(password@, salt@),
        r matches Ok(h) ==> (argon2id_default_head() + salt_b64(salt@) + seq!['$']).is_prefix_of(h@),
        r matches Ok(h) ==> argon2_accepts(password@, h@),
{
    let salt = match SaltString::encode_b64(salt) {
        Ok(s) => s,
        Err(e) => return Err(e),
    };
    match Argon2::default().hash_password(password, &salt) {
        Ok(h) => Ok(h.to_string()),
        Err(e) => Err(e),
    }
}

/// `PasswordHash::new` on the stored text, then
/// `Argon2::default().verify_password`; a stored text that does not parse is
/// a refusal. Besides naming the answer, the contract states what
/// `PasswordHash::parse` shows: an empty text, or one that does not start
/// with '$', does not parse.
#[verifier::external_body]
fn argon2_check(password: &[u8], stored: &str) -> (r: bool)
    ensures
        r == argon2_accepts(password@, stored@),
        stored@.len() == 0 || stored@[0] != '$' ==> !r,
{
    match PasswordHash::new(stored) {
        Ok(h) => Argon2::default().verify_password(password, &h).is_ok(),
        Err(_) => false,
    }
}

/// Hashing a password failed inside Argon2.
pub struct PasswordHashError {
    pub cause: argon2::password_hash::Error,
}

proof fn lemma_phc_prefix(phc: Seq<char>, salt: Seq<u8>)
    requires
        phc_with_salt(phc, salt),
    ensures
        argon2id_prefix().is_prefix_of(phc),
{
    let head = argon2id_default_head() + salt_b64(salt) + seq!['$'];
    assert forall|k: int| 0 <= k < argon2id_prefix().len() implies #[trigger] argon2id_prefix()[k] == phc[k] by {
        assert(head[k] == argon2id_default_head()[k]);
        assert(argon2id_default_head()[k] == argon2id_prefix()[k]);
        assert(phc[k] == head[k]);
    }
}

/// Hashes a plaintext password with Argon2 and the given 16 salt bytes: the
/// Argon2id PHC string with the default parameters that carries the salt and
/// verifies against the same password. It fails only for a password longer
/// than Argon2's limit of 0xFFFFFFFF bytes.
pub fn hash_password_salted(password: &str, salt: [u8; 16]) -> (r: Result<String, PasswordHashError>)
    ensures
        r is Ok <==> encode_utf8(password@).len() <= 0xFFFF_FFFF,
        r matches Ok(h) ==> h@ == argon2_phc(encode_utf8(password@), salt@),
        r matches Ok(h) ==> phc_with_salt(h@, salt@),
        r matches Ok(h) ==> argon2id_prefix().is_prefix_of(h@),
        r matches Ok(h) ==> argon2_accepts(encode_utf8(password@), h@),
{
    match argon2_hash(password.as_bytes(), &salt) {
        Ok(h) => {
            proof {
                lemma_phc_prefix(h@, salt@);
            }
            Ok(h)
        },
        Err(e) => Err(PasswordHashError { cause: e }),
    }
}

/// Hashes a plaintext password with Argon2 and a fresh random salt, giving
/// the text to store: an Argon2id PHC string that carries the salt it was
/// made with and verifies against the same password. It fails only for a
/// password longer than Argon2's limit of 0xFFFFFFFF bytes.
pub fn hash_password(password: &str) -> (r: Result<String, PasswordHashError>)
    ensures
        r is Ok <==> encode_utf8(password@).len() <= 0xFFFF_FFFF,
        r matches Ok(h) ==> exists|salt: Seq<u8>|
            salt.len() == 16 && h@ == argon2_phc(encode_utf8(password@), salt) && phc_with_salt(h@, salt),
        r matches Ok(h) ==> argon2id_prefix().is_prefix_of(h@),
        r matches Ok(h) ==> argon2_accepts(encode_utf8(password@), h@),
{
    let salt = random_salt();
    let r = hash_password_salted(password, salt);
    proof {
        broadcast use vstd::array::array_len_matches_n;
        assert(salt@.len() == 16);
    }
    r
}

/// Whether `password` matches the stored Argon2 hash; a malformed stored
/// hash is a plain refusal (in particular an empty one, or one that does not
/// start with '$').
pub fn verify_password(password: &str, stored_hash: &str) -> (r: bool)
    ensures
        r == argon2_accepts(encode_utf8(password@), stored_hash@),
        stored_hash@.len() == 0 || stored_hash@[0] != '$' ==> !r,
{
    argon2_check(password.as_bytes(), stored_hash)
}

/// Hashes a bearer credential (session token, API key, enrollment token)
/// before storage: SHA-256 of its bytes as 64 lower-case hex digits.
pub fn hash_token(token: &str) -> (r: String)
    ensures
        r@ == spec_sha256_hex(token@),
        r@.len() == 64,
{
    sha256_hex(token)
}

/// Settles a login attempt once the stored hash (if the user exists) is
/// known: success clears the user's failures, anything else records one.
pub fn conclude_login(
    limiter: &mut LoginRateLimiter,
    username: &str,
    password: &str,
    stored_hash: Option<&str>,
) -> (r: bool)
    ensures
        r == match stored_hash {
            Some(h) => argon2_accepts(encode_utf8(password@), h@),
            None => false,
        },
        r ==> final(limiter).log() == after_success(old(limiter).log(), username@),
        !r ==> exists|now: u128| final(limiter).log() == after_failure(old(limiter).log(), username@, now),
{
    let ok = match stored_hash {
        Some(h) => verify_password(password, h),
        None => false,
    };
    if ok {
        limiter.record_success(username);
    } else {
        limiter.record_failure(username);
    }
    ok
}

// ---------------------------------------------------------------------------
// Random credentials
// ---------------------------------------------------------------------------

/// A text of exactly `n` ASCII letters and digits.
pub open spec fn is_alnum_text(s: Seq<char>, n: nat) -> bool {
    &&& s.len() == n
    &&& forall|i: int| 0 <= i < s.len() ==> is_ascii_alnum(#[trigger] s[i])
}

/// `rand::rng().sample(Alphanumeric)`: the `rand` documentation and source
/// show a byte drawn from A-Z, a-z and 0-9; which one is left to chance.
#[verifier::external_body]
fn random_alphanumeric() -> (c: char)
    ensures
        is_ascii_alnum(c),
{
    char::from(rand::rng().sample(Alphanumeric))
}

fn random_alphanumeric_text(n: usize) -> (r: String)
    ensures
        is_alnum_text(r@, n as nat),
{
    let mut out = String::new();
    let mut i: usize = 0;
    while i < n
        invariant
            i <= n,
            is_alnum_text(out@, i as nat),
        decreases n - i,
    {
        let c = random_alphanumeric();
        push_char(&mut out, c);
        i = i + 1;
    }
    out
}

/// A fresh random 64-character alphanumeric session token (also used for
/// agent API keys and enrollment tokens).
pub fn generate_session_token() -> (r: String)
    ensures
        is_alnum_text(r@, 64),
{
    random_alphanumeric_text(64)
}

/// A fresh random 24-character alphanumeric temporary password.
pub fn generate_temporary_password() -> (r: String)
    ensures
        is_alnum_text(r@, 24),
{
    random_alphanumeric_text(24)
}

} // verus!
