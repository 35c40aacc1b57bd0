//! Fixed-window rate limiting keyed by (caller, resource): at most
//! `MAX_ATTEMPTS_PER_WINDOW` attempts per `WINDOW_DURATION_SECONDS`-long
//! window. A successful verification still counts toward the limit; only
//! the elapse of the window resets the counter.

use vstd::prelude::*;

verus! {

use crate::api::RateLimitInfo;
use crate::ids::Id;
use crate::MAX_ATTEMPTS_PER_WINDOW;
use crate::WINDOW_DURATION_SECONDS;

/// The pair a rate-limit entry is keyed by.
pub struct RateLimitKey {
    pub user_id: Id,
    pub product_id: Id,
}

/// Builds the key for a (caller, resource) pair.
pub fn create_rate_limit_key(user_id: Id, product_id: Id) -> (r: RateLimitKey)
    ensures
        r.user_id@ == user_id@,
        r.product_id@ == product_id@,
{
    RateLimitKey { user_id, product_id }
}

/// Attempt counter for one (caller, resource) pair within one window.
pub struct RateLimitEntry {
    pub principal_id: Id,
    pub product_id: Id,
    pub attempts: u32,
    pub window_start: u64,
    pub last_attempt: u64,
}

/// First entry for the pair, if any.
pub open spec fn rl_get(s: Seq<RateLimitEntry>, u: Seq<u8>, p: Seq<u8>) -> Option<RateLimitEntry>
    decreases s.len(),
{
    if s.len() == 0 {
        None
    } else if s[0].principal_id@ == u && s[0].product_id@ == p {
        Some(s[0])
    } else {
        rl_get(s.drop_first(), u, p)
    }
}

/// No two entries share a pair.
pub open spec fn rl_distinct(s: Seq<RateLimitEntry>) -> bool {
    forall|i: int, j: int|
        0 <= i < j < s.len() ==> !(s[i].principal_id@ == s[j].principal_id@ && s[i].product_id@
            == s[j].product_id@)
}

/// Every stored window start leaves room for one more window, so reset
/// times cannot overflow.
pub open spec fn rl_bounded(s: Seq<RateLimitEntry>) -> bool {
    forall|i: int|
        0 <= i < s.len() ==> #[trigger] s[i].window_start <= u64::MAX - WINDOW_DURATION_SECONDS
}

/// Whether an entry's window has elapsed at `now`.
pub open spec fn window_expired(e: RateLimitEntry, now: u64) -> bool {
    now > e.window_start + WINDOW_DURATION_SECONDS
}

/// The attempts that count at `now`: none for a missing or expired entry.
pub open spec fn effective_attempts(o: Option<RateLimitEntry>, now: u64) -> u32 {
    match o {
        None => 0,
        Some(e) => if window_expired(e, now) {
            0
        } else {
            e.attempts
        },
    }
}

/// The window start in force at `now`: `now` itself for a missing or
/// expired entry.
pub open spec fn effective_window_start(o: Option<RateLimitEntry>, now: u64) -> u64 {
    match o {
        None => now,
        Some(e) => if window_expired(e, now) {
            now
        } else {
            e.window_start
        },
    }
}

/// A lookup succeeds exactly when some entry has the pair, and then
/// returns an entry.
pub proof fn lemma_rl_get_index(s: Seq<RateLimitEntry>, u: Seq<u8>, p: Seq<u8>)
    ensures
        (rl_get(s, u, p) is Some) <==> exists|i: int|
            0 <= i < s.len() && s[i].principal_id@ == u && s[i].product_id@ == p,
        rl_get(s, u, p) is Some ==> exists|i: int|
            0 <= i < s.len() && s[i].principal_id@ == u && s[i].product_id@ == p && rl_get(
                s,
                u,
                p,
            ) == Some(s[i]),
    decreases s.len(),
{
    if s.len() == 0 {
    } else if s[0].principal_id@ == u && s[0].product_id@ == p {
        assert(0 <= 0 < s.len() && s[0].principal_id@ == u && s[0].product_id@ == p && rl_get(
            s,
            u,
            p,
        ) == Some(s[0]));
    } else {
        lemma_rl_get_index(s.drop_first(), u, p);
        if exists|i: int| 0 <= i < s.len() && s[i].principal_id@ == u && s[i].product_id@ == p {
            let i = choose|i: int|
                0 <= i < s.len() && s[i].principal_id@ == u && s[i].product_id@ == p;
            assert(i != 0);
            assert(s.drop_first()[i - 1].principal_id@ == u && s.drop_first()[i - 1].product_id@
                == p);
        }
        if rl_get(s.drop_first(), u, p) is Some {
            let i = choose|i: int|
                0 <= i < s.drop_first().len() && s.drop_first()[i].principal_id@ == u
                    && s.drop_first()[i].product_id@ == p && rl_get(s.drop_first(), u, p) == Some(
                    s.drop_first()[i],
                );
            assert(s[i + 1].principal_id@ == u && s[i + 1].product_id@ == p && rl_get(s, u, p)
                == Some(s[i + 1]));
        }
    }
}

/// With distinct pairs, looking up an entry's own pair returns it.
pub proof fn lemma_rl_get_at(s: Seq<RateLimitEntry>, i: int)
    requires
        rl_distinct(s),
        0 <= i < s.len(),
    ensures
        rl_get(s, s[i].principal_id@, s[i].product_id@) == Some(s[i]),
{
    let u = s[i].principal_id@;
    let p = s[i].product_id@;
    lemma_rl_get_index(s, u, p);
    let j = choose|j: int|
        0 <= j < s.len() && s[j].principal_id@ == u && s[j].product_id@ == p && rl_get(s, u, p)
            == Some(s[j]);
    if i != j {
        assert(!(s[i].principal_id@ == s[j].principal_id@ && s[i].product_id@ == s[j].product_id@));
    }
}

/// Appending an entry with a fresh pair adds exactly that binding.
pub proof fn lemma_rl_get_push(s: Seq<RateLimitEntry>, e: RateLimitEntry, u: Seq<u8>, p: Seq<u8>)
    ensures
        rl_get(s.push(e), u, p) == if u == e.principal_id@ && p == e.product_id@ && rl_get(
            s,
            u,
            p,
        ) is None {
            Some(e)
        } else {
            rl_get(s, u, p)
        },
    decreases s.len(),
{
    if s.len() == 0 {
        assert(s.push(e)[0] == e);
        assert(s.push(e).drop_first() =~= Seq::<RateLimitEntry>::empty());
    } else {
        assert(s.push(e)[0] == s[0]);
        assert(s.push(e).drop_first() =~= s.drop_first().push(e));
        lemma_rl_get_push(s.drop_first(), e, u, p);
    }
}

/// Replacing the entry at an index rebinds its pair and leaves the rest.
pub proof fn lemma_rl_get_update(
    s: Seq<RateLimitEntry>,
    i: int,
    e: RateLimitEntry,
    u: Seq<u8>,
    p: Seq<u8>,
)
    requires
        rl_distinct(s),
        0 <= i < s.len(),
        s[i].principal_id@ == e.principal_id@,
        s[i].product_id@ == e.product_id@,
    ensures
        rl_get(s.update(i, e), u, p) == if u == e.principal_id@ && p == e.product_id@ {
            Some(e)
        } else {
            rl_get(s, u, p)
        },
        rl_distinct(s.update(i, e)),
    decreases s.len(),
{
    let s2 = s.update(i, e);
    assert forall|a: int, b: int| 0 <= a < b < s2.len() implies !(s2[a].principal_id@
        == s2[b].principal_id@ && s2[a].product_id@ == s2[b].product_id@) by {
        assert(!(s[a].principal_id@ == s[b].principal_id@ && s[a].product_id@ == s[b].product_id@));
    }
    if i == 0 {
        assert(s2[0] == e);
        assert(s2.drop_first() =~= s.drop_first());
    } else {
        assert(s2[0] == s[0]);
        assert(s2.drop_first() =~= s.drop_first().update(i - 1, e));
        assert(rl_distinct(s.drop_first()));
        lemma_rl_get_update(s.drop_first(), i - 1, e, u, p);
        if u == e.principal_id@ && p == e.product_id@ {
            assert(!(s[0].principal_id@ == s[i].principal_id@ && s[0].product_id@
                == s[i].product_id@));
        }
    }
}

/// Removing the entry at an index unbinds its pair and leaves the rest.
pub proof fn lemma_rl_get_remove(s: Seq<RateLimitEntry>, i: int, u: Seq<u8>, p: Seq<u8>)
    requires
        rl_distinct(s),
        0 <= i < s.len(),
    ensures
        rl_get(s.remove(i), u, p) == if u == s[i].principal_id@ && p == s[i].product_id@ {
            None
        } else {
            rl_get(s, u, p)
        },
        rl_distinct(s.remove(i)),
    decreases s.len(),
{
    let s2 = s.remove(i);
    assert forall|a: int, b: int| 0 <= a < b < s2.len() implies !(s2[a].principal_id@
        == s2[b].principal_id@ && s2[a].product_id@ == s2[b].product_id@) by {
        let a0 = if a < i {
            a
        } else {
            a + 1
        };
        let b0 = if b < i {
            b
        } else {
            b + 1
        };
        assert(s2[a] == s[a0] && s2[b] == s[b0]);
        assert(!(s[a0].principal_id@ == s[b0].principal_id@ && s[a0].product_id@
            == s[b0].product_id@));
    }
    if i == 0 {
        assert(s2 =~= s.drop_first());
        if u == s[0].principal_id@ && p == s[0].product_id@ {
            lemma_rl_get_index(s.drop_first(), u, p);
            if rl_get(s.drop_first(), u, p) is Some {
                let j = choose|j: int|
                    0 <= j < s.drop_first().len() && s.drop_first()[j].principal_id@ == u
                        && s.drop_first()[j].product_id@ == p;
                assert(s[j + 1].principal_id@ == u && s[j + 1].product_id@ == p);
                assert(!(s[0].principal_id@ == s[j + 1].principal_id@ && s[0].product_id@
                    == s[j + 1].product_id@));
            }
        }
    } else {
        assert(s2[0] == s[0]);
        assert(s2.drop_first() =~= s.drop_first().remove(i - 1));
        assert(rl_distinct(s.drop_first()));
        lemma_rl_get_remove(s.drop_first(), i - 1, u, p);
        if u == s[i].principal_id@ && p == s[i].product_id@ {
            assert(!(s[0].principal_id@ == s[i].principal_id@ && s[0].product_id@
                == s[i].product_id@));
        }
    }
}

/// The attempt counters, one entry per (caller, resource) pair.
pub struct RateLimiter {
    pub entries: Vec<RateLimitEntry>,
}

impl RateLimiter {
    /// Well-formed: pairs distinct, window starts bounded.
    pub open spec fn wf(self) -> bool {
        rl_distinct(self.entries@) && rl_bounded(self.entries@)
    }

    /// The entry for a pair, if any.
    pub open spec fn get(self, u: Seq<u8>, p: Seq<u8>) -> Option<RateLimitEntry> {
        rl_get(self.entries@, u, p)
    }

    /// An empty limiter.
    pub fn new() -> (r: RateLimiter)
        ensures
            r.wf(),
            r.entries@.len() == 0,
            forall|u: Seq<u8>, p: Seq<u8>| r.get(u, p) is None,
    {
        RateLimiter { entries: Vec::new() }
    }

    /// Index of the entry for the pair, if any.
    fn index_of(&self, user_id: &Id, product_id: &Id) -> (r: Option<usize>)
        requires
            self.wf(),
        ensures
            match r {
                Some(i) => i < self.entries@.len() && self.entries@[i as int].principal_id@
                    == user_id@ && self.entries@[i as int].product_id@ == product_id@ && self.get(
                    user_id@,
                    product_id@,
                ) == Some(self.entries@[i as int]),
                None => self.get(user_id@, product_id@) is None,
            },
    {
        let mut i: usize = 0;
        while i < self.entries.len()
            invariant
                self.wf(),
                i <= self.entries@.len(),
                forall|j: int|
                    0 <= j < i ==> !(self.entries@[j].principal_id@ == user_id@
                        && self.entries@[j].product_id@ == product_id@),
            decreases self.entries@.len() - i,
        {
            if self.entries[i].principal_id == *user_id && self.entries[i].product_id
                == *product_id {
                proof {
                    lemma_rl_get_at(self.entries@, i as int);
                }
                return Some(i);
            }
            i = i + 1;
        }
        proof {
            lemma_rl_get_index(self.entries@, user_id@, product_id@);
        }
        None
    }

    /// Read-only projection of the remaining budget: what an attempt at
    /// `now` would see, computed as though an expired window were reset but
    /// without mutating anything.
    pub fn check_rate_limit(&self, user_id: &Id, product_id: &Id, now: u64) -> (r: RateLimitInfo)
        requires
            self.wf(),
            now <= u64::MAX - WINDOW_DURATION_SECONDS,
        ensures
            ({
                let eff = effective_attempts(self.get(user_id@, product_id@), now);
                let ws = effective_window_start(self.get(user_id@, product_id@), now);
                &&& r.remaining_attempts == if eff >= MAX_ATTEMPTS_PER_WINDOW {
                    0u32
                } else {
                    (MAX_ATTEMPTS_PER_WINDOW - eff) as u32
                }
                &&& r.reset_time == ws + WINDOW_DURATION_SECONDS
                &&& r.current_window_start == ws
            }),
    {
        let (attempts, window_start): (u32, u64) = match self.index_of(user_id, product_id) {
            Some(i) => {
                let e = &self.entries[i];
                if now > e.window_start + WINDOW_DURATION_SECONDS {
                    (0, now)
                } else {
                    (e.attempts, e.window_start)
                }
            },
            None => (0, now),
        };
        let remaining_attempts = if attempts >= MAX_ATTEMPTS_PER_WINDOW {
            0
        } else {
            MAX_ATTEMPTS_PER_WINDOW - attempts
        };
        RateLimitInfo {
            remaining_attempts,
            reset_time: window_start + WINDOW_DURATION_SECONDS,
            current_window_start: window_start,
        }
    }

    /// Records an attempt at `now`. A fresh or expired window starts over;
    /// a window already at the limit refuses, hands back its reset time and
    /// leaves the state untouched; otherwise the counter steps up by one
    /// and the remaining budget is returned.
    pub fn record_verification_attempt(&mut self, user_id: &Id, product_id: &Id, now: u64) -> (r:
        Result<RateLimitInfo, u64>)
        requires
            old(self).wf(),
            now <= u64::MAX - WINDOW_DURATION_SECONDS,
        ensures
            final(self).wf(),
            ({
                let pre = old(self).get(user_id@, product_id@);
                let eff = effective_attempts(pre, now);
                let ws = effective_window_start(pre, now);
                if eff >= MAX_ATTEMPTS_PER_WINDOW {
                    &&& r matches Err(t) && t == ws + WINDOW_DURATION_SECONDS
                    &&& final(self).entries@ == old(self).entries@
                } else {
                    &&& r matches Ok(info) && info.remaining_attempts == MAX_ATTEMPTS_PER_WINDOW
                        - (eff + 1) && info.reset_time == ws + WINDOW_DURATION_SECONDS
                        && info.current_window_start == ws
                    &&& ({
                        let post = final(self).get(user_id@, product_id@);
                        &&& post matches Some(e2)
                        &&& e2.principal_id@ == user_id@
                        &&& e2.product_id@ == product_id@
                        &&& e2.attempts == eff + 1
                        &&& e2.window_start == ws
                        &&& e2.last_attempt == now
                    })
                    &&& forall|u2: Seq<u8>, p2: Seq<u8>|
                        !(u2 == user_id@ && p2 == product_id@) ==> final(self).get(u2, p2) == old(
                            self,
                        ).get(u2, p2)
                }
            }),
    {
        let found = self.index_of(user_id, product_id);
        match found {
            Some(i) => {
                let expired = now > self.entries[i].window_start + WINDOW_DURATION_SECONDS;
                let attempts: u32 = if expired {
                    0
                } else {
                    self.entries[i].attempts
                };
                let window_start: u64 = if expired {
                    now
                } else {
                    self.entries[i].window_start
                };
                if attempts >= MAX_ATTEMPTS_PER_WINDOW {
                    return Err(window_start + WINDOW_DURATION_SECONDS);
                }
                let e2 = RateLimitEntry {
                    principal_id: self.entries[i].principal_id.clone(),
                    product_id: self.entries[i].product_id.clone(),
                    attempts: attempts + 1,
                    window_start,
                    last_attempt: now,
                };
                proof {
                    assert forall|u2: Seq<u8>, p2: Seq<u8>| true implies rl_get(
                        self.entries@.update(i as int, e2),
                        u2,
                        p2,
                    ) == if u2 == e2.principal_id@ && p2 == e2.product_id@ {
                        Some(e2)
                    } else {
                        rl_get(self.entries@, u2, p2)
                    } by {
                        lemma_rl_get_update(self.entries@, i as int, e2, u2, p2);
                    }
                }
                self.entries[i] = e2;
                Ok(
                    RateLimitInfo {
                        remaining_attempts: MAX_ATTEMPTS_PER_WINDOW - (attempts + 1),
                        reset_time: window_start + WINDOW_DURATION_SECONDS,
                        current_window_start: window_start,
                    },
                )
            },
            None => {
                let e2 = RateLimitEntry {
                    principal_id: user_id.clone(),
                    product_id: product_id.clone(),
                    attempts: 1,
                    window_start: now,
                    last_attempt: now,
                };
                proof {
                    assert forall|u2: Seq<u8>, p2: Seq<u8>| true implies rl_get(
                        self.entries@.push(e2),
                        u2,
                        p2,
                    ) == if u2 == e2.principal_id@ && p2 == e2.product_id@ && rl_get(
                        self.entries@,
                        u2,
                        p2,
                    ) is None {
                        Some(e2)
                    } else {
                        rl_get(self.entries@, u2, p2)
                    } by {
                        lemma_rl_get_push(self.entries@, e2, u2, p2);
                    }
                    lemma_rl_get_index(self.entries@, user_id@, product_id@);
                    let s2 = self.entries@.push(e2);
                    assert forall|a: int, b: int| 0 <= a < b < s2.len() implies !(
                    s2[a].principal_id@ == s2[b].principal_id@ && s2[a].product_id@
                        == s2[b].product_id@) by {
                        if b < s2.len() - 1 {
                            assert(s2[a] == self.entries@[a] && s2[b] == self.entries@[b]);
                        } else {
                            assert(s2[a] == self.entries@[a]);
                            assert(s2[b] == e2);
                        }
                    }
                }
                self.entries.push(e2);
                Ok(
                    RateLimitInfo {
                        remaining_attempts: MAX_ATTEMPTS_PER_WINDOW - 1,
                        reset_time: now + WINDOW_DURATION_SECONDS,
                        current_window_start: now,
                    },
                )
            },
        }
    }

    /// Notes a successful verification at `now` on the entry's
    /// `last_attempt`. Deliberately does not reset the counter: success
    /// still counts toward the limit.
    pub fn record_successful_verification(&mut self, user_id: &Id, product_id: &Id, now: u64)
        requires
            old(self).wf(),
        ensures
            final(self).wf(),
            ({
                match old(self).get(user_id@, product_id@) {
                    None => final(self).entries@ == old(self).entries@,
                    Some(e) => {
                        let post = final(self).get(user_id@, product_id@);
                        &&& post matches Some(e2)
                        &&& e2.principal_id@ == e.principal_id@
                        &&& e2.product_id@ == e.product_id@
                        &&& e2.attempts == e.attempts
                        &&& e2.window_start == e.window_start
                        &&& e2.last_attempt == now
                        &&& forall|u2: Seq<u8>, p2: Seq<u8>|
                            !(u2 == user_id@ && p2 == product_id@) ==> final(self).get(u2, p2)
                                == old(self).get(u2, p2)
                    },
                }
            }),
    {
        match self.index_of(user_id, product_id) {
            Some(i) => {
                let e2 = RateLimitEntry {
                    principal_id: self.entries[i].principal_id.clone(),
                    product_id: self.entries[i].product_id.clone(),
                    attempts: self.entries[i].attempts,
                    window_start: self.entries[i].window_start,
                    last_attempt: now,
                };
                proof {
                    assert forall|u2: Seq<u8>, p2: Seq<u8>| true implies rl_get(
                        self.entries@.update(i as int, e2),
                        u2,
                        p2,
                    ) == if u2 == e2.principal_id@ && p2 == e2.product_id@ {
                        Some(e2)
                    } else {
                        rl_get(self.entries@, u2, p2)
                    } by {
                        lemma_rl_get_update(self.entries@, i as int, e2, u2, p2);
                    }
                }
                self.entries[i] = e2;
            },
            None => {},
        }
    }

    /// Administrative clear of one pair's entry.
    pub fn reset_rate_limit(&mut self, user_id: &Id, product_id: &Id)
        requires
            old(self).wf(),
        ensures
            final(self).wf(),
            final(self).get(user_id@, product_id@) is None,
            forall|u2: Seq<u8>, p2: Seq<u8>|
                !(u2 == user_id@ && p2 == product_id@) ==> final(self).get(u2, p2) == old(self).get(
                    u2,
                    p2,
                ),
    {
        match self.index_of(user_id, product_id) {
            Some(i) => {
                proof {
                    assert forall|u2: Seq<u8>, p2: Seq<u8>| true implies rl_get(
                        self.entries@.remove(i as int),
                        u2,
                        p2,
                    ) == if u2 == self.entries@[i as int].principal_id@ && p2
                        == self.entries@[i as int].product_id@ {
                        None
                    } else {
                        rl_get(self.entries@, u2, p2)
                    } by {
                        lemma_rl_get_remove(self.entries@, i as int, u2, p2);
                    }
                }
                let _ = self.entries.remove(i);
            },
            None => {},
        }
    }

    /// Administrative clear of every entry.
    pub fn reset_rate_limits(&mut self)
        ensures
            final(self).wf(),
            final(self).entries@.len() == 0,
            forall|u2: Seq<u8>, p2: Seq<u8>| final(self).get(u2, p2) is None,
    {
        self.entries.clear();
    }
}

/// Within one window, each recorded attempt steps the counter up by one
/// and the remaining budget down by one; the attempt after the budget is
/// spent is refused with the window's reset time; and once the window has
/// elapsed, the next attempt starts a fresh window with a single attempt
/// counted, not six.
///
/// The entry fields named here are exactly what
/// `record_verification_attempt` promises of the state it leaves behind.
pub proof fn lemma_rate_limit_window(e: RateLimitEntry, now: u64, later: u64, after_window: u64)
    requires
        e.window_start <= now <= later,
        later <= e.window_start + WINDOW_DURATION_SECONDS,
        after_window > e.window_start + WINDOW_DURATION_SECONDS,
    ensures
        e.attempts < MAX_ATTEMPTS_PER_WINDOW ==> effective_attempts(Some(e), later) == e.attempts
            && effective_window_start(Some(e), later) == e.window_start,
        e.attempts >= MAX_ATTEMPTS_PER_WINDOW ==> effective_attempts(Some(e), later)
            >= MAX_ATTEMPTS_PER_WINDOW,
        effective_attempts(Some(e), after_window) == 0,
        effective_window_start(Some(e), after_window) == after_window,
{
}

} // verus!
