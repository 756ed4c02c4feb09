//! A rate limiter: each key may be granted a limited number of requests
//! per time window.
use vstd::prelude::*;
use vstd::string::StringExecFns;
use crate::text::same_text;
use crate::clock::{clock_now, duration_nanos, elapsed_since, nanos_of};

verus! {

/// What the limiter holds for one key: the requests granted in the
/// current window, when the window ends (nanoseconds after the limiter
/// was made), and the key's limit.
#[verifier::ext_equal]
pub struct LimitEntry {
    pub key: Seq<char>,
    pub count: u32,
    pub reset_at: u128,
    pub limit: u32,
}

/// The position of the entry for `key`, if there is one.
pub open spec fn key_index(s: Seq<LimitEntry>, key: Seq<char>) -> Option<int> {
    if exists|i: int| 0 <= i < s.len() && (#[trigger] s[i]).key == key {
        Some(choose|i: int| 0 <= i < s.len() && (#[trigger] s[i]).key == key)
    } else {
        None
    }
}

/// No two entries share a key, and no key has been granted more than its
/// limit.
pub open spec fn entries_ok(s: Seq<LimitEntry>) -> bool {
    &&& forall|i: int, j: int|
        0 <= i < s.len() && 0 <= j < s.len() && i != j ==> (#[trigger] s[i]).key != (
        #[trigger] s[j]).key
    &&& forall|i: int| 0 <= i < s.len() ==> (#[trigger] s[i]).count <= s[i].limit
}

/// `a + b`, or the largest `u128` when the sum does not fit.
pub open spec fn sat_add(a: u128, b: u128) -> u128 {
    if a + b <= u128::MAX {
        (a + b) as u128
    } else {
        u128::MAX
    }
}

/// The entry for `key` as a check at `now` finds it: the stored one, or a
/// fresh one with the given limit and a window of `window` from now;
/// restarted with an empty window when its window ended before `now`.
pub open spec fn window_entry(
    s: Seq<LimitEntry>,
    key: Seq<char>,
    limit: u32,
    window: u128,
    now: u128,
) -> LimitEntry {
    let e = match key_index(s, key) {
        Some(i) => s[i],
        None => LimitEntry { key, count: 0, reset_at: sat_add(now, window), limit },
    };
    if now > e.reset_at {
        LimitEntry { count: 0, reset_at: sat_add(now, window), ..e }
    } else {
        e
    }
}

/// Whether a check at `now` grants the request: the key's window still
/// has room.
pub open spec fn check_allows(
    s: Seq<LimitEntry>,
    key: Seq<char>,
    limit: u32,
    window: u128,
    now: u128,
) -> bool {
    window_entry(s, key, limit, window, now).count < window_entry(s, key, limit, window, now).limit
}

/// The entries after a check at `now`: the key's entry as the check found
/// it, counting the request when it was granted.
pub open spec fn after_check(
    s: Seq<LimitEntry>,
    key: Seq<char>,
    limit: u32,
    window: u128,
    now: u128,
) -> Seq<LimitEntry> {
    let e = window_entry(s, key, limit, window, now);
    let e2 = if e.count < e.limit {
        LimitEntry { count: (e.count + 1) as u32, ..e }
    } else {
        e
    };
    match key_index(s, key) {
        Some(i) => s.update(i, e2),
        None => s.push(e2),
    }
}

/// How many more requests the key may make in its window; `0` for a key
/// never checked.
pub open spec fn remaining_of(s: Seq<LimitEntry>, key: Seq<char>) -> u32 {
    match key_index(s, key) {
        Some(i) => (s[i].limit - s[i].count) as u32,
        None => 0,
    }
}

/// The stored form of a [`LimitEntry`].
struct RateEntry {
    key: String,
    count: u32,
    reset_at: u128,
    limit: u32,
}

/// The views of stored entries.
spec fn limit_views(v: Seq<RateEntry>) -> Seq<LimitEntry> {
    v.map_values(
        |e: RateEntry| LimitEntry { key: e.key@, count: e.count, reset_at: e.reset_at, limit: e.limit },
    )
}

/// A limiter of requests per key and time window.
pub struct RateLimiter {
    entries: Vec<RateEntry>,
    origin: std::time::Instant,
}

impl View for RateLimiter {
    type V = Seq<LimitEntry>;

    closed spec fn view(&self) -> Seq<LimitEntry> {
        limit_views(self.entries@)
    }
}

impl RateLimiter {
    #[verifier::type_invariant]
    spec fn inv(self) -> bool {
        entries_ok(limit_views(self.entries@))
    }

    /// A limiter that has granted nothing; its clock starts now.
    pub fn new() -> (r: RateLimiter)
        ensures
            r@ == Seq::<LimitEntry>::empty(),
    {
        let r = RateLimiter { entries: Vec::new(), origin: clock_now() };
        assert(r@ =~= Seq::<LimitEntry>::empty());
        r
    }

    /// A limiter that has granted nothing. The limit of each key is the one
    /// given with its first check, so the argument plays no part.
    pub fn new_with_limit(_limit: u32) -> (r: RateLimiter)
        ensures
            r@ == Seq::<LimitEntry>::empty(),
    {
        RateLimiter::new()
    }

    /// The position of the entry for `key`.
    fn find(&self, key: &str) -> (r: Option<usize>)
        ensures
            match r {
                Some(i) => key_index(self@, key@) == Some(i as int) && i < self@.len(),
                None => key_index(self@, key@) is None,
            },
    {
        proof {
            use_type_invariant(self);
        }
        let mut i: usize = 0;
        while i < self.entries.len()
            invariant
                i <= self.entries@.len(),
                self@ == limit_views(self.entries@),
                entries_ok(self@),
                forall|j: int| 0 <= j < i ==> self@[j].key != key@,
            decreases self.entries@.len() - i,
        {
            if same_text(self.entries[i].key.as_str(), key) {
                proof {
                    assert(self@[i as int].key == key@);
                    let k = choose|k: int| 0 <= k < self@.len() && (#[trigger] self@[k]).key == key@;
                    assert(k == i);
                }
                return Some(i);
            }
            i = i + 1;
        }
        None
    }

    /// Checks a request for `key` at `now` (nanoseconds after the limiter
    /// was made) against `limit` requests per `window` nanoseconds.
    pub fn check_rate_limit_at(&mut self, key: &str, limit: u32, window: u128, now: u128) -> (r: bool)
        ensures
            r == check_allows(old(self)@, key@, limit, window, now),
            final(self)@ == after_check(old(self)@, key@, limit, window, now),
    {
        proof {
            use_type_invariant(&*self);
        }
        let ghost before = self@;
        let fresh_reset = now.saturating_add(window);
        let found = self.find(key);
        let (mut count, mut reset_at, entry_limit) = match found {
            Some(i) => (self.entries[i].count, self.entries[i].reset_at, self.entries[i].limit),
            None => (0u32, fresh_reset, limit),
        };
        if now > reset_at {
            count = 0;
            reset_at = fresh_reset;
        }
        let granted = count < entry_limit;
        if granted {
            count = count + 1;
        }
        let entry = RateEntry { key: String::from_str(key), count, reset_at, limit: entry_limit };
        let ghost ev = LimitEntry { key: key@, count, reset_at, limit: entry_limit };
        let mut list: Vec<RateEntry> = Vec::new();
        std::mem::swap(&mut list, &mut self.entries);
        let ghost old_list = list@;
        match found {
            Some(i) => {
                list.remove(i);
                list.insert(i, entry);
                proof {
                    assert(limit_views(list@) =~= before.update(i as int, ev));
                    assert(limit_views(list@) =~= after_check(before, key@, limit, window, now));
                    assert forall|a: int, b: int|
                        0 <= a < limit_views(list@).len() && 0 <= b < limit_views(list@).len() && a
                            != b implies (#[trigger] limit_views(list@)[a]).key != (
                    #[trigger] limit_views(list@)[b]).key by {
                        if a != i && b != i {
                            assert(before[a] == limit_views(list@)[a]);
                            assert(before[b] == limit_views(list@)[b]);
                        } else if a == i {
                            assert(before[a].key == key@);
                        } else {
                            assert(before[b].key == key@);
                        }
                    }
                    assert forall|a: int| 0 <= a < limit_views(list@).len() implies (
                    #[trigger] limit_views(list@)[a]).count <= limit_views(list@)[a].limit by {
                        if a != i {
                            assert(before[a] == limit_views(list@)[a]);
                        }
                    }
                }
            },
            None => {
                list.push(entry);
                proof {
                    assert(limit_views(list@) =~= before.push(ev));
                    assert(limit_views(list@) =~= after_check(before, key@, limit, window, now));
                    assert forall|a: int, b: int|
                        0 <= a < limit_views(list@).len() && 0 <= b < limit_views(list@).len() && a
                            != b implies (#[trigger] limit_views(list@)[a]).key != (
                    #[trigger] limit_views(list@)[b]).key by {
                        if a < before.len() && b < before.len() {
                            assert(before[a] == limit_views(list@)[a]);
                            assert(before[b] == limit_views(list@)[b]);
                        } else if a == before.len() {
                            assert(limit_views(list@)[b] == before[b]);
                        } else {
                            assert(limit_views(list@)[a] == before[a]);
                        }
                    }
                    assert forall|a: int| 0 <= a < limit_views(list@).len() implies (
                    #[trigger] limit_views(list@)[a]).count <= limit_views(list@)[a].limit by {
                        if a < before.len() {
                            assert(before[a] == limit_views(list@)[a]);
                        }
                    }
                }
            },
        }
        self.entries = list;
        granted
    }

    /// Checks a request for `key` now against `limit` requests per
    /// `window`, the window taken in nanoseconds. The time of the check
    /// comes from the clock, so the contract speaks of some time.
    pub fn check_rate_limit(&mut self, key: &str, limit: u32, window: std::time::Duration) -> (r: bool)
        ensures
            exists|now: u128|
                r == check_allows(old(self)@, key@, limit, nanos_of(window), now) && final(self)@
                    == after_check(old(self)@, key@, limit, nanos_of(window), now),
    {
        let w = duration_nanos(&window);
        let n = duration_nanos(&elapsed_since(&self.origin));
        let ghost before = self@;
        let r = self.check_rate_limit_at(key, limit, w, n);
        assert(r == check_allows(before, key@, limit, nanos_of(window), n) && self@ == after_check(
            before,
            key@,
            limit,
            nanos_of(window),
            n,
        ));
        r
    }

    /// How many more requests `key` may make in its window; `0` for a key
    /// never checked.
    pub fn get_remaining(&self, key: &str) -> (r: u32)
        ensures
            r == remaining_of(self@, key@),
    {
        proof {
            use_type_invariant(self);
        }
        match self.find(key) {
            Some(i) => self.entries[i].limit - self.entries[i].count,
            None => 0,
        }
    }
}

/// The entries after `k` checks of `key` at the same time `now`.
pub open spec fn checks_at(
    s: Seq<LimitEntry>,
    key: Seq<char>,
    limit: u32,
    window: u128,
    now: u128,
    k: nat,
) -> Seq<LimitEntry>
    decreases k,
{
    if k == 0 {
        s
    } else {
        after_check(checks_at(s, key, limit, window, now, (k - 1) as nat), key, limit, window, now)
    }
}

/// A key checked for the first time is granted exactly `limit` requests
/// in its window: after `k <= limit` checks at one time the next check is
/// granted exactly when `k < limit`, and `limit - k` requests remain.
pub proof fn law_fresh_key_gets_limit(
    s: Seq<LimitEntry>,
    key: Seq<char>,
    limit: u32,
    window: u128,
    now: u128,
    k: nat,
)
    requires
        key_index(s, key) is None,
        k <= limit,
    ensures
        check_allows(checks_at(s, key, limit, window, now, k), key, limit, window, now) == (k
            < limit),
        remaining_of(checks_at(s, key, limit, window, now, k), key) == (if k == 0 {
            0
        } else {
            limit - k
        }),
        k > 0 ==> key_index(checks_at(s, key, limit, window, now, k), key) == Some(s.len() as int),
        k > 0 ==> checks_at(s, key, limit, window, now, k)[s.len() as int] == (LimitEntry {
            key,
            count: k as u32,
            reset_at: sat_add(now, window),
            limit,
        }),
        checks_at(s, key, limit, window, now, k).len() == if k == 0 {
            s.len()
        } else {
            s.len() + 1
        },
        forall|i: int| 0 <= i < s.len() ==> checks_at(s, key, limit, window, now, k)[i] == s[i],
    decreases k,
{
    if k > 0 {
        let k1 = (k - 1) as nat;
        law_fresh_key_gets_limit(s, key, limit, window, now, k1);
        let prev = checks_at(s, key, limit, window, now, k1);
        let cur = checks_at(s, key, limit, window, now, k);
        assert(cur == after_check(prev, key, limit, window, now));
        if k1 == 0 {
            assert(prev == s);
            let e = LimitEntry { key, count: 1, reset_at: sat_add(now, window), limit };
            assert(cur =~= s.push(e));
            assert(cur[s.len() as int] == e);
            assert(cur[s.len() as int].key == key);
            let w = choose|i: int| 0 <= i < cur.len() && (#[trigger] cur[i]).key == key;
            assert(w == s.len()) by {
                if w < s.len() {
                    assert(cur[w] == s[w]);
                    assert(key_index(s, key) is Some);
                }
            }
        } else {
            let e = LimitEntry { key, count: k as u32, reset_at: sat_add(now, window), limit };
            assert(key_index(prev, key) == Some(s.len() as int));
            assert(prev[s.len() as int].reset_at == sat_add(now, window));
            assert(cur =~= prev.update(s.len() as int, e));
            assert(cur[s.len() as int].key == key);
            let w = choose|i: int| 0 <= i < cur.len() && (#[trigger] cur[i]).key == key;
            assert(w == s.len()) by {
                if w < s.len() {
                    assert(cur[w] == s[w]);
                    assert(key_index(s, key) is Some);
                }
            }
        }
    }
}

/// A check after a key's window has ended starts a new window, whatever
/// was counted in the old one: the request is granted (unless the key's
/// limit is zero), the key's count becomes the one request, its window
/// ends `window` after `now`, and its limit stays; no other key changes.
pub proof fn law_expired_window_restarts(
    s: Seq<LimitEntry>,
    key: Seq<char>,
    limit: u32,
    window: u128,
    now: u128,
    i: int,
)
    requires
        entries_ok(s),
        0 <= i < s.len(),
        s[i].key == key,
        now > s[i].reset_at,
    ensures
        check_allows(s, key, limit, window, now) == (s[i].limit > 0),
        after_check(s, key, limit, window, now).len() == s.len(),
        after_check(s, key, limit, window, now)[i] == (LimitEntry {
            key,
            count: if s[i].limit > 0 {
                1u32
            } else {
                0u32
            },
            reset_at: if now + window <= u128::MAX {
                (now + window) as u128
            } else {
                u128::MAX
            },
            limit: s[i].limit,
        }),
        forall|j: int| 0 <= j < s.len() && j != i ==> after_check(s, key, limit, window, now)[j] == s[j],
{
    assert(key_index(s, key) is Some);
    let k = choose|k: int| 0 <= k < s.len() && (#[trigger] s[k]).key == key;
    assert(k == i);
}

/// A check within a key's window counts against it: the request is
/// granted exactly when fewer than the key's limit were granted in the
/// window, the count then grows by one, and the window's end and the
/// limit stay; no other key changes.
pub proof fn law_window_counts(
    s: Seq<LimitEntry>,
    key: Seq<char>,
    limit: u32,
    window: u128,
    now: u128,
    i: int,
)
    requires
        entries_ok(s),
        0 <= i < s.len(),
        s[i].key == key,
        now <= s[i].reset_at,
    ensures
        check_allows(s, key, limit, window, now) == (s[i].count < s[i].limit),
        after_check(s, key, limit, window, now).len() == s.len(),
        after_check(s, key, limit, window, now)[i] == (LimitEntry {
            key,
            count: if s[i].count < s[i].limit {
                (s[i].count + 1) as u32
            } else {
                s[i].count
            },
            reset_at: s[i].reset_at,
            limit: s[i].limit,
        }),
        forall|j: int| 0 <= j < s.len() && j != i ==> after_check(s, key, limit, window, now)[j] == s[j],
{
    assert(key_index(s, key) is Some);
    let k = choose|k: int| 0 <= k < s.len() && (#[trigger] s[k]).key == key;
    assert(k == i);
}

/// Once a key is refused, it stays refused, and nothing changes, until
/// its window ends: a check at a later time no later than the window's
/// end is refused too.
pub proof fn law_refused_until_reset(
    s: Seq<LimitEntry>,
    key: Seq<char>,
    limit: u32,
    window: u128,
    now1: u128,
    now2: u128,
)
    requires
        entries_ok(s),
        !check_allows(s, key, limit, window, now1),
        now1 <= now2 <= window_entry(s, key, limit, window, now1).reset_at,
    ensures
        !check_allows(after_check(s, key, limit, window, now1), key, limit, window, now2),
        after_check(after_check(s, key, limit, window, now1), key, limit, window, now2)
            == after_check(s, key, limit, window, now1),
{
    let t = after_check(s, key, limit, window, now1);
    let e = window_entry(s, key, limit, window, now1);
    let at: int = match key_index(s, key) {
        Some(i) => i,
        None => s.len() as int,
    };
    match key_index(s, key) {
        Some(i) => {
            assert(t == s.update(i, e));
        },
        None => {
            assert(t == s.push(e));
        },
    }
    assert(0 <= at < t.len() && t[at] == e && e.key == key);
    assert(key_index(t, key) == Some(at)) by {
        let w = choose|j: int| 0 <= j < t.len() && (#[trigger] t[j]).key == key;
        assert(0 <= at < t.len() && t[at].key == key);
        if w != at {
            assert(t[w] == s[w]);
            match key_index(s, key) {
                Some(i) => {
                    assert(s[i].key == key);
                },
                None => {
                    assert(s[w].key == key);
                },
            }
        }
    }
    assert(window_entry(t, key, limit, window, now2) == e);
    assert(after_check(t, key, limit, window, now2) =~= t.update(at, e));
    assert(t.update(at, e) =~= t);
}

} // verus!
