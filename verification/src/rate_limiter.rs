//! Per-endpoint request pacing: a minimum interval between dispatches to
//! the same key. The limiter itself is a plain state machine over
//! caller-supplied clock readings in milliseconds; the caller suspends for
//! the returned delay and then records the dispatch instant.
use vstd::prelude::*;
use vstd::string::StringExecFns;
use crate::numeric::str_eq;

verus! {

/// The index of the first recorded request with the given key, if any.
pub open spec fn find_request(s: Seq<(String, u64)>, key: Seq<char>) -> Option<int>
    decreases s.len(),
{
    if s.len() == 0 {
        None
    } else if s[0].0@ == key {
        Some(0)
    } else {
        match find_request(s.drop_first(), key) {
            Some(i) => Some(i + 1),
            None => None,
        }
    }
}

/// No two recorded requests share a key.
pub open spec fn request_keys_unique(s: Seq<(String, u64)>) -> bool {
    forall|i: int, j: int| 0 <= i < j < s.len() ==> (#[trigger] s[i]).0@ != (#[trigger] s[j]).0@
}

/// The delay a caller must observe before dispatching at `now`, given the
/// last dispatch at `last`: the remainder of the minimum interval, or the
/// full interval when the clock reads at or before the recorded instant.
pub open spec fn pacing_delay(last: int, now: int, min_delay: int) -> int {
    if now >= last {
        if now - last < min_delay {
            min_delay - (now - last)
        } else {
            0
        }
    } else {
        min_delay
    }
}

/// A simple rate limiter that ensures minimum delay between requests.
pub struct RateLimiter {
    pub last_request: Vec<(String, u64)>,
    pub min_delay_ms: u64,
}

impl RateLimiter {
    pub open spec fn wf(self) -> bool {
        request_keys_unique(self.last_request@)
    }

    pub open spec fn spec_find(self, key: Seq<char>) -> Option<int> {
        find_request(self.last_request@, key)
    }

    /// Create a new rate limiter with the specified minimum delay between
    /// requests, in milliseconds.
    pub fn new(min_delay_ms: u64) -> (r: Self)
        ensures
            r.wf(),
            r.last_request@.len() == 0,
            r.min_delay_ms == min_delay_ms,
    {
        RateLimiter { last_request: Vec::new(), min_delay_ms }
    }

    fn find_index(&self, key: &str) -> (r: Option<usize>)
        ensures
            r matches Some(i) ==> self.spec_find(key@) == Some(i as int) && i
                < self.last_request@.len() && self.last_request@[i as int].0@ == key@,
            r is None ==> self.spec_find(key@) is None,
    {
        let mut i: usize = 0;
        proof {
            assert(self.last_request@.skip(0) =~= self.last_request@);
        }
        while i < self.last_request.len()
            invariant
                i <= self.last_request@.len(),
                forall|j: int| 0 <= j < i ==> (#[trigger] self.last_request@[j]).0@ != key@,
                find_request(self.last_request@.skip(i as int), key@) matches Some(x)
                    ==> find_request(self.last_request@, key@) == Some(x + i),
                find_request(self.last_request@.skip(i as int), key@) is None ==> find_request(
                    self.last_request@,
                    key@,
                ) is None,
            decreases self.last_request@.len() - i,
        {
            let hit = str_eq(self.last_request[i].0.as_str(), key);
            proof {
                assert(self.last_request@.skip(i as int)[0] == self.last_request@[i as int]);
                assert(self.last_request@.skip(i as int).drop_first() =~= self.last_request@.skip(
                    i as int + 1,
                ));
            }
            if hit {
                return Some(i);
            }
            i = i + 1;
        }
        proof {
            assert(self.last_request@.skip(i as int) =~= Seq::<(String, u64)>::empty());
        }
        None
    }

    /// How long a dispatch at `now` must wait to respect the rate limit:
    /// zero for a key never seen, otherwise the remainder of the minimum
    /// interval since the recorded dispatch. A dispatch at `now + delay`
    /// never comes within the minimum interval of the recorded one.
    pub fn wait_delay(&self, key: &str, now: u64) -> (delay: u64)
        ensures
            match self.spec_find(key@) {
                Some(i) => {
                    &&& delay == pacing_delay(
                        self.last_request@[i].1 as int,
                        now as int,
                        self.min_delay_ms as int,
                    )
                    &&& now >= self.last_request@[i].1 ==> now + delay
                        >= self.last_request@[i].1 + self.min_delay_ms
                },
                None => delay == 0,
            },
            delay <= self.min_delay_ms,
    {
        match self.find_index(key) {
            Some(i) => {
                let last = self.last_request[i].1;
                if now >= last {
                    let elapsed = now - last;
                    if elapsed < self.min_delay_ms {
                        self.min_delay_ms - elapsed
                    } else {
                        0
                    }
                } else {
                    self.min_delay_ms
                }
            },
            None => 0,
        }
    }

    /// Record that a request for `key` was dispatched at `now`.
    pub fn record(&mut self, key: &str, now: u64)
        requires
            old(self).wf(),
        ensures
            final(self).wf(),
            final(self).min_delay_ms == old(self).min_delay_ms,
            match old(self).spec_find(key@) {
                Some(i) => final(self).last_request@ == old(self).last_request@.update(
                    i,
                    (old(self).last_request@[i].0, now),
                ),
                None => final(self).last_request@.len() == old(self).last_request@.len() + 1
                    && final(self).last_request@.last().0@ == key@
                    && final(self).last_request@.last().1 == now && final(self).last_request@
                    .drop_last() == old(self).last_request@,
            },
            // Whichever case holds, the key is now recorded at `now`.
            final(self).spec_find(key@) matches Some(i) && final(self).last_request@[i].1 == now,
    {
        let ghost pre = self.last_request@;
        match self.find_index(key) {
            Some(i) => {
                let ghost kept = self.last_request@[i as int].0;
                let t = &mut self.last_request[i].1;
                *t = now;
                proof {
                    assert(self.last_request@ =~= pre.update(i as int, (kept, now)));
                    assert(request_keys_unique(self.last_request@)) by {
                        assert(forall|j: int|
                            0 <= j < pre.len() && j != i ==> (#[trigger] self.last_request@[j])
                                == pre[j]);
                        assert(self.last_request@[i as int].0@ == pre[i as int].0@);
                    }
                    lemma_find_request_present(self.last_request@, key@, i as int);
                }
            },
            None => {
                self.last_request.push((String::from_str(key), now));
                proof {
                    assert(self.last_request@.drop_last() =~= pre);
                    lemma_find_request_none_means_absent(pre, key@);
                    assert(request_keys_unique(self.last_request@)) by {
                        assert(forall|j: int|
                            0 <= j < pre.len() ==> (#[trigger] self.last_request@[j]) == pre[j]);
                    }
                    lemma_find_request_present(self.last_request@, key@, pre.len() as int);
                }
            },
        }
    }
}

proof fn lemma_find_request_present(s: Seq<(String, u64)>, key: Seq<char>, i: int)
    requires
        0 <= i < s.len(),
        s[i].0@ == key,
        request_keys_unique(s),
    ensures
        find_request(s, key) == Some(i),
    decreases s.len(),
{
    if s[0].0@ == key {
        assert(i == 0);
    } else {
        assert(s.drop_first()[i - 1] == s[i]);
        assert(request_keys_unique(s.drop_first())) by {
            assert(forall|x: int|
                0 <= x < s.len() - 1 ==> #[trigger] s.drop_first()[x] == s[x + 1]);
        }
        lemma_find_request_present(s.drop_first(), key, i - 1);
    }
}

proof fn lemma_find_request_none_means_absent(s: Seq<(String, u64)>, key: Seq<char>)
    requires
        find_request(s, key) is None,
    ensures
        forall|j: int| 0 <= j < s.len() ==> (#[trigger] s[j]).0@ != key,
    decreases s.len(),
{
    if s.len() > 0 {
        lemma_find_request_none_means_absent(s.drop_first(), key);
        assert forall|j: int| 0 <= j < s.len() implies (#[trigger] s[j]).0@ != key by {
            if j >= 1 {
                assert(s.drop_first()[j - 1] == s[j]);
            }
        }
    }
}

/// Sequential pacing law: when every dispatch on a key comes at least the
/// minimum interval after the one before it — which `wait_delay` and
/// `record` guarantee for a caller that waits out the returned delay — the
/// span from the first dispatch to the last is at least the interval times
/// the number of gaps. In particular, K sequential paced calls take at
/// least (K - 1) times the minimum delay.
pub proof fn lemma_sequential_pacing(fires: Seq<int>, min_delay: int)
    requires
        fires.len() >= 1,
        min_delay >= 0,
        forall|i: int| 0 <= i < fires.len() - 1 ==> fires[i + 1] >= #[trigger] fires[i] + min_delay,
    ensures
        fires.last() >= fires[0] + (fires.len() - 1) * min_delay,
    decreases fires.len(),
{
    if fires.len() > 1 {
        let head = fires.drop_last();
        assert(forall|j: int| 0 <= j < fires.len() - 1 ==> #[trigger] head[j] == fires[j]);
        assert forall|i: int| 0 <= i < head.len() - 1 implies head[i + 1] >= #[trigger] head[i]
            + min_delay by {
            assert(fires[i + 1] >= fires[i] + min_delay);
        }
        lemma_sequential_pacing(head, min_delay);
        let n = fires.len() - 1;
        assert(head.last() == fires[n - 1]);
        assert(fires[n - 1] >= fires[0] + (n - 1) * min_delay);
        assert(fires[n] >= fires[n - 1] + min_delay);
        assert((n - 1) * min_delay + min_delay == n * min_delay) by (nonlinear_arith);
        assert(fires.last() == fires[n]);
        assert(fires.last() >= fires[0] + n * min_delay);
    } else {
        assert((fires.len() - 1) * min_delay == 0) by (nonlinear_arith)
            requires
                fires.len() == 1,
        ;
    }
}

/// Global rate limiters for external APIs.
pub struct ApiRateLimiters {
    pub nominatim: RateLimiter,
    pub overpass: RateLimiter,
}

impl ApiRateLimiters {
    pub fn new(nominatim_delay_ms: u64, overpass_delay_ms: u64) -> (r: Self)
        ensures
            r.nominatim.wf() && r.nominatim.min_delay_ms == nominatim_delay_ms
                && r.nominatim.last_request@.len() == 0,
            r.overpass.wf() && r.overpass.min_delay_ms == overpass_delay_ms
                && r.overpass.last_request@.len() == 0,
    {
        ApiRateLimiters {
            nominatim: RateLimiter::new(nominatim_delay_ms),
            overpass: RateLimiter::new(overpass_delay_ms),
        }
    }
}

impl Default for ApiRateLimiters {
    /// One request per second toward geocoding, two per second toward
    /// geometry fetch.
    fn default() -> (r: Self)
        ensures
            r.nominatim.wf() && r.nominatim.min_delay_ms == 1000
                && r.nominatim.last_request@.len() == 0,
            r.overpass.wf() && r.overpass.min_delay_ms == 500 && r.overpass.last_request@.len()
                == 0,
    {
        Self::new(1000, 500)
    }
}

} // verus!
