//! The fixed-window rate limit: the key under which a client's requests are
//! counted, and the decision taken on the count that the store holds.

use vstd::prelude::*;
use vstd::string::*;
use crate::text::{
    decimal, decimal_text, lemma_decimal_digits, lemma_decimal_injective,
    lemma_decimal_round_trip, parse_u32, parsed_u32, push_decimal,
};

verus! {

/// Requests that one client may make in one window, unless configured otherwise.
pub const RATE_LIMIT_MAX: u32 = 30;

/// Length of a window in seconds, unless configured otherwise.
pub const RATE_LIMIT_WINDOW_SECS: u64 = 60;

/// The longest window that can be configured: its double is the lifetime of a
/// counter and has to fit.
pub const MAX_WINDOW_SECS: u64 = 0x7FFF_FFFF_FFFF_FFFF;

/// The limit: at most `max_per_window` requests in each window of
/// `window_secs` seconds.
#[derive(Clone, Copy, Debug, PartialEq, Eq, Structural)]
pub struct RateLimitConfig {
    pub max_per_window: u32,
    pub window_secs: u64,
}

/// What the limiter says of one request.
#[derive(Clone, Copy, Debug, PartialEq, Eq, Structural)]
pub struct Decision {
    pub allowed: bool,
    /// Seconds after which a refused client may come back; 0 where `allowed`.
    pub retry_after_secs: u64,
}

/// A counter to put into the store: `value` under `key`, to expire after
/// `ttl_secs` seconds.
#[derive(Clone, Debug, PartialEq, Eq)]
pub struct CounterWrite {
    pub key: String,
    pub value: String,
    pub ttl_secs: u64,
}

/// The key of the counter of `client` in the window `window_index`.
pub open spec fn key_text(client: Seq<char>, window_index: nat) -> Seq<char> {
    seq!['r', 'a', 't', 'e', ':'] + client + seq![':'] + decimal(window_index)
}

/// What the store said, as characters.
pub open spec fn text_of(stored: Option<&str>) -> Option<Seq<char>> {
    match stored {
        Some(s) => Some(s@),
        None => None,
    }
}

/// The count that a stored text stands for: the number it writes, and 0 where
/// nothing is stored or the text is no number.
pub open spec fn stored_count(stored: Option<Seq<char>>) -> u32 {
    match stored {
        Some(s) => match parsed_u32(s) {
            Some(n) => n,
            None => 0,
        },
        None => 0,
    }
}

impl RateLimitConfig {
    /// A window has a length, and twice that length fits in 64 bits.
    pub open spec fn wf(&self) -> bool {
        0 < self.window_secs <= MAX_WINDOW_SECS
    }

    /// The window that the second `now_secs` falls into.
    pub open spec fn window_index(&self, now_secs: u64) -> nat {
        (now_secs / self.window_secs) as nat
    }

    /// The decision on a request that finds `count` in the store.
    pub open spec fn decision(&self, count: u32) -> Decision {
        if count >= self.max_per_window {
            Decision { allowed: false, retry_after_secs: self.window_secs }
        } else {
            Decision { allowed: true, retry_after_secs: 0 }
        }
    }

    /// What the store holds under one key after `requests` requests in one
    /// window, each of which read the counter and wrote back what it was told to,
    /// starting from a key that is not there.
    pub open spec fn stored_after(&self, requests: nat) -> Option<Seq<char>>
        decreases requests,
    {
        if requests == 0 {
            None
        } else {
            let before = self.stored_after((requests - 1) as nat);
            if self.decision(stored_count(before)).allowed {
                Some(decimal(stored_count(before) as nat + 1))
            } else {
                before
            }
        }
    }

    /// A limit of `max_per_window` requests per `window_secs` seconds; `None`
    /// where the window is empty or too long.
    pub fn new(max_per_window: u32, window_secs: u64) -> (r: Option<RateLimitConfig>)
        ensures
            r == if 0 < window_secs <= MAX_WINDOW_SECS {
                Some(RateLimitConfig { max_per_window, window_secs })
            } else {
                None::<RateLimitConfig>
            },
            r matches Some(c) ==> c.wf(),
    {
        if 0 < window_secs && window_secs <= MAX_WINDOW_SECS {
            Some(RateLimitConfig { max_per_window, window_secs })
        } else {
            None
        }
    }

    /// The key under which the requests of `client_id` are counted at
    /// `now_secs`: `rate:`, the client, a colon and the window's index.
    pub fn make_key(&self, client_id: &str, now_secs: u64) -> (key: String)
        requires
            self.wf(),
        ensures
            key@ == key_text(client_id@, self.window_index(now_secs)),
    {
        proof {
            reveal_strlit("rate:");
            reveal_strlit(":");
        }
        let mut key = String::from_str("rate:");
        key.append(client_id);
        key.append(":");
        push_decimal(&mut key, now_secs / self.window_secs);
        assert(key@ =~= key_text(client_id@, self.window_index(now_secs)));
        key
    }

    /// Decides on a request whose counter `key` holds `stored` (`None` where the
    /// key is missing or could not be read). Under the limit the request is
    /// allowed and the count, one higher, is to be written back with twice the
    /// window as its lifetime; at the limit it is refused and nothing is written.
    pub fn check_and_increment(
        &self,
        key: &str,
        stored: Option<&str>,
    ) -> (r: (Decision, Option<CounterWrite>))
        requires
            self.wf(),
        ensures
            r.0 == self.decision(stored_count(text_of(stored))),
            r.0.allowed ==> r.1 is Some && r.1->0.key@ == key@ && r.1->0.value@ == decimal(
                stored_count(text_of(stored)) as nat + 1,
            ) && r.1->0.ttl_secs == 2 * self.window_secs,
            !r.0.allowed ==> r.1 is None,
    {
        let count: u32 = match stored {
            Some(text) => match parse_u32(text) {
                Some(n) => n,
                None => 0,
            },
            None => 0,
        };
        if count >= self.max_per_window {
            (Decision { allowed: false, retry_after_secs: self.window_secs }, None)
        } else {
            let write = CounterWrite {
                key: String::from_str(key),
                value: decimal_text(count as u64 + 1),
                ttl_secs: 2 * self.window_secs,
            };
            (Decision { allowed: true, retry_after_secs: 0 }, Some(write))
        }
    }
}

impl Default for RateLimitConfig {
    /// Thirty requests a minute.
    fn default() -> (r: RateLimitConfig)
        ensures
            r == (RateLimitConfig {
                max_per_window: RATE_LIMIT_MAX,
                window_secs: RATE_LIMIT_WINDOW_SECS,
            }),
            r.wf(),
    {
        RateLimitConfig { max_per_window: RATE_LIMIT_MAX, window_secs: RATE_LIMIT_WINDOW_SECS }
    }
}

/// The whole seconds in `millis` milliseconds.
pub fn seconds_from_millis(millis: u64) -> (secs: u64)
    ensures
        secs == millis / 1000,
{
    millis / 1000
}

/// The key under which the requests of `ip` are counted at `timestamp_secs`,
/// with windows of sixty seconds: `rate:`, the address, a colon and the
/// window's index.
pub fn rate_limit_key(ip: &str, timestamp_secs: u64) -> (key: String)
    ensures
        key@ == key_text(ip@, (timestamp_secs / RATE_LIMIT_WINDOW_SECS) as nat),
{
    let limits = RateLimitConfig {
        max_per_window: RATE_LIMIT_MAX,
        window_secs: RATE_LIMIT_WINDOW_SECS,
    };
    limits.make_key(ip, timestamp_secs)
}

/// Two keys are the same only for the same client in the same window.
pub proof fn lemma_key_injective(c1: Seq<char>, w1: nat, c2: Seq<char>, w2: nat)
    ensures
        key_text(c1, w1) == key_text(c2, w2) <==> c1 == c2 && w1 == w2,
{
    if key_text(c1, w1) == key_text(c2, w2) {
        let k1 = key_text(c1, w1);
        let k2 = key_text(c2, w2);
        let d1 = decimal(w1);
        let d2 = decimal(w2);
        lemma_decimal_digits(w1);
        lemma_decimal_digits(w2);
        assert(k1.len() == 6 + c1.len() + d1.len());
        assert(k2.len() == 6 + c2.len() + d2.len());
        assert(k1[5 + c1.len() as int] == ':');
        assert(k2[5 + c2.len() as int] == ':');
        if d1.len() < d2.len() {
            let t = d2.len() - d1.len() - 1;
            assert(k2[6 + c2.len() + t] == d2[t]);
        } else if d2.len() < d1.len() {
            let t = d1.len() - d2.len() - 1;
            assert(k1[6 + c1.len() + t] == d1[t]);
        } else {
            assert forall|i: int| 0 <= i < c1.len() implies c1[i] == c2[i] by {
                assert(k1[5 + i] == c1[i]);
                assert(k2[5 + i] == c2[i]);
            }
            assert(c1 =~= c2);
            assert forall|i: int| 0 <= i < d1.len() implies d1[i] == d2[i] by {
                assert(k1[6 + c1.len() + i] == d1[i]);
                assert(k2[6 + c2.len() + i] == d2[i]);
            }
            assert(d1 =~= d2);
            lemma_decimal_injective(w1, w2);
        }
    }
}

/// Every second of the window `k` has the index `k`: the seconds from
/// `k * window_secs` up to, and without, `(k + 1) * window_secs`.
pub proof fn lemma_window_index(limits: RateLimitConfig, now_secs: u64, k: nat)
    requires
        limits.wf(),
    ensures
        limits.window_index(now_secs) == k <==> k * limits.window_secs <= now_secs < (k + 1)
            * limits.window_secs,
{
    let w = limits.window_secs as int;
    let t = now_secs as int;
    let q = t / w;
    assert(t == w * q + t % w && 0 <= t % w < w) by (nonlinear_arith)
        requires
            w > 0,
            q == t / w,
    ;
    assert((k * w <= t < (k + 1) * w) <==> q == k) by (nonlinear_arith)
        requires
            w > 0,
            t == w * q + t % w,
            0 <= t % w < w,
            k >= 0,
    ;
}

/// The keys of one client at two moments are the same if and only if the
/// moments fall into the same window, and the keys of two clients differ at
/// every pair of moments.
pub proof fn lemma_key_per_window(
    limits: RateLimitConfig,
    ip1: Seq<char>,
    t1: u64,
    ip2: Seq<char>,
    t2: u64,
)
    requires
        limits.wf(),
    ensures
        key_text(ip1, limits.window_index(t1)) == key_text(ip2, limits.window_index(t2)) <==> ip1
            == ip2 && t1 / limits.window_secs == t2 / limits.window_secs,
{
    lemma_key_injective(ip1, limits.window_index(t1), ip2, limits.window_index(t2));
}

/// A count that was written is read back as it was.
pub proof fn lemma_count_round_trip(count: u32)
    ensures
        stored_count(Some(decimal(count as nat))) == count,
{
    lemma_decimal_digits(count as nat);
    lemma_decimal_round_trip(count as nat);
    let d = decimal(count as nat);
    assert(d[0] != '+');
}

/// With a store that keeps what it is given, a request never lowers the count
/// under its key, and raises it by one at most.
pub proof fn lemma_count_monotone(limits: RateLimitConfig, requests: nat)
    ensures
        stored_count(limits.stored_after(requests)) <= stored_count(
            limits.stored_after(requests + 1),
        ) <= stored_count(limits.stored_after(requests)) + 1,
{
    lemma_quota(limits, requests);
    lemma_quota(limits, requests + 1);
}

/// With a store that keeps what it is given, the count under a key after
/// `requests` requests in one window is the number of requests, capped at the
/// limit; so the next request is allowed if and only if fewer than the limit
/// came before it.
pub proof fn lemma_quota(limits: RateLimitConfig, requests: nat)
    ensures
        stored_count(limits.stored_after(requests)) == if requests <= limits.max_per_window {
            requests
        } else {
            limits.max_per_window as nat
        },
        limits.decision(stored_count(limits.stored_after(requests))).allowed <==> requests
            < limits.max_per_window,
        !limits.decision(stored_count(limits.stored_after(requests))).allowed ==> limits.decision(
            stored_count(limits.stored_after(requests)),
        ).retry_after_secs == limits.window_secs,
    decreases requests,
{
    if requests > 0 {
        lemma_quota(limits, (requests - 1) as nat);
        let before = limits.stored_after((requests - 1) as nat);
        if limits.decision(stored_count(before)).allowed {
            lemma_count_round_trip((stored_count(before) + 1) as u32);
        }
    }
}

} // verus!
