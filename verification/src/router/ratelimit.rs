//! In-process rate limiting of the public endpoints: a fixed window per client address.
//!
//! It only guards against floods that would exhaust the database pool; finer limits
//! belong to a gateway. Time is a monotonic clock reading in milliseconds.
use vstd::prelude::*;
use dashmap::DashMap;
use crate::common::text::{chars_of, first_index_of, string_of, trim, trimmed};

verus! {

/// The window length: one minute.
pub const WINDOW_MS: u64 = 60_000;

/// The count of one client in its current window.
#[derive(Clone, Copy)]
pub struct Bucket {
    pub count: u32,
    pub window_start: u64,
}

/// The bucket after a request at `now`: a window that has run its length restarts at
/// `now` with a zero count, then the request is counted (saturating at `u32::MAX`).
pub open spec fn bucket_after(b: Option<Bucket>, now: u64, window: u64) -> Bucket {
    let start = match b {
        Some(x) => x,
        None => Bucket { count: 0, window_start: now },
    };
    let reset = (if now >= start.window_start { now - start.window_start } else { 0 }) >= window;
    let base = if reset { Bucket { count: 0, window_start: now } } else { start };
    Bucket {
        count: if base.count == u32::MAX { u32::MAX } else { (base.count + 1) as u32 },
        window_start: base.window_start,
    }
}

/// What a `DashMap` of buckets holds, by client address.
pub uninterp spec fn bucket_entries(m: DashMap<String, Bucket>) -> Map<Seq<char>, Bucket>;

/// `DashMap::new`: an empty map.
#[verifier::external_body]
fn buckets_new() -> (m: DashMap<String, Bucket>)
    ensures
        bucket_entries(m).dom() == Set::<Seq<char>>::empty(),
{
    DashMap::new()
}

/// `DashMap::get`, the bucket copied out: what the address holds, or `None`.
#[verifier::external_body]
fn buckets_get(m: &DashMap<String, Bucket>, ip: &str) -> (r: Option<Bucket>)
    ensures
        match r {
            Some(b) => bucket_entries(*m).contains_key(ip@) && bucket_entries(*m)[ip@] == b,
            None => !bucket_entries(*m).contains_key(ip@),
        },
{
    match m.get(ip) {
        Some(entry) => Some(*entry.value()),
        None => None,
    }
}

/// `DashMap::insert`: the address now holds the bucket, whatever it held before.
#[verifier::external_body]
fn buckets_insert(m: &mut DashMap<String, Bucket>, ip: String, b: Bucket)
    ensures
        bucket_entries(*final(m)) == bucket_entries(*old(m)).insert(ip@, b),
{
    m.insert(ip, b);
}

/// A fixed-window limiter keyed by client address.
pub struct RateLimiter {
    limit: u32,
    window_ms: u64,
    buckets: DashMap<String, Bucket>,
}

impl RateLimiter {
    /// The buckets by client address.
    pub closed spec fn buckets(&self) -> Map<Seq<char>, Bucket> {
        bucket_entries(self.buckets)
    }

    /// Requests allowed per window.
    pub closed spec fn limit(&self) -> u32 {
        self.limit
    }

    /// The window length.
    pub closed spec fn window(&self) -> u64 {
        self.window_ms
    }

    /// A limiter allowing `limit` requests per client per minute.
    pub fn new(limit: u32) -> (r: RateLimiter)
        ensures
            r.limit() == limit,
            r.window() == WINDOW_MS,
            r.buckets().dom() == Set::<Seq<char>>::empty(),
    {
        RateLimiter { limit, window_ms: WINDOW_MS, buckets: buckets_new() }
    }

    /// Whether a request from `ip` at `now` is allowed; an expired window is reset lazily.
    pub fn check(&mut self, ip: &str, now: u64) -> (allowed: bool)
        ensures
            final(self).limit() == old(self).limit(),
            final(self).window() == old(self).window(),
            final(self).buckets() == old(self).buckets().insert(
                ip@,
                bucket_after(
                    if old(self).buckets().contains_key(ip@) {
                        Some(old(self).buckets()[ip@])
                    } else {
                        None
                    },
                    now,
                    old(self).window(),
                ),
            ),
            allowed == (final(self).buckets()[ip@].count <= old(self).limit()),
    {
        let mut b = match buckets_get(&self.buckets, ip) {
            Some(x) => x,
            None => Bucket { count: 0, window_start: now },
        };
        if now.saturating_sub(b.window_start) >= self.window_ms {
            b.count = 0;
            b.window_start = now;
        }
        b.count = b.count.saturating_add(1);
        let allowed = b.count <= self.limit;
        buckets_insert(&mut self.buckets, crate::common::text::owned(ip), b);
        allowed
    }
}

/// Repeated requests at one instant from a fresh client, spec side: the bucket after
/// `n` requests.
pub open spec fn after_requests(n: nat, now: u64, window: u64) -> Bucket
    decreases n,
{
    if n == 0 {
        Bucket { count: 0, window_start: now }
    } else {
        bucket_after(Some(after_requests((n - 1) as nat, now, window)), now, window)
    }
}

/// Within one window a client gets exactly `limit` requests: after `n` requests at the
/// same instant the count is `n`, so the `n`-th request is allowed exactly when
/// `n <= limit`.
pub proof fn law_window_budget(n: nat, now: u64, window: u64)
    requires
        window > 0,
        n <= u32::MAX,
    ensures
        after_requests(n, now, window).count == n,
        after_requests(n, now, window).window_start == now,
    decreases n,
{
    if n > 0 {
        law_window_budget((n - 1) as nat, now, window);
    }
}

/// A request after the window has run its length starts a new window and is counted as
/// the first of it.
pub proof fn law_window_resets(b: Bucket, now: u64, window: u64)
    requires
        now >= b.window_start,
        now - b.window_start >= window,
    ensures
        bucket_after(Some(b), now, window).count == 1,
        bucket_after(Some(b), now, window).window_start == now,
{
}

/// A request inside a running window is counted in that window: the window keeps its
/// start, and the count grows by one (saturating). Only a request a full window after
/// the start opens a new one.
pub proof fn law_window_holds(b: Bucket, now: u64, window: u64)
    requires
        window > 0,
        now < b.window_start + window,
    ensures
        bucket_after(Some(b), now, window).window_start == b.window_start,
        b.count < u32::MAX ==> bucket_after(Some(b), now, window).count == b.count + 1,
        b.count == u32::MAX ==> bucket_after(Some(b), now, window).count == u32::MAX,
{
}

/// The buckets of a client after requests at `times`, the first from a fresh client.
pub open spec fn after_times(times: Seq<u64>, window: u64) -> Option<Bucket>
    decreases times.len(),
{
    if times.len() == 0 {
        None
    } else {
        Some(bucket_after(after_times(times.drop_last(), window), times.last(), window))
    }
}

/// Requests from a fresh client that all fall within one window of the first one are all
/// counted in the window the first one opened: after `n` of them the count is `n`, so the
/// `n`-th is allowed exactly when `n` is within the limit.
pub proof fn law_one_window_counts_every_request(times: Seq<u64>, window: u64)
    requires
        times.len() > 0,
        times.len() <= u32::MAX,
        forall|i: int| 0 <= i < times.len() ==> times[0] <= #[trigger] times[i] && times[i] < times[0]
            + window,
    ensures
        after_times(times, window) == Some(Bucket { count: times.len() as u32, window_start: times[0] }),
    decreases times.len(),
{
    if times.len() > 1 {
        let init = times.drop_last();
        assert forall|i: int| 0 <= i < init.len() implies init[0] <= #[trigger] init[i] && init[i]
            < init[0] + window by {
            assert(init[i] == times[i]);
        }
        law_one_window_counts_every_request(init, window);
        let prev = Bucket { count: init.len() as u32, window_start: times[0] };
        assert(init[0] == times[0]);
        assert(times[0] <= times.last() && times.last() < times[0] + window);
        law_window_holds(prev, times.last(), window);
        assert(prev.count < u32::MAX);
    } else {
        assert(times.drop_last().len() == 0);
        assert(after_times(times.drop_last(), window) is None);
        assert(times.last() == times[0]);
    }
}

/// The client address an `X-Forwarded-For` value names: its first comma-separated entry,
/// trimmed (the header is only trusted as far as a spoofer merely escapes its own limit).
pub open spec fn forwarded_first(value: Seq<char>) -> Seq<char> {
    trimmed(value.take(first_index_of(value, ',')))
}

/// The first entry of an `X-Forwarded-For` value, trimmed.
pub fn forwarded_client(value: &str) -> (out: String)
    ensures
        out@ == forwarded_first(value@),
{
    let chars = chars_of(value);
    let mut i: usize = 0;
    while i < chars.len() && chars[i] != ','
        invariant
            i <= chars@.len(),
            forall|j: int| 0 <= j < i ==> chars@[j] != ',',
        decreases chars@.len() - i,
    {
        i += 1;
    }
    proof {
        crate::common::text::lemma_first_index(value@, ',', i as int);
    }
    let head = string_of(&chars, 0, i);
    assert(head@ =~= value@.take(first_index_of(value@, ',')));
    trim(head.as_str())
}

/// The address a request is counted under: with a trusted proxy the forwarded address
/// comes first, otherwise the TCP peer; the other one only when the first is missing.
/// `peer` is the TCP peer's address, `forwarded` the first `X-Forwarded-For` entry when it
/// is an address.
pub fn client_address(trust_forwarded: bool, peer: Option<String>, forwarded: Option<String>) -> (r: Option<String>)
    ensures
        r == (if trust_forwarded {
            if forwarded is Some {
                forwarded
            } else {
                peer
            }
        } else {
            if peer is Some {
                peer
            } else {
                forwarded
            }
        }),
{
    if trust_forwarded {
        match forwarded {
            Some(f) => Some(f),
            None => peer,
        }
    } else {
        match peer {
            Some(p) => Some(p),
            None => forwarded,
        }
    }
}

} // verus!
