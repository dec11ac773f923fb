//! Origin checking and per-client rate limiting for the identify endpoint.

use std::collections::HashMap;
use std::time::Instant;
use vstd::prelude::*;
use crate::text::{before_first_of, has_prefix, split_first_of, starts_with, trim, trimmed};

verus! {

broadcast use vstd::std_specs::hash::group_hash_axioms;

/// The only site allowed to submit identification requests.
pub const ALLOWED_ORIGIN: &'static str = "https://songhunter.wired.rs";

/// The characters of `ALLOWED_ORIGIN`.
pub open spec fn allowed_origin() -> Seq<char> {
    seq![
        'h', 't', 't', 'p', 's', ':', '/', '/', 's', 'o', 'n', 'g', 'h', 'u', 'n', 't', 'e', 'r',
        '.', 'w', 'i', 'r', 'e', 'd', '.', 'r', 's',
    ]
}

#[verifier::external_type_specification]
#[verifier::external_body]
pub struct ExInstant(Instant);

/// `Instant::now`: a reading of the monotonic clock; nothing is stated of it.
#[verifier::external_body]
fn instant_now() -> Instant {
    Instant::now()
}

/// `Instant::elapsed`, in nanoseconds (`Duration::as_nanos`): it depends on
/// the clock, so nothing is stated of it.
#[verifier::external_body]
fn nanos_since(origin: &Instant) -> u128 {
    origin.elapsed().as_nanos()
}

/// A time `t` is still inside the window of length `window` that ends at `now`
/// (`t > now - window`, where a window reaching before the clock's start
/// holds every time).
pub open spec fn in_window(t: u128, now: u128, window: u128) -> bool {
    now < window || t > now - window
}

/// The times of `ts` that are still inside the window ending at `now`, in order.
pub open spec fn recent(ts: Seq<u128>, now: u128, window: u128) -> Seq<u128>
    decreases ts.len(),
{
    if ts.len() == 0 {
        ts
    } else if in_window(ts.last(), now, window) {
        recent(ts.drop_last(), now, window).push(ts.last())
    } else {
        recent(ts.drop_last(), now, window)
    }
}

/// In-memory sliding-window rate limiter, keyed by a hash of the client's address.
pub struct RateLimiter {
    hits: HashMap<u64, Vec<u128>>,
    max_requests: u32,
    window: u128,
    origin: Instant,
    latest: u128,
}

impl RateLimiter {
    /// The times (nanoseconds since the limiter was made) of the requests of
    /// `client` that were let through and not yet dropped.
    pub closed spec fn history(self, client: u64) -> Seq<u128> {
        if self.hits@.contains_key(client) {
            self.hits@[client]@
        } else {
            Seq::empty()
        }
    }

    /// How many requests a client may make within one window.
    pub closed spec fn allowed_per_window(self) -> u32 {
        self.max_requests
    }

    /// The length of the window, in nanoseconds.
    pub closed spec fn window_length(self) -> u128 {
        self.window
    }

    /// The time of the latest clock reading of `check` (0 before any).
    pub closed spec fn last_time(self) -> u128 {
        self.latest
    }

    /// No client's history is longer than the limit.
    pub open spec fn bounded(self) -> bool {
        forall|c: u64| #[trigger] self.history(c).len() <= self.allowed_per_window()
    }

    /// What one check of `client` at time `now` does: the request is let
    /// through exactly when fewer than the limit of that client's requests
    /// lie inside the window; the client's history keeps only those, plus
    /// `now` when the request is let through; nothing else changes.
    pub open spec fn checked(before: Self, after: Self, client: u64, now: u128, allowed: bool) -> bool {
        let kept = recent(before.history(client), now, before.window_length());
        &&& allowed == (kept.len() < before.allowed_per_window())
        &&& after.history(client) == (if allowed {
            kept.push(now)
        } else {
            kept
        })
        &&& forall|c: u64| c != client ==> #[trigger] after.history(c) == before.history(c)
        &&& after.allowed_per_window() == before.allowed_per_window()
        &&& after.window_length() == before.window_length()
    }

    /// A limiter that lets `max_requests` requests of each client through
    /// per window of `window_secs` seconds.
    pub fn new(max_requests: u32, window_secs: u64) -> (r: Self)
        ensures
            forall|c: u64| #[trigger] r.history(c) == Seq::<u128>::empty(),
            r.allowed_per_window() == max_requests,
            r.window_length() == window_secs * 1_000_000_000,
            r.last_time() == 0,
            r.bounded(),
    {
        RateLimiter {
            hits: HashMap::new(),
            max_requests,
            window: (window_secs as u128) * 1_000_000_000,
            origin: instant_now(),
            latest: 0,
        }
    }

    /// Records a request of `client` made at `now` (nanoseconds since the
    /// limiter was made) and says whether it may go through.
    pub fn check_at(&mut self, client: u64, now: u128) -> (allowed: bool)
        ensures
            Self::checked(*old(self), *final(self), client, now, allowed),
            final(self).last_time() == old(self).last_time(),
    {
        let ghost before = *self;
        let previous = match self.hits.remove(&client) {
            Some(v) => v,
            None => Vec::new(),
        };
        let ghost prev_view = previous@;
        assert(prev_view == before.history(client));
        let mut kept: Vec<u128> = Vec::new();
        let mut i: usize = 0;
        while i < previous.len()
            invariant
                i <= previous@.len(),
                previous@ == prev_view,
                kept@ == recent(prev_view.take(i as int), now, self.window),
            decreases previous@.len() - i,
        {
            let t = previous[i];
            assert(prev_view.take(i + 1).drop_last() =~= prev_view.take(i as int));
            if now < self.window || t > now - self.window {
                kept.push(t);
            }
            i = i + 1;
        }
        assert(prev_view.take(prev_view.len() as int) =~= prev_view);
        if kept.len() >= self.max_requests as usize {
            self.hits.insert(client, kept);
            return false;
        }
        kept.push(now);
        self.hits.insert(client, kept);
        true
    }

    /// Records a request of `client` whose clock reading is `reading`
    /// (nanoseconds since the limiter was made): the time recorded is the
    /// reading, or the latest reading if that is later.
    pub fn check_now(&mut self, client: u64, reading: u128) -> (allowed: bool)
        ensures
            Self::checked(
                *old(self),
                *final(self),
                client,
                if reading > old(self).last_time() {
                    reading
                } else {
                    old(self).last_time()
                },
                allowed,
            ),
            final(self).last_time() == if reading > old(self).last_time() {
                reading
            } else {
                old(self).last_time()
            },
    {
        let now = if reading > self.latest {
            reading
        } else {
            self.latest
        };
        let ghost before = *self;
        let allowed = self.check_at(client, now);
        let ghost mid = *self;
        self.latest = now;
        proof {
            assert forall|c: u64| #[trigger] self.history(c) == mid.history(c) by {}
            assert(Self::checked(before, *self, client, now, allowed));
        }
        allowed
    }

    /// Records a request of `client` made now and says whether it may go
    /// through. The time is read from the monotonic clock, and is never
    /// taken earlier than the latest reading (the clock does not go back,
    /// and the limiter holds it to that).
    pub fn check(&mut self, client: u64) -> (allowed: bool)
        ensures
            exists|now: u128|
                {
                    &&& now >= old(self).last_time()
                    &&& Self::checked(*old(self), *final(self), client, now, allowed)
                    &&& final(self).last_time() == now
                },
    {
        let reading = nanos_since(&self.origin);
        self.check_now(client, reading)
    }
}

proof fn lemma_recent_len(ts: Seq<u128>, now: u128, window: u128)
    ensures
        recent(ts, now, window).len() <= ts.len(),
    decreases ts.len(),
{
    if ts.len() > 0 {
        lemma_recent_len(ts.drop_last(), now, window);
    }
}

/// A client never has more requests on record than the limit: a fresh
/// limiter is bounded, and every check keeps it so.
pub proof fn law_limiter_stays_bounded(
    before: RateLimiter,
    after: RateLimiter,
    client: u64,
    now: u128,
    allowed: bool,
)
    requires
        before.bounded(),
        RateLimiter::checked(before, after, client, now, allowed),
    ensures
        after.bounded(),
{
    assert forall|c: u64| #[trigger] after.history(c).len() <= after.allowed_per_window() by {
        if c == client {
            lemma_recent_len(before.history(client), now, before.window_length());
        }
    }
}

/// The times of the let-through requests of `client` in a sequence of
/// checks `(client, time, let through)`, in order.
pub open spec fn accepted_times(checks: Seq<(u64, u128, bool)>, client: u64) -> Seq<u128>
    decreases checks.len(),
{
    if checks.len() == 0 {
        Seq::empty()
    } else if checks.last().0 == client && checks.last().2 {
        accepted_times(checks.drop_last(), client).push(checks.last().1)
    } else {
        accepted_times(checks.drop_last(), client)
    }
}

/// The time of the last check of `client`, or 0 if there is none.
pub open spec fn last_check_time(checks: Seq<(u64, u128, bool)>, client: u64) -> u128
    decreases checks.len(),
{
    if checks.len() == 0 {
        0
    } else if checks.last().0 == client {
        checks.last().1
    } else {
        last_check_time(checks.drop_last(), client)
    }
}

/// `states` are the successive states of a limiter going through `checks`.
pub open spec fn is_run(states: Seq<RateLimiter>, checks: Seq<(u64, u128, bool)>) -> bool {
    &&& states.len() == checks.len() + 1
    &&& forall|i: int|
        0 <= i < checks.len() ==> RateLimiter::checked(
            #[trigger] states[i],
            states[i + 1],
            checks[i].0,
            checks[i].1,
            checks[i].2,
        )
}

proof fn lemma_recent_of_recent(a: Seq<u128>, earlier: u128, now: u128, window: u128)
    requires
        earlier <= now,
    ensures
        recent(recent(a, earlier, window), now, window) == recent(a, now, window),
    decreases a.len(),
{
    if a.len() > 0 {
        lemma_recent_of_recent(a.drop_last(), earlier, now, window);
        let x = a.last();
        if in_window(x, earlier, window) {
            assert(recent(a, earlier, window).drop_last() == recent(a.drop_last(), earlier, window));
        }
    }
}

proof fn lemma_run_history(
    states: Seq<RateLimiter>,
    checks: Seq<(u64, u128, bool)>,
    j: int,
)
    requires
        is_run(states, checks),
        0 <= j <= checks.len(),
        forall|c: u64| #[trigger] states[0].history(c) == Seq::<u128>::empty(),
        states[0].bounded(),
        states[0].window_length() > 0,
        forall|a: int, b: int| 0 <= a < b < checks.len() ==> checks[a].1 <= checks[b].1,
    ensures
        states[j].bounded(),
        states[j].window_length() == states[0].window_length(),
        states[j].allowed_per_window() == states[0].allowed_per_window(),
        forall|c: u64|
            #[trigger] states[j].history(c) == recent(
                accepted_times(checks.take(j), c),
                last_check_time(checks.take(j), c),
                states[0].window_length(),
            ),
    decreases j,
{
    let w = states[0].window_length();
    if j == 0 {
        assert forall|c: u64| #[trigger] states[j].history(c) == recent(
            accepted_times(checks.take(j), c),
            last_check_time(checks.take(j), c),
            w,
        ) by {
            assert(accepted_times(checks.take(0), c) == Seq::<u128>::empty());
        }
    } else {
        let i = j - 1;
        lemma_run_history(states, checks, i);
        let (c0, t, a) = checks[i];
        assert(RateLimiter::checked(states[i], states[j], c0, t, a));
        law_limiter_stays_bounded(states[i], states[j], c0, t, a);
        let pre = checks.take(i);
        assert(checks.take(j).drop_last() =~= pre);
        assert(checks.take(j).last() == checks[i]);
        assert forall|c: u64| #[trigger] states[j].history(c) == recent(
            accepted_times(checks.take(j), c),
            last_check_time(checks.take(j), c),
            w,
        ) by {
            if c == c0 {
                let acc = accepted_times(pre, c);
                let last = last_check_time(pre, c);
                assert(states[i].history(c) == recent(acc, last, w));
                if acc.len() > 0 {
                    assert(last <= t) by {
                        lemma_last_check_before(pre, c, checks, i, i);
                    }
                    lemma_recent_of_recent(acc, last, t, w);
                } else {
                    assert(acc =~= Seq::<u128>::empty());
                }
                assert(recent(states[i].history(c), t, w) == recent(acc, t, w));
                assert(last_check_time(checks.take(j), c) == t);
                if a {
                    assert(accepted_times(checks.take(j), c) == acc.push(t));
                    assert(in_window(t, t, w));
                    assert(acc.push(t).drop_last() =~= acc);
                    assert(recent(acc.push(t), t, w) == recent(acc, t, w).push(t));
                } else {
                    assert(accepted_times(checks.take(j), c) == acc);
                }
            } else {
                assert(states[j].history(c) == states[i].history(c));
            }
        }
    }
}

proof fn lemma_last_check_before(
    pre: Seq<(u64, u128, bool)>,
    c: u64,
    checks: Seq<(u64, u128, bool)>,
    m: int,
    i: int,
)
    requires
        0 <= m <= i < checks.len(),
        pre == checks.take(m),
        accepted_times(pre, c).len() > 0,
        forall|a: int, b: int| 0 <= a < b < checks.len() ==> checks[a].1 <= checks[b].1,
    ensures
        last_check_time(pre, c) <= checks[i].1,
    decreases m,
{
    if m > 0 {
        assert(pre.last() == checks[m - 1]);
        if pre.last().0 != c {
            assert(pre.drop_last() =~= checks.take(m - 1));
            lemma_last_check_before(pre.drop_last(), c, checks, m - 1, i);
        }
    }
}

/// The sliding window holds: starting from a fresh limiter, and with the
/// clock never going back, at every check the let-through requests of the
/// checked client whose times lie in the window ending at that check number
/// at most the limit.
pub proof fn law_at_most_limit_per_window(states: Seq<RateLimiter>, checks: Seq<(u64, u128, bool)>)
    requires
        is_run(states, checks),
        forall|c: u64| #[trigger] states[0].history(c) == Seq::<u128>::empty(),
        forall|a: int, b: int| 0 <= a < b < checks.len() ==> checks[a].1 <= checks[b].1,
    ensures
        forall|i: int|
            0 <= i < checks.len() ==> recent(
                accepted_times(#[trigger] checks.take(i + 1), checks[i].0),
                checks[i].1,
                states[0].window_length(),
            ).len() <= states[0].allowed_per_window(),
{
    let w = states[0].window_length();
    assert(states[0].bounded());
    assert forall|i: int| 0 <= i < checks.len() implies recent(
        accepted_times(#[trigger] checks.take(i + 1), checks[i].0),
        checks[i].1,
        w,
    ).len() <= states[0].allowed_per_window() by {
        let c = checks[i].0;
        let t = checks[i].1;
        if w == 0 {
            assert forall|k: int| 0 <= k < i + 1 implies checks[k].1 <= t by {
                if k < i {
                    assert(checks[k].1 <= checks[i].1);
                }
            }
            lemma_nothing_recent_without_window(checks, i + 1, c, t);
        } else {
            lemma_run_history(states, checks, i + 1);
            assert(checks.take(i + 1).last() == checks[i]);
            assert(last_check_time(checks.take(i + 1), c) == t);
            assert(states[i + 1].history(c).len() <= states[i + 1].allowed_per_window());
        }
    }
}

proof fn lemma_nothing_recent_without_window(
    checks: Seq<(u64, u128, bool)>,
    n: int,
    c: u64,
    t: u128,
)
    requires
        0 <= n <= checks.len(),
        forall|k: int| 0 <= k < n ==> checks[k].1 <= t,
    ensures
        recent(accepted_times(checks.take(n), c), t, 0) == Seq::<u128>::empty(),
    decreases n,
{
    if n > 0 {
        let pre = checks.take(n - 1);
        assert(checks.take(n).drop_last() =~= pre);
        assert(checks.take(n).last() == checks[n - 1]);
        lemma_nothing_recent_without_window(checks, n - 1, c, t);
        let acc = accepted_times(pre, c);
        if checks[n - 1].0 == c && checks[n - 1].2 {
            assert(!in_window(checks[n - 1].1, t, 0));
            assert(acc.push(checks[n - 1].1).drop_last() =~= acc);
            assert(accepted_times(checks.take(n), c) == acc.push(checks[n - 1].1));
        } else {
            assert(accepted_times(checks.take(n), c) == acc);
        }
    }
}

/// Whether a request to the identify endpoint comes from the allowed site:
/// its `Origin` is the site, or its `Referer` is the site or a page of it.
pub open spec fn origin_is_allowed(origin: Option<Seq<char>>, referer: Option<Seq<char>>) -> bool {
    ||| origin == Some(allowed_origin())
    ||| match referer {
        Some(r) => r == allowed_origin() || has_prefix(r, allowed_origin().push('/')),
        None => false,
    }
}

/// `origin_is_allowed`, computed.
pub fn check_origin(origin: Option<&str>, referer: Option<&str>) -> (ok: bool)
    ensures
        ok == origin_is_allowed(
            match origin {
                Some(o) => Some(o@),
                None => None,
            },
            match referer {
                Some(r) => Some(r@),
                None => None,
            },
        ),
{
    proof {
        reveal_strlit("https://songhunter.wired.rs");
        reveal_strlit("https://songhunter.wired.rs/");
    }
    let site = String::from_str(ALLOWED_ORIGIN);
    assert(site@ =~= allowed_origin());
    let site_page = String::from_str("https://songhunter.wired.rs/");
    assert(site_page@ =~= allowed_origin().push('/'));
    let origin_ok = match origin {
        Some(o) => String::from_str(o) == site,
        None => false,
    };
    if origin_ok {
        return true;
    }
    match referer {
        Some(r) => String::from_str(r) == site || starts_with(r, site_page.as_str()),
        None => false,
    }
}

/// What the guard does with a request.
#[derive(Debug, Clone, Copy, PartialEq, Eq, Structural)]
pub enum GuardDecision {
    /// Hand the request on.
    Forward,
    /// Refuse with 403: it does not come from the allowed site.
    Forbidden,
    /// Refuse with 429: the client has used up its window.
    TooManyRequests,
}

/// The request is a `POST` to the identify endpoint.
pub open spec fn is_identify_post(is_post: bool, path: Seq<char>) -> bool {
    is_post && path == seq![
        '/', 'a', 'p', 'i', '/', 'i', 'd', 'e', 'n', 't', 'i', 'f', 'y',
    ]
}

/// The guard of the API: a `POST /api/identify` that does not come from the
/// allowed site is forbidden; one whose client (when its address is known)
/// has used up its window is refused; everything else goes through.
pub fn guard_request(
    limiter: &mut RateLimiter,
    is_post: bool,
    path: &str,
    origin: Option<&str>,
    referer: Option<&str>,
    client: Option<u64>,
) -> (d: GuardDecision)
    ensures
        !is_identify_post(is_post, path@) ==> d == GuardDecision::Forward && *final(limiter)
            == *old(limiter),
        is_identify_post(is_post, path@) && !origin_is_allowed(
            match origin {
                Some(o) => Some(o@),
                None => None,
            },
            match referer {
                Some(r) => Some(r@),
                None => None,
            },
        ) ==> d == GuardDecision::Forbidden && *final(limiter) == *old(limiter),
        is_identify_post(is_post, path@) && origin_is_allowed(
            match origin {
                Some(o) => Some(o@),
                None => None,
            },
            match referer {
                Some(r) => Some(r@),
                None => None,
            },
        ) ==> match client {
            None => d == GuardDecision::Forward && *final(limiter) == *old(limiter),
            Some(c) => exists|now: u128, allowed: bool|
                RateLimiter::checked(*old(limiter), *final(limiter), c, now, allowed) && d == (
                if allowed {
                    GuardDecision::Forward
                } else {
                    GuardDecision::TooManyRequests
                }),
        },
{
    proof {
        reveal_strlit("/api/identify");
    }
    let identify_path = String::from_str("/api/identify");
    assert(identify_path@ =~= seq!['/', 'a', 'p', 'i', '/', 'i', 'd', 'e', 'n', 't', 'i', 'f', 'y']);
    if !(is_post && String::from_str(path) == identify_path) {
        return GuardDecision::Forward;
    }
    if !check_origin(origin, referer) {
        return GuardDecision::Forbidden;
    }
    match client {
        Some(c) => {
            if limiter.check(c) {
                GuardDecision::Forward
            } else {
                GuardDecision::TooManyRequests
            }
        },
        None => GuardDecision::Forward,
    }
}

/// The client's address as the proxy reports it: the `CF-Connecting-IP`
/// header if present, else the first entry of `X-Forwarded-For`, trimmed.
pub fn client_ip_text(cf_connecting_ip: Option<&str>, forwarded_for: Option<&str>) -> (r: Option<String>)
    ensures
        match cf_connecting_ip {
            Some(c) => r matches Some(s) && s@ == c@,
            None => match forwarded_for {
                Some(f) => r matches Some(s) && s@ == trimmed(before_first_of(f@, ',', ',')),
                None => r is None,
            },
        },
{
    match cf_connecting_ip {
        Some(c) => Some(String::from_str(c)),
        None => match forwarded_for {
            Some(f) => {
                let first = split_first_of(f, ',', ',');
                Some(trim(first.as_str()))
            },
            None => None,
        },
    }
}


/// `states` are the successive states of a limiter going through `checks`
/// made by `check`: each reads a time no earlier than the latest reading.
pub open spec fn is_clocked_run(states: Seq<RateLimiter>, checks: Seq<(u64, u128, bool)>) -> bool {
    &&& states.len() == checks.len() + 1
    &&& forall|i: int|
        0 <= i < checks.len() ==> {
            &&& checks[i].1 >= #[trigger] states[i].last_time()
            &&& RateLimiter::checked(states[i], states[i + 1], checks[i].0, checks[i].1, checks[i].2)
            &&& states[i + 1].last_time() == checks[i].1
        }
}

proof fn lemma_clocked_times_ordered(states: Seq<RateLimiter>, checks: Seq<(u64, u128, bool)>, a: int, b: int)
    requires
        is_clocked_run(states, checks),
        0 <= a < b < checks.len(),
    ensures
        checks[a].1 <= checks[b].1,
    decreases b - a,
{
    assert(checks[b - 1].1 >= states[b - 1].last_time());
    assert(checks[b].1 >= states[b].last_time());
    assert(states[b].last_time() == checks[b - 1].1);
    if a < b - 1 {
        lemma_clocked_times_ordered(states, checks, a, b - 1);
    }
}

/// The sliding window holds over the calls of `check`: on a fresh limiter,
/// whatever times the clock gives, they never go back, and at every call the
/// let-through requests of the calling client whose times lie in the window
/// ending at that call number at most the limit.
pub proof fn law_checks_keep_the_window(states: Seq<RateLimiter>, checks: Seq<(u64, u128, bool)>)
    requires
        is_clocked_run(states, checks),
        forall|c: u64| #[trigger] states[0].history(c) == Seq::<u128>::empty(),
    ensures
        forall|a: int, b: int| 0 <= a < b < checks.len() ==> checks[a].1 <= checks[b].1,
        forall|i: int|
            0 <= i < checks.len() ==> recent(
                accepted_times(#[trigger] checks.take(i + 1), checks[i].0),
                checks[i].1,
                states[0].window_length(),
            ).len() <= states[0].allowed_per_window(),
{
    assert forall|a: int, b: int| 0 <= a < b < checks.len() implies checks[a].1 <= checks[b].1 by {
        lemma_clocked_times_ordered(states, checks, a, b);
    }
    assert forall|i: int| 0 <= i < checks.len() implies RateLimiter::checked(
        #[trigger] states[i],
        states[i + 1],
        checks[i].0,
        checks[i].1,
        checks[i].2,
    ) by {
        assert(checks[i].1 >= states[i].last_time());
    }
    assert(is_run(states, checks));
    law_at_most_limit_per_window(states, checks);
}


proof fn lemma_recent_at_most(ts: Seq<u128>, now: u128, w: u128, t: u128)
    requires
        forall|k: int| 0 <= k < ts.len() ==> ts[k] <= t,
    ensures
        forall|k: int| 0 <= k < recent(ts, now, w).len() ==> recent(ts, now, w)[k] <= t,
        w == 0 && t <= now ==> recent(ts, now, w).len() == 0,
    decreases ts.len(),
{
    if ts.len() > 0 {
        let rest = ts.drop_last();
        assert(forall|k: int| 0 <= k < rest.len() ==> rest[k] == ts[k]);
        lemma_recent_at_most(rest, now, w, t);
        if in_window(ts.last(), now, w) {
            let r = recent(rest, now, w);
            assert(recent(ts, now, w) == r.push(ts.last()));
            assert forall|k: int| 0 <= k < r.push(ts.last()).len() implies r.push(ts.last())[k]
                <= t by {
                if k < r.len() {
                    assert(r.push(ts.last())[k] == r[k]);
                }
            }
        }
    }
}

proof fn lemma_history_at_most(states: Seq<RateLimiter>, checks: Seq<(u64, u128, bool)>, j: int)
    requires
        is_run(states, checks),
        forall|c: u64| #[trigger] states[0].history(c) == Seq::<u128>::empty(),
        forall|a: int, b: int| 0 <= a < b < checks.len() ==> checks[a].1 <= checks[b].1,
        1 <= j <= checks.len(),
    ensures
        forall|c: u64, k: int|
            0 <= k < states[j].history(c).len() ==> #[trigger] states[j].history(c)[k]
                <= checks[j - 1].1,
    decreases j,
{
    let i = j - 1;
    let (c0, t, a) = checks[i];
    assert(RateLimiter::checked(states[i], states[j], c0, t, a));
    if i > 0 {
        lemma_history_at_most(states, checks, i);
        assert(checks[i - 1].1 <= checks[i].1);
    }
    assert forall|c: u64, k: int|
        0 <= k < states[j].history(c).len() implies #[trigger] states[j].history(c)[k] <= t by {
        let h = states[i].history(c);
        assert(forall|m: int| 0 <= m < h.len() ==> h[m] <= t);
        if c == c0 {
            lemma_recent_at_most(h, t, states[i].window_length(), t);
        } else {
            assert(states[j].history(c) == h);
        }
    }
}

proof fn lemma_decided_by_accepted(states: Seq<RateLimiter>, checks: Seq<(u64, u128, bool)>, i: int)
    requires
        is_run(states, checks),
        forall|c: u64| #[trigger] states[0].history(c) == Seq::<u128>::empty(),
        forall|a: int, b: int| 0 <= a < b < checks.len() ==> checks[a].1 <= checks[b].1,
        0 <= i < checks.len(),
    ensures
        checks[i].2 == (recent(
            accepted_times(checks.take(i), checks[i].0),
            checks[i].1,
            states[0].window_length(),
        ).len() < states[0].allowed_per_window()),
{
    let w = states[0].window_length();
    assert(states[0].bounded());
    let (c, t, a) = checks[i];
    assert(RateLimiter::checked(states[i], states[i + 1], c, t, a));
    let acc = accepted_times(checks.take(i), c);
    let h = states[i].history(c);
    if w == 0 {
        assert forall|k: int| 0 <= k < i implies checks[k].1 <= t by {
            assert(checks[k].1 <= checks[i].1);
        }
        lemma_nothing_recent_without_window(checks, i, c, t);
        if i > 0 {
            lemma_history_at_most(states, checks, i);
            assert(checks[i - 1].1 <= t);
            assert(forall|m: int| 0 <= m < h.len() ==> h[m] <= t);
            lemma_recent_at_most(h, t, 0, t);
        } else {
            assert(h =~= Seq::<u128>::empty());
        }
        lemma_run_window_same(states, checks, i);
    } else {
        lemma_run_history(states, checks, i);
        let last = last_check_time(checks.take(i), c);
        assert(h == recent(acc, last, w));
        if acc.len() > 0 {
            lemma_last_check_before(checks.take(i), c, checks, i, i);
            lemma_recent_of_recent(acc, last, t, w);
        } else {
            assert(acc =~= Seq::<u128>::empty());
        }
    }
}

proof fn lemma_run_window_same(states: Seq<RateLimiter>, checks: Seq<(u64, u128, bool)>, j: int)
    requires
        is_run(states, checks),
        0 <= j <= checks.len(),
    ensures
        states[j].window_length() == states[0].window_length(),
        states[j].allowed_per_window() == states[0].allowed_per_window(),
    decreases j,
{
    if j > 0 {
        lemma_run_window_same(states, checks, j - 1);
        assert(RateLimiter::checked(
            states[j - 1],
            states[j],
            checks[j - 1].0,
            checks[j - 1].1,
            checks[j - 1].2,
        ));
    }
}

/// Only let-through requests count: a request is let through exactly when
/// fewer than the limit of the same client's earlier let-through requests
/// lie in the window ending at its time; refused requests are never counted.
pub proof fn law_refused_requests_never_count(states: Seq<RateLimiter>, checks: Seq<(u64, u128, bool)>)
    requires
        is_clocked_run(states, checks),
        forall|c: u64| #[trigger] states[0].history(c) == Seq::<u128>::empty(),
    ensures
        forall|i: int|
            0 <= i < checks.len() ==> checks[i].2 == (recent(
                accepted_times(#[trigger] checks.take(i), checks[i].0),
                checks[i].1,
                states[0].window_length(),
            ).len() < states[0].allowed_per_window()),
{
    law_checks_keep_the_window(states, checks);
    assert forall|i: int| 0 <= i < checks.len() implies RateLimiter::checked(
        #[trigger] states[i],
        states[i + 1],
        checks[i].0,
        checks[i].1,
        checks[i].2,
    ) by {
        assert(checks[i].1 >= states[i].last_time());
    }
    assert(is_run(states, checks));
    assert forall|i: int| 0 <= i < checks.len() implies checks[i].2 == (recent(
        accepted_times(#[trigger] checks.take(i), checks[i].0),
        checks[i].1,
        states[0].window_length(),
    ).len() < states[0].allowed_per_window()) by {
        lemma_decided_by_accepted(states, checks, i);
    }
}


proof fn lemma_nothing_recent(ts: Seq<u128>, now: u128, w: u128)
    requires
        forall|k: int| 0 <= k < ts.len() ==> ts[k] + w <= now,
    ensures
        recent(ts, now, w).len() == 0,
    decreases ts.len(),
{
    if ts.len() > 0 {
        let rest = ts.drop_last();
        assert(forall|k: int| 0 <= k < rest.len() ==> rest[k] == ts[k]);
        lemma_nothing_recent(rest, now, w);
        assert(!in_window(ts.last(), now, w));
    }
}

/// Requests leave the window: once every let-through request of a client
/// on record lies a full window or more before `now`, a check of that
/// client at `now` is let through (unless the limit is zero), and the
/// client's record is then just `now`.
pub proof fn law_window_slides(
    before: RateLimiter,
    after: RateLimiter,
    client: u64,
    now: u128,
    allowed: bool,
)
    requires
        RateLimiter::checked(before, after, client, now, allowed),
        before.allowed_per_window() > 0,
        forall|k: int|
            0 <= k < before.history(client).len() ==> #[trigger] before.history(client)[k]
                + before.window_length() <= now,
    ensures
        allowed,
        after.history(client) == seq![now],
{
    lemma_nothing_recent(before.history(client), now, before.window_length());
    let kept = recent(before.history(client), now, before.window_length());
    assert(kept =~= Seq::<u128>::empty());
    assert(kept.push(now) =~= seq![now]);
}

} // verus!
