//! The decisions of the load workers: when a worker stops, which request
//! number it takes and whether that request is a warm-up, what request it
//! sends, whether a failed attempt is retried, and how the outcome is
//! counted. The program around the library runs the workers, waits on the
//! rate limiter and performs the requests.
use vstd::prelude::*;
use crate::cli::{is_token, method_named, parse_method};
use crate::config::Config;
use crate::dataset::{DataSet, SelectMode, join_url, template_renders};
use crate::limiter::TokenBucket;
use crate::stats::{
    Stats, bump, details_after, latencies_after, wrap_add,
};

verus! {

/// Why a run cannot start.
#[derive(Debug, Clone, Copy, PartialEq, Eq, Structural)]
pub enum RunError {
    /// Neither a request count nor a duration bounds the run.
    NoStopCondition,
}

/// A run must be bounded by a number of requests or by a duration.
pub fn check_stop_condition(requests: Option<u64>, time_secs: Option<u64>) -> (r: Result<(), RunError>)
    ensures
        r is Err <==> requests is None && time_secs is None,
        r is Err ==> r == Err::<(), RunError>(RunError::NoStopCondition),
{
    if requests.is_none() && time_secs.is_none() {
        Err(RunError::NoStopCondition)
    } else {
        Ok(())
    }
}

/// The rate limiter of a run: one for a positive rate, none otherwise.
pub fn limiter_for(rate: Option<u64>) -> (r: Option<TokenBucket>)
    ensures
        match rate {
            Some(q) if q > 0 => r matches Some(b) && b@.rate == q && b@.tokens == b@.capacity && b@.last == 0,
            _ => r is None,
        },
{
    match rate {
        Some(q) => if q > 0 {
            Some(TokenBucket::new(q))
        } else {
            None
        },
        None => None,
    }
}

/// A request number handed to a worker.
#[derive(Debug, Clone, Copy, PartialEq, Eq, Structural)]
pub struct Dispatch {
    /// Sequence number over the whole run, warm-up included.
    pub seq: u64,
    /// A warm-up request is sent but not measured.
    pub warmup: bool,
}

/// Shared dispatch state of the workers of a run.
pub struct Dispatcher {
    /// Number of measured requests wanted, if bounded.
    pub requests: Option<u64>,
    /// Clock reading (ns since the start of the run) at which the run ends, if bounded.
    pub deadline_ns: Option<u64>,
    /// Number of warm-up requests.
    pub warmup: u64,
    /// Requests handed out so far, warm-up included.
    pub dispatched: u64,
    /// Measured requests handed out so far.
    pub measured: u64,
}

/// `a - b`, or 0 when `b` is larger.
pub open spec fn minus(a: nat, b: nat) -> nat {
    if a >= b {
        (a - b) as nat
    } else {
        0
    }
}

/// One call of `Dispatcher::next` at clock reading `now_ns`.
pub open spec fn dispatch_step(d: Dispatcher, now_ns: u64) -> (Dispatcher, Option<Dispatch>) {
    if d.time_is_up(now_ns) || d.count_is_reached() {
        (d, None)
    } else {
        let warmup = d.dispatched < d.warmup;
        (
            Dispatcher {
                dispatched: (d.dispatched + 1) as u64,
                measured: if warmup {
                    d.measured
                } else {
                    (d.measured + 1) as u64
                },
                ..d
            },
            Some(Dispatch { seq: d.dispatched, warmup }),
        )
    }
}

/// `k` calls of `Dispatcher::next` at clock readings before any deadline:
/// the final state and the number of requests handed out.
pub open spec fn dispatch_calls(d: Dispatcher, k: nat) -> (Dispatcher, nat)
    decreases k,
{
    if k == 0 {
        (d, 0)
    } else {
        let (d1, r) = dispatch_step(d, 0);
        let (dk, n) = dispatch_calls(d1, (k - 1) as nat);
        (dk, n + if r is Some {
            1nat
        } else {
            0nat
        })
    }
}

/// Exact request count: a run bounded by `n` measured requests after `w`
/// warm-up requests (and not by time) hands out exactly `w + n` requests,
/// however many times the workers ask: after `k` requests for work, `min(k,
/// w + n)` were handed out, of which all but the `w` warm-up ones are
/// measured.
pub proof fn lemma_exact_request_count(n: u64, w: u64, k: nat)
    requires
        n > 0,
        w + n < u64::MAX,
    ensures
        ({
            let d0 = Dispatcher { requests: Some(n), deadline_ns: None, warmup: w, dispatched: 0, measured: 0 };
            let (dk, handed) = dispatch_calls(d0, k);
            &&& handed == if k <= w + n { k } else { (w + n) as nat }
            &&& dk.dispatched == handed
            &&& dk.measured == minus(handed, w as nat)
        }),
{
    lemma_dispatch_calls(Dispatcher { requests: Some(n), deadline_ns: None, warmup: w, dispatched: 0, measured: 0 }, k);
}

proof fn lemma_dispatch_calls(d: Dispatcher, k: nat)
    requires
        d.deadline_ns is None,
        d.requests is Some,
        d.wf(),
        d.warmup + d.requests->Some_0 < u64::MAX,
        d.requests->Some_0 > 0,
    ensures
        ({
            let total = (d.warmup + d.requests->Some_0) as nat;
            let (dk, handed) = dispatch_calls(d, k);
            &&& handed == if d.dispatched + k <= total { k } else { minus(total, d.dispatched as nat) }
            &&& dk.dispatched == d.dispatched + handed
            &&& dk.measured == minus(dk.dispatched as nat, d.warmup as nat)
            &&& dk.wf()
            &&& dk.requests == d.requests
            &&& dk.deadline_ns is None
            &&& dk.warmup == d.warmup
        }),
    decreases k,
{
    let total = (d.warmup + d.requests->Some_0) as nat;
    assert(d.dispatched <= total);
    if k > 0 {
        let (d1, r) = dispatch_step(d, 0);
        if d.dispatched < total {
            assert(d.measured < d.requests->Some_0);
            assert(r is Some);
            assert(d1.dispatched == d.dispatched + 1);
        } else {
            assert(d.count_is_reached());
            assert(r is None);
        }
        lemma_dispatch_calls(d1, (k - 1) as nat);
    }
}

impl Dispatcher {
    /// Consistent counts: the measured requests are those dispatched after
    /// the warm-up, and never more than the requests wanted.
    pub open spec fn wf(self) -> bool {
        &&& self.measured == minus(self.dispatched as nat, self.warmup as nat)
        &&& self.requests matches Some(n) ==> self.measured <= n
    }

    /// The run has reached its duration at clock reading `now_ns`.
    pub open spec fn time_is_up(self, now_ns: u64) -> bool {
        self.deadline_ns matches Some(d) && now_ns >= d
    }

    /// The run has handed out all the measured requests it wants.
    pub open spec fn count_is_reached(self) -> bool {
        self.requests matches Some(n) && self.measured >= n
    }

    /// The dispatch state at the start of a run bounded by `requests`
    /// measured requests and/or `time_secs` seconds (the deadline saturates
    /// at the largest clock reading).
    pub fn new(requests: Option<u64>, time_secs: Option<u64>, warmup: u64) -> (r: Dispatcher)
        ensures
            r.wf(),
            r.requests == requests,
            r.warmup == warmup,
            r.dispatched == 0,
            r.measured == 0,
            match time_secs {
                Some(s) => r.deadline_ns == Some(
                    if s * 1_000_000_000 <= u64::MAX { (s * 1_000_000_000) as u64 } else { u64::MAX },
                ),
                None => r.deadline_ns is None,
            },
    {
        let deadline_ns = match time_secs {
            Some(s) => Some(
                if s <= u64::MAX / 1_000_000_000u64 {
                    s * 1_000_000_000u64
                } else {
                    u64::MAX
                },
            ),
            None => None,
        };
        Dispatcher { requests, deadline_ns, warmup, dispatched: 0, measured: 0 }
    }

    /// The next request for a worker at clock reading `now_ns`, or `None`
    /// when the run is over: its duration is up or all the measured
    /// requests it wants are handed out. The first `warmup` requests are
    /// warm-up requests.
    pub fn next(&mut self, now_ns: u64) -> (r: Option<Dispatch>)
        requires
            old(self).wf(),
            old(self).dispatched < u64::MAX,
        ensures
            (*final(self), r) == dispatch_step(*old(self), now_ns),
            r is None <==> old(self).time_is_up(now_ns) || old(self).count_is_reached(),
            r is None ==> *final(self) == *old(self),
            r matches Some(d) ==> {
                &&& d.seq == old(self).dispatched
                &&& d.warmup == (d.seq < old(self).warmup)
                &&& final(self).dispatched == old(self).dispatched + 1
                &&& final(self).measured == old(self).measured + if d.warmup {
                    0int
                } else {
                    1int
                }
                &&& final(self).requests == old(self).requests
                &&& final(self).deadline_ns == old(self).deadline_ns
                &&& final(self).warmup == old(self).warmup
            },
            final(self).wf(),
            r is None && !old(self).time_is_up(now_ns) ==> (final(self).requests matches Some(n)
                && final(self).measured == n),
    {
        if let Some(d) = self.deadline_ns {
            if now_ns >= d {
                return None;
            }
        }
        if let Some(n) = self.requests {
            if self.measured >= n {
                return None;
            }
        }
        let seq = self.dispatched;
        let warmup = seq < self.warmup;
        self.dispatched = seq + 1;
        if !warmup {
            self.measured = self.measured + 1;
        }
        Some(Dispatch { seq, warmup })
    }
}

// ---------------------------------------------------------------------------
// Requests and their outcomes
// ---------------------------------------------------------------------------

/// A request ready to be sent.
pub struct PlannedRequest {
    pub url: String,
    pub method: reqwest::Method,
    pub headers: Vec<(String, String)>,
    pub body: Option<String>,
}

/// The request a worker sends for request number `seq`: from a template of
/// the data set (picked by `mode` and rendered against the target URL) when
/// there is one, else the configured URL, method, headers and body. `None`
/// when its method is not a valid HTTP method: the request is skipped.
#[verifier::spinoff_prover]
pub fn plan_request(cfg: &Config, dataset: &Option<DataSet>, mode: SelectMode, seq: u64) -> (r: Option<PlannedRequest>)
    requires
        dataset matches Some(ds) ==> ds.templates.len() > 0,
    ensures
        match dataset {
            None => {
                &&& r is Some <==> is_token(cfg.method@)
                &&& r matches Some(p) ==> {
                    &&& p.url@ == cfg.url@
                    &&& p.method == method_named(cfg.method@)
                    &&& p.headers.deep_view() == cfg.headers.deep_view()
                    &&& p.body.deep_view() == cfg.body.deep_view()
                }
            },
            Some(ds) => exists|i: int| #![trigger ds.templates@[i]] {
                &&& 0 <= i < ds.templates.len()
                &&& (mode == SelectMode::Sequential ==> i == ((seq as usize) as int) % (ds.templates.len() as int))
                &&& ({
                    let t = ds.templates@[i];
                    &&& r is Some <==> is_token(t.method@)
                    &&& r matches Some(p) ==> {
                        &&& exists|path: Seq<char>| template_renders(t.path@, path) && p.url@ == join_url(cfg.url@, path)
                        &&& p.method == method_named(t.method@)
                        &&& p.headers.deep_view() == t.headers.deep_view()
                        &&& match t.body {
                            None => p.body is None,
                            Some(b) => p.body matches Some(rb) && template_renders(b@, rb@),
                        }
                    }
                })
            },
        },
{
    match dataset {
        Some(ds) => {
            let t = ds.pick(mode, seq);
            let (url, method_text, headers, body) = t.render(cfg.url.as_str());
            match parse_method(method_text.as_str()) {
                Ok(method) => Some(PlannedRequest { url, method, headers, body }),
                Err(_) => None,
            }
        },
        None => {
            match parse_method(cfg.method.as_str()) {
                Ok(method) => {
                    let mut headers: Vec<(String, String)> = Vec::new();
                    let mut i: usize = 0;
                    while i < cfg.headers.len()
                        invariant
                            0 <= i <= cfg.headers.len(),
                            headers.deep_view() =~= cfg.headers.deep_view().take(i as int),
                        decreases cfg.headers.len() - i,
                    {
                        let (k, v) = &cfg.headers[i];
                        let ghost before = headers.deep_view();
                        headers.push((k.clone(), v.clone()));
                        assert(headers.deep_view() =~= before.push(cfg.headers.deep_view()[i as int]));
                        assert(cfg.headers.deep_view().take(i + 1) =~= cfg.headers.deep_view().take(
                            i as int,
                        ).push(cfg.headers.deep_view()[i as int]));
                        i = i + 1;
                    }
                    assert(cfg.headers.deep_view().take(cfg.headers.len() as int) =~= cfg.headers.deep_view());
                    let body = match &cfg.body {
                        Some(b) => Some(b.clone()),
                        None => None,
                    };
                    Some(PlannedRequest { url: cfg.url.clone(), method, headers, body })
                },
                Err(_) => None,
            }
        },
    }
}

/// The outcome of one attempt at a request.
#[derive(Debug, Clone, Copy, PartialEq, Eq, Structural)]
pub struct Attempt {
    /// Latency in nanoseconds, body read included.
    pub latency_ns: u64,
    /// Response status; 0 when no response came.
    pub status: u16,
    /// Response body size in bytes.
    pub size: u64,
    /// A response with a status below 400 is a success.
    pub success: bool,
}

/// The outcome of an attempt that got a response.
pub fn response_attempt(latency_ns: u64, status: u16, size: u64) -> (r: Attempt)
    ensures
        r == (Attempt { latency_ns, status, size, success: status < 400 }),
{
    Attempt { latency_ns, status, size, success: status < 400 }
}

/// The outcome of an attempt that got no response.
pub fn error_attempt(latency_ns: u64) -> (r: Attempt)
    ensures
        r == (Attempt { latency_ns, status: 0, size: 0, success: false }),
{
    Attempt { latency_ns, status: 0, size: 0, success: false }
}

/// Whether a request whose attempt number `attempt` (from 0) got no
/// response is tried again: a request gets `retries + 1` attempts.
pub fn retry_after_error(attempt: u32, retries: u32) -> (r: bool)
    ensures
        r == (attempt + 1 < retries + 1),
{
    attempt < retries
}

/// Counts the final attempt of a measured request; warm-up requests are not
/// counted.
pub fn record_attempt(stats: &mut Stats, a: &Attempt, warmup: bool, worker: u32, method: &str, url: &str)
    requires
        old(stats)@.wf(),
    ensures
        final(stats)@.wf(),
        warmup ==> final(stats)@ == old(stats)@,
        !warmup && a.success ==> {
            &&& final(stats)@.success == wrap_add(old(stats)@.success, 1)
            &&& final(stats)@.failure == old(stats)@.failure
            &&& final(stats)@.total == wrap_add(old(stats)@.total, 1)
            &&& final(stats)@.bytes == wrap_add(old(stats)@.bytes, a.size)
            &&& final(stats)@.status_codes == bump(old(stats)@.status_codes, a.status)
            &&& latencies_after(old(stats)@.latencies, old(stats)@.high, a.latency_ns, final(stats)@.latencies)
            &&& details_after(old(stats)@.details, old(stats)@.record_details, final(stats)@.details,
                worker, method@, url@, a.status, true, a.latency_ns, a.size)
        },
        !warmup && !a.success ==> {
            &&& final(stats)@.success == old(stats)@.success
            &&& final(stats)@.failure == wrap_add(old(stats)@.failure, 1)
            &&& final(stats)@.total == wrap_add(old(stats)@.total, 1)
            &&& final(stats)@.bytes == old(stats)@.bytes
            &&& final(stats)@.status_codes == if a.status != 0 {
                bump(old(stats)@.status_codes, a.status)
            } else {
                old(stats)@.status_codes
            }
            &&& latencies_after(old(stats)@.latencies, old(stats)@.high, a.latency_ns, final(stats)@.latencies)
            &&& details_after(old(stats)@.details, old(stats)@.record_details, final(stats)@.details,
                worker, method@, url@, a.status, false, a.latency_ns, 0)
        },
{
    if warmup {
        return;
    }
    if a.success {
        stats.record_success(a.latency_ns, a.status, a.size, worker, method, url);
    } else {
        stats.record_failure(a.latency_ns, a.status, worker, method, url);
    }
}

} // verus!
