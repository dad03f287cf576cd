//! Token-bucket rate limiting.
//!
//! The bucket holds up to `max(qps / 2, 1)` tokens and refills at `qps`
//! tokens per second; each request takes one token. Quantities are exact
//! integers: tokens are counted in billionths (one token is
//! `NANOS_PER_TOKEN` units), so that a rate of `qps` tokens per second adds
//! exactly `qps` units per nanosecond of elapsed time. Time is a clock
//! reading in nanoseconds supplied by the caller.
use vstd::prelude::*;

verus! {

/// Units per token (one token is a billion units).
pub const NANOS_PER_TOKEN: u64 = 1_000_000_000u64;

/// What a request must do to obtain its token.
#[derive(Debug, Clone, Copy, PartialEq, Eq, Structural)]
pub enum Acquire {
    /// A token was taken: the request may be sent now.
    Proceed,
    /// No token yet: try again after this many nanoseconds.
    Wait(u64),
}

/// Abstract state of a bucket.
pub struct BucketState {
    /// Tokens held, in units.
    pub tokens: nat,
    /// Most tokens the bucket can hold, in units.
    pub capacity: nat,
    /// Refill rate in tokens per second (units per nanosecond); 0: unlimited.
    pub rate: nat,
    /// Clock reading (ns) of the last refill.
    pub last: nat,
}

/// Capacity in tokens of a bucket for `qps` requests per second.
pub open spec fn capacity_tokens(qps: nat) -> nat {
    if qps / 2 >= 1 {
        qps / 2
    } else {
        1
    }
}

impl BucketState {
    /// Well formed: never more tokens than the capacity, which is
    /// `max(rate / 2, 1)` tokens.
    pub open spec fn wf(self) -> bool {
        &&& self.capacity == capacity_tokens(self.rate) * NANOS_PER_TOKEN
        &&& self.tokens <= self.capacity
    }
}

/// Nanoseconds until `missing` units accumulate at `rate` units per ns.
pub open spec fn wait_for(missing: nat, rate: nat) -> nat {
    ((missing + rate - 1) / (rate as int)) as nat
}

/// One acquisition attempt at clock reading `now`: refill for the time
/// elapsed since the last refill (up to the capacity), then take one token
/// if there is one, else say how long until there is. An unlimited bucket
/// (rate 0) always lets the request proceed.
pub open spec fn acquire_step(b: BucketState, now: nat) -> (BucketState, Acquire) {
    if b.rate == 0 {
        (b, Acquire::Proceed)
    } else {
        let elapsed: nat = if now > b.last {
            (now - b.last) as nat
        } else {
            0
        };
        let filled: nat = if b.tokens + elapsed * b.rate >= b.capacity {
            b.capacity
        } else {
            b.tokens + elapsed * b.rate
        };
        let last: nat = if now > b.last {
            now
        } else {
            b.last
        };
        if filled >= NANOS_PER_TOKEN {
            (
                BucketState { tokens: (filled - NANOS_PER_TOKEN) as nat, last, ..b },
                Acquire::Proceed,
            )
        } else {
            (
                BucketState { tokens: filled, last, ..b },
                Acquire::Wait(wait_for((NANOS_PER_TOKEN - filled) as nat, b.rate) as u64),
            )
        }
    }
}

/// A token-bucket rate limiter.
pub struct TokenBucket {
    tokens: u128,
    capacity: u128,
    refill_rate: u64,
    last_refill_ns: u64,
}

impl View for TokenBucket {
    type V = BucketState;

    closed spec fn view(&self) -> BucketState {
        BucketState {
            tokens: self.tokens as nat,
            capacity: self.capacity as nat,
            rate: self.refill_rate as nat,
            last: self.last_refill_ns as nat,
        }
    }
}

impl TokenBucket {
    #[verifier::type_invariant]
    closed spec fn inv(&self) -> bool {
        self@.wf()
    }

    /// A full bucket for `qps` requests per second (0: unlimited), whose
    /// clock starts at 0.
    pub fn new(qps: u64) -> (r: TokenBucket)
        ensures
            r@.rate == qps,
            r@.capacity == capacity_tokens(qps as nat) * NANOS_PER_TOKEN,
            r@.tokens == r@.capacity,
            r@.last == 0,
    {
        let cap_tokens: u64 = if qps / 2 >= 1 {
            qps / 2
        } else {
            1
        };
        let capacity: u128 = cap_tokens as u128 * 1_000_000_000u128;
        TokenBucket { tokens: capacity, capacity, refill_rate: qps, last_refill_ns: 0 }
    }

    /// Whether the bucket lets every request through (a rate of 0).
    pub fn is_unlimited(&self) -> (r: bool)
        ensures
            r == (self@.rate == 0),
    {
        self.refill_rate == 0
    }

    /// One acquisition attempt at clock reading `now_ns` (see `acquire_step`).
    pub fn acquire_at(&mut self, now_ns: u64) -> (r: Acquire)
        ensures
            (final(self)@, r) == acquire_step(old(self)@, now_ns as nat),
            final(self)@.wf(),
    {
        proof {
            use_type_invariant(&*self);
        }
        if self.refill_rate == 0 {
            return Acquire::Proceed;
        }
        let elapsed: u64 = if now_ns > self.last_refill_ns {
            now_ns - self.last_refill_ns
        } else {
            0
        };
        let rate = self.refill_rate;
        assert((elapsed as u128) * (rate as u128) <= 0xffff_ffff_ffff_ffffu128
            * 0xffff_ffff_ffff_ffffu128) by (nonlinear_arith)
            requires
                elapsed <= 0xffff_ffff_ffff_ffffu64,
                rate <= 0xffff_ffff_ffff_ffffu64,
        ;
        let added: u128 = elapsed as u128 * rate as u128;
        let filled: u128 = if added >= self.capacity - self.tokens {
            self.capacity
        } else {
            self.tokens + added
        };
        let last: u64 = if now_ns > self.last_refill_ns {
            now_ns
        } else {
            self.last_refill_ns
        };
        let ghost expected = acquire_step(old(self)@, now_ns as nat);
        if filled >= 1_000_000_000u128 {
            self.tokens = filled - 1_000_000_000u128;
            self.last_refill_ns = last;
            assert((self@, Acquire::Proceed) == expected);
            Acquire::Proceed
        } else {
            self.tokens = filled;
            self.last_refill_ns = last;
            let missing: u128 = 1_000_000_000u128 - filled;
            let wait: u128 = (missing + rate as u128 - 1) / rate as u128;
            assert(wait <= missing) by (nonlinear_arith)
                requires
                    wait == (missing + rate - 1) / (rate as int),
                    rate >= 1,
            ;
            let r = Acquire::Wait(wait as u64);
            assert((self@, r) == expected);
            r
        }
    }
}

/// Outcome of a series of acquisition attempts at the given clock readings:
/// the final state and the number of attempts that proceeded.
pub open spec fn acquire_run(b: BucketState, times: Seq<nat>) -> (BucketState, nat)
    decreases times.len(),
{
    if times.len() == 0 {
        (b, 0)
    } else {
        let (b1, a) = acquire_step(b, times[0]);
        let (bn, granted) = acquire_run(b1, times.drop_first());
        (bn, granted + if a == Acquire::Proceed {
            1nat
        } else {
            0nat
        })
    }
}

/// Every attempt keeps the bucket well formed and never moves its clock
/// back; a full bucket always lets the request proceed.
pub proof fn lemma_step_wf(b: BucketState, now: nat)
    requires
        b.wf(),
    ensures
        acquire_step(b, now).0.wf(),
        acquire_step(b, now).0.last >= b.last,
        acquire_step(b, now).0.rate == b.rate,
        b.tokens == b.capacity ==> acquire_step(b, now).1 == Acquire::Proceed,
{
}

/// A request told to wait `d` nanoseconds gets its token when it tries
/// again `d` nanoseconds after the refill.
pub proof fn lemma_wait_then_proceed(b: BucketState, now: nat)
    requires
        b.wf(),
    ensures
        ({
            let (b1, a) = acquire_step(b, now);
            a matches Acquire::Wait(d) ==> acquire_step(b1, (b1.last + d) as nat).1 == Acquire::Proceed
        }),
{
    let (b1, a) = acquire_step(b, now);
    if let Acquire::Wait(d) = a {
        let missing = (NANOS_PER_TOKEN - b1.tokens) as nat;
        let rate = b.rate;
        assert(rate >= 1);
        assert(missing <= NANOS_PER_TOKEN);
        let w = wait_for(missing, rate);
        assert(w * rate >= missing && w <= missing) by (nonlinear_arith)
            requires
                w == (missing + rate - 1) / (rate as int),
                rate >= 1,
        ;
        assert(d == w);
        assert(d * b1.rate >= missing);
    }
}

/// One attempt takes no more than the refill provides: the tokens left
/// plus the token granted (if any) are at most the tokens before plus the
/// refill for the elapsed time.
pub proof fn lemma_step_budget(b: BucketState, now: nat)
    requires
        b.wf(),
        b.rate > 0,
    ensures
        ({
            let (b1, a) = acquire_step(b, now);
            b1.tokens + (if a == Acquire::Proceed {
                NANOS_PER_TOKEN as nat
            } else {
                0nat
            }) <= b.tokens + b.rate * (b1.last - b.last)
        }),
{
    let (b1, a) = acquire_step(b, now);
    let elapsed: nat = if now > b.last {
        (now - b.last) as nat
    } else {
        0
    };
    assert(b1.last - b.last == elapsed);
    assert(elapsed * b.rate == b.rate * elapsed) by (nonlinear_arith);
}

/// Rate bound: over any series of attempts, the tokens granted (one token
/// is `NANOS_PER_TOKEN` units) plus those left never exceed the tokens held
/// at the start plus `rate` per nanosecond of clock advance. With a full
/// bucket this is at most `max(qps / 2, 1)` requests at once plus `qps`
/// requests per second.
pub proof fn lemma_rate_bound(b: BucketState, times: Seq<nat>)
    requires
        b.wf(),
        b.rate > 0,
    ensures
        ({
            let (bn, granted) = acquire_run(b, times);
            &&& bn.wf()
            &&& bn.rate == b.rate
            &&& bn.last >= b.last
            &&& bn.tokens + granted * NANOS_PER_TOKEN <= b.tokens + b.rate * (bn.last - b.last)
        }),
    decreases times.len(),
{
    if times.len() > 0 {
        let (b1, a) = acquire_step(b, times[0]);
        lemma_step_wf(b, times[0]);
        lemma_step_budget(b, times[0]);
        lemma_rate_bound(b1, times.drop_first());
        let (bn, g) = acquire_run(b1, times.drop_first());
        let e1 = (b1.last - b.last) as nat;
        let e2 = (bn.last - b1.last) as nat;
        assert(b.rate * (bn.last - b.last) == b.rate * e1 + b.rate * e2) by (nonlinear_arith)
            requires
                bn.last - b.last == e1 + e2,
        ;
        let g0: nat = if a == Acquire::Proceed {
            1nat
        } else {
            0nat
        };
        assert((g + g0) * NANOS_PER_TOKEN == g * NANOS_PER_TOKEN + g0 * NANOS_PER_TOKEN)
            by (nonlinear_arith);
    }
}

/// Every attempt first credits the time elapsed since the last refill,
/// whatever the tokens held: at a clock reading `now` not before the last
/// refill, the tokens available are `min(tokens + (now - last) * rate,
/// capacity)`. The attempt proceeds exactly when a whole token is
/// available, and then takes one; otherwise it keeps them all. The clock of
/// the bucket moves to `now`.
pub proof fn lemma_refill_credits_elapsed_time(b: BucketState, now: nat)
    requires
        b.wf(),
        b.rate > 0,
        now >= b.last,
    ensures
        ({
            let sum = b.tokens + (now - b.last) * b.rate;
            let available: int = if sum <= b.capacity { sum } else { b.capacity as int };
            let (b1, a) = acquire_step(b, now);
            &&& b1.last == now
            &&& b1.rate == b.rate
            &&& b1.capacity == b.capacity
            &&& (a == Acquire::Proceed <==> available >= NANOS_PER_TOKEN)
            &&& (a == Acquire::Proceed ==> b1.tokens == available - NANOS_PER_TOKEN)
            &&& (a != Acquire::Proceed ==> b1.tokens == available)
        }),
{
    let elapsed: nat = (now - b.last) as nat;
    assert((now - b.last) * b.rate == elapsed * b.rate);
}

/// `k` attempts at the same clock reading `now`.
pub open spec fn attempts_at(now: nat, k: nat) -> Seq<nat> {
    Seq::new(k, |i: int| now)
}

/// A bucket whose clock is at `now` and that holds at least `j` whole
/// tokens lets `j` attempts at `now` all proceed.
proof fn lemma_drain(b: BucketState, now: nat, j: nat)
    requires
        b.wf(),
        b.rate > 0,
        b.last == now,
        b.tokens >= j * NANOS_PER_TOKEN,
    ensures
        acquire_run(b, attempts_at(now, j)).1 == j,
    decreases j,
{
    if j > 0 {
        let (b1, a) = acquire_step(b, now);
        assert(a == Acquire::Proceed);
        assert(b1.tokens == b.tokens - NANOS_PER_TOKEN);
        assert(attempts_at(now, j).drop_first() =~= attempts_at(now, (j - 1) as nat));
        lemma_drain(b1, now, (j - 1) as nat);
    }
}

/// Burst after idling: once a bucket for `qps` requests per second has been
/// idle long enough to refill completely (`(now - last) * rate >= capacity`),
/// `max(qps / 2, 1)` attempts at `now` all proceed at once, whatever tokens
/// it held before.
pub proof fn lemma_idle_bucket_grants_burst(b: BucketState, now: nat)
    requires
        b.wf(),
        b.rate > 0,
        now >= b.last,
        (now - b.last) * b.rate >= b.capacity,
    ensures
        acquire_run(b, attempts_at(now, capacity_tokens(b.rate))).1 == capacity_tokens(b.rate),
{
    let k = capacity_tokens(b.rate);
    lemma_refill_credits_elapsed_time(b, now);
    let (b1, a) = acquire_step(b, now);
    assert(a == Acquire::Proceed);
    assert(b1.tokens == (k - 1) * NANOS_PER_TOKEN);
    assert(attempts_at(now, k).drop_first() =~= attempts_at(now, (k - 1) as nat));
    lemma_drain(b1, now, (k - 1) as nat);
}

} // verus!
