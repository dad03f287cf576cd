//! Aggregation of request results: a latency histogram (HdrHistogram),
//! success / failure / byte counters, the distribution of status codes and,
//! on request, the list of request details.
//!
//! Counters add with wraparound, as the atomic counters of a concurrent
//! aggregator do.
use vstd::prelude::*;
use std::collections::BTreeMap;
use vstd::multiset::Multiset;

verus! {

/// A latency histogram: an HdrHistogram of `u64` values, which the program
/// around the library reads for quantiles. Verification sees only the names
/// `histogram_values` and `histogram_high`.
#[verifier::external_body]
pub struct LatencyHistogram {
    pub hdr: hdrhistogram::Histogram<u64>,
}

/// The latency values recorded in a histogram (each once per recording).
pub uninterp spec fn histogram_values(h: LatencyHistogram) -> Multiset<u64>;

/// The highest trackable value a histogram was made with.
pub uninterp spec fn histogram_high(h: LatencyHistogram) -> u64;

/// `Histogram::<u64>::new_with_bounds(low, high, sigfig)`, with the error
/// dropped. A new histogram is empty and tracks values up to `high`. The
/// source succeeds when `low` is 1, `high >= 2` and `sigfig <= 5`.
#[verifier::external_body]
fn histogram_with_bounds(low: u64, high: u64, sigfig: u8) -> (r: Option<LatencyHistogram>)
    ensures
        r matches Some(h) ==> histogram_values(h) =~= Multiset::empty() && histogram_high(h)
            == high,
        low == 1 && high >= 2 && sigfig <= 5 ==> r is Some,
{
    match hdrhistogram::Histogram::<u64>::new_with_bounds(low, high, sigfig) {
        Ok(hdr) => Some(LatencyHistogram { hdr }),
        Err(_) => None,
    }
}

/// `Histogram::record(value).is_ok()`: the value is recorded when the call
/// succeeds, which it does at least for values up to the highest trackable
/// value; on failure nothing changes.
#[verifier::external_body]
fn histogram_record(h: &mut LatencyHistogram, value: u64) -> (r: bool)
    ensures
        r ==> histogram_values(*final(h)) == histogram_values(*old(h)).insert(value),
        !r ==> histogram_values(*final(h)) == histogram_values(*old(h)),
        value <= histogram_high(*old(h)) ==> r,
        histogram_high(*final(h)) == histogram_high(*old(h)),
{
    h.hdr.record(value).is_ok()
}

/// `Histogram::clone`: a copy with the same values and bounds.
#[verifier::external_body]
fn histogram_clone(h: &LatencyHistogram) -> (r: LatencyHistogram)
    ensures
        histogram_values(r) == histogram_values(*h),
        histogram_high(r) == histogram_high(*h),
{
    LatencyHistogram { hdr: h.hdr.clone() }
}

/// The current wall-clock time in milliseconds since the Unix epoch
/// (`chrono::Local::now().timestamp_millis()`, as `u64`). Depends on the
/// clock: nothing is stated of it.
#[verifier::external_body]
fn now_millis() -> (r: u64) {
    chrono::Local::now().timestamp_millis() as u64
}

/// Lowest latency the histogram distinguishes (1 ns).
pub const HIST_LOWEST: u64 = 1u64;

/// Highest latency the histogram tracks (one hour, in ns).
pub const HIST_HIGHEST: u64 = 3_600_000_000_000u64;

/// Significant decimal digits the histogram keeps.
pub const HIST_SIGFIGS: u8 = 3u8;

/// One request, as the CSV detail export lists it.
#[derive(Debug, Clone)]
pub struct RequestDetail {
    /// Completion time (ms since the Unix epoch).
    pub timestamp_ms: u64,
    /// Worker number.
    pub worker: u32,
    /// Request method.
    pub method: String,
    /// Request URL.
    pub url: String,
    /// Response status (0 when there was no response).
    pub status: u16,
    /// Whether the request counts as a success.
    pub success: bool,
    /// Latency in nanoseconds.
    pub latency_ns: u64,
    /// Response body size in bytes.
    pub size_bytes: u64,
}

/// Why the aggregator cannot be created.
#[derive(Debug, Clone, Copy, PartialEq, Eq, Structural)]
pub enum StatsError {
    /// The histogram refused its bounds.
    Histogram,
}

/// Abstract state of an aggregator.
pub struct StatsView {
    /// Latencies recorded in the histogram.
    pub latencies: Multiset<u64>,
    /// Highest latency the histogram tracks.
    pub high: u64,
    pub total: u64,
    pub success: u64,
    pub failure: u64,
    pub bytes: u64,
    /// Responses counted by status code.
    pub status_codes: Map<u16, u64>,
    pub details: Seq<RequestDetail>,
    pub record_details: bool,
}

/// The value the histogram records for a latency: at least 1.
pub open spec fn recorded_latency(latency_ns: u64) -> u64 {
    if latency_ns == 0 {
        1
    } else {
        latency_ns
    }
}

/// The latencies after recording one: the value is added when it is within
/// the tracked range; beyond it the histogram may refuse it.
pub open spec fn latencies_after(before: Multiset<u64>, high: u64, latency_ns: u64, after: Multiset<u64>) -> bool {
    let v = recorded_latency(latency_ns);
    ||| after == before.insert(v)
    ||| (v > high && after == before)
}

/// The status counts after one more response with status `status`.
pub open spec fn bump(m: Map<u16, u64>, status: u16) -> Map<u16, u64> {
    if m.contains_key(status) {
        m.insert(status, wrap_add(m[status], 1))
    } else {
        m.insert(status, 1)
    }
}

/// `a + b` with wraparound.
pub open spec fn wrap_add(a: u64, b: u64) -> u64 {
    ((a + b) % 0x1_0000_0000_0000_0000) as u64
}

/// The detail list after one request: appended when details are kept.
pub open spec fn details_after(
    before: Seq<RequestDetail>,
    keep: bool,
    after: Seq<RequestDetail>,
    worker: u32,
    method: Seq<char>,
    url: Seq<char>,
    status: u16,
    success: bool,
    latency_ns: u64,
    size: u64,
) -> bool {
    if keep {
        &&& after.len() == before.len() + 1
        &&& after.take(before.len() as int) == before
        &&& ({
            let d = after.last();
            &&& d.worker == worker
            &&& d.method@ == method
            &&& d.url@ == url
            &&& d.status == status
            &&& d.success == success
            &&& d.latency_ns == latency_ns
            &&& d.size_bytes == size
        })
    } else {
        after == before
    }
}

/// The global aggregator of a run.
pub struct Stats {
    histogram: LatencyHistogram,
    total: u64,
    success: u64,
    failure: u64,
    bytes: u64,
    status_codes: BTreeMap<u16, u64>,
    details: Vec<RequestDetail>,
    record_details: bool,
}

impl View for Stats {
    type V = StatsView;

    closed spec fn view(&self) -> StatsView {
        StatsView {
            latencies: histogram_values(self.histogram),
            high: histogram_high(self.histogram),
            total: self.total,
            success: self.success,
            failure: self.failure,
            bytes: self.bytes,
            status_codes: self.status_codes@,
            details: self.details@,
            record_details: self.record_details,
        }
    }
}

impl StatsView {
    /// Every request is counted once, as a success or as a failure.
    pub open spec fn counts_agree(self) -> bool {
        self.total == wrap_add(self.success, self.failure)
    }

    /// Well formed: the counts agree, the histogram tracks latencies up to
    /// one hour, and details are only kept when asked for.
    pub open spec fn wf(self) -> bool {
        &&& self.counts_agree()
        &&& self.high == HIST_HIGHEST
        &&& self.record_details || self.details.len() == 0
    }
}

impl Stats {
    /// A new, empty aggregator; `record_details` keeps the detail of every
    /// request (for the CSV export).
    pub fn new(record_details: bool) -> (r: Result<Stats, StatsError>)
        ensures
            r matches Ok(s) && s@.latencies =~= Multiset::empty() && s@.high == HIST_HIGHEST
                && s@.total == 0 && s@.success == 0 && s@.failure == 0 && s@.bytes == 0
                && s@.status_codes =~= Map::empty() && s@.details.len() == 0 && s@.record_details
                == record_details && s@.wf(),
    {
        match histogram_with_bounds(HIST_LOWEST, HIST_HIGHEST, HIST_SIGFIGS) {
            Some(histogram) => Ok(
                Stats {
                    histogram,
                    total: 0,
                    success: 0,
                    failure: 0,
                    bytes: 0,
                    status_codes: BTreeMap::new(),
                    details: Vec::new(),
                    record_details,
                },
            ),
            None => Err(StatsError::Histogram),
        }
    }

    /// Counts one more response with status `status`.
    fn note_status(&mut self, status: u16)
        requires
            old(self)@.wf(),
        ensures
            final(self)@ == (StatsView { status_codes: bump(old(self)@.status_codes, status), ..old(self)@ }),
    {
        let count: u64 = match self.status_codes.get(&status) {
            Some(c) => c.wrapping_add(1),
            None => 1,
        };
        self.status_codes.insert(status, count);
    }

    /// Keeps the detail of one request when details are recorded.
    fn note_detail(
        &mut self,
        worker: u32,
        method: &str,
        url: &str,
        status: u16,
        success: bool,
        latency_ns: u64,
        size: u64,
    )
        requires
            old(self)@.wf(),
        ensures
            details_after(
                old(self)@.details,
                old(self)@.record_details,
                final(self)@.details,
                worker,
                method@,
                url@,
                status,
                success,
                latency_ns,
                size,
            ),
            final(self)@ == (StatsView { details: final(self)@.details, ..old(self)@ }),
    {
        if !self.record_details {
            return;
        }
        let detail = RequestDetail {
            timestamp_ms: now_millis(),
            worker,
            method: method.to_string(),
            url: url.to_string(),
            status,
            success,
            latency_ns,
            size_bytes: size,
        };
        self.details.push(detail);
        assert(self.details@.take(old(self).details@.len() as int) =~= old(self).details@);
    }

    /// Records a successful request: its latency, status and body size.
    pub fn record_success(&mut self, latency_ns: u64, status: u16, size: u64, worker: u32, method: &str, url: &str)
        requires
            old(self)@.wf(),
        ensures
            latencies_after(old(self)@.latencies, old(self)@.high, latency_ns, final(self)@.latencies),
            final(self)@.high == old(self)@.high,
            final(self)@.success == wrap_add(old(self)@.success, 1),
            final(self)@.failure == old(self)@.failure,
            final(self)@.total == wrap_add(old(self)@.total, 1),
            final(self)@.bytes == wrap_add(old(self)@.bytes, size),
            final(self)@.status_codes == bump(old(self)@.status_codes, status),
            final(self)@.record_details == old(self)@.record_details,
            details_after(old(self)@.details, old(self)@.record_details, final(self)@.details, worker,
                method@, url@, status, true, latency_ns, size),
            final(self)@.wf(),
    {
        let v: u64 = if latency_ns == 0 {
            1
        } else {
            latency_ns
        };
        let _ = histogram_record(&mut self.histogram, v);
        self.success = self.success.wrapping_add(1);
        self.total = self.total.wrapping_add(1);
        self.bytes = self.bytes.wrapping_add(size);
        self.note_status(status);
        self.note_detail(worker, method, url, status, true, latency_ns, size);
    }

    /// Records a failed request: its latency and, when there was a
    /// response (status not 0), its status.
    pub fn record_failure(&mut self, latency_ns: u64, status: u16, worker: u32, method: &str, url: &str)
        requires
            old(self)@.wf(),
        ensures
            latencies_after(old(self)@.latencies, old(self)@.high, latency_ns, final(self)@.latencies),
            final(self)@.high == old(self)@.high,
            final(self)@.success == old(self)@.success,
            final(self)@.failure == wrap_add(old(self)@.failure, 1),
            final(self)@.total == wrap_add(old(self)@.total, 1),
            final(self)@.bytes == old(self)@.bytes,
            final(self)@.status_codes == if status != 0 {
                bump(old(self)@.status_codes, status)
            } else {
                old(self)@.status_codes
            },
            final(self)@.record_details == old(self)@.record_details,
            details_after(old(self)@.details, old(self)@.record_details, final(self)@.details, worker,
                method@, url@, status, false, latency_ns, 0),
            final(self)@.wf(),
    {
        let v: u64 = if latency_ns == 0 {
            1
        } else {
            latency_ns
        };
        let _ = histogram_record(&mut self.histogram, v);
        self.failure = self.failure.wrapping_add(1);
        self.total = self.total.wrapping_add(1);
        if status != 0 {
            self.note_status(status);
        }
        self.note_detail(worker, method, url, status, false, latency_ns, 0);
    }

    /// Requests recorded.
    pub fn total(&self) -> (r: u64)
        ensures
            r == self@.total,
    {
        self.total
    }

    /// Successful requests recorded.
    pub fn success(&self) -> (r: u64)
        ensures
            r == self@.success,
    {
        self.success
    }

    /// Failed requests recorded.
    pub fn failure(&self) -> (r: u64)
        ensures
            r == self@.failure,
    {
        self.failure
    }

    /// Response bytes received by successful requests.
    pub fn bytes(&self) -> (r: u64)
        ensures
            r == self@.bytes,
    {
        self.bytes
    }

    /// A copy of the status-code distribution.
    pub fn status_codes(&self) -> (r: BTreeMap<u16, u64>)
        ensures
            r@ == self@.status_codes,
    {
        self.status_codes.clone()
    }

    /// The request details kept so far.
    pub fn details(&self) -> (r: &Vec<RequestDetail>)
        ensures
            r@ == self@.details,
    {
        &self.details
    }

    /// A copy of the latency histogram.
    pub fn histogram_snapshot(&self) -> (r: LatencyHistogram)
        ensures
            histogram_values(r) == self@.latencies,
            histogram_high(r) == self@.high,
    {
        histogram_clone(&self.histogram)
    }
}

} // verus!
