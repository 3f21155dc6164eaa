use dashmap::DashMap;
use vstd::prelude::*;
use vstd::string::*;

use crate::provider::{registry_entries, ProviderState};
use crate::text::{find_from, find_str, last_index_before, rfind_char_before};

verus! {

/// Consecutive failed probes after which a provider enters cool-off.
pub const COOL_OFF_THRESHOLD: i64 = 3;

/// What one liveness probe of a provider observed.
#[derive(Clone, Copy, Debug, PartialEq, Eq, Structural)]
pub enum ProbeOutcome {
    /// The probe succeeded after the given number of milliseconds.
    Healthy { latency_ms: u128 },
    /// Network error, timeout or a non-success status.
    Unhealthy,
}

/// The smoothed latency after a successful sample: the first measurement is
/// taken as it is, later ones weigh the old average four to one.
pub open spec fn ema(average: int, sample: int) -> int {
    if average == 0 {
        sample
    } else {
        (4 * average + sample) / 5
    }
}

/// The state after a successful probe.
pub open spec fn succeeded(s: ProviderState, latency_ms: u128) -> ProviderState {
    ProviderState {
        healthy: true,
        error_count: 0,
        cool_off: false,
        average_latency: ema(s.average_latency as int, latency_ms as int) as u128,
        ..s
    }
}

/// The error count after one more failure; it stays at the largest value once there.
pub open spec fn next_error_count(n: i64) -> i64 {
    if n < i64::MAX {
        (n + 1) as i64
    } else {
        n
    }
}

/// The state after a failed probe.
pub open spec fn failed(s: ProviderState) -> ProviderState {
    let n = next_error_count(s.error_count);
    ProviderState {
        error_count: n,
        healthy: if n >= COOL_OFF_THRESHOLD {
            false
        } else {
            s.healthy
        },
        cool_off: if n >= COOL_OFF_THRESHOLD {
            true
        } else {
            s.cool_off
        },
        ..s
    }
}

/// The state after a probe with the given outcome.
pub open spec fn after_probe(s: ProviderState, outcome: ProbeOutcome) -> ProviderState {
    match outcome {
        ProbeOutcome::Healthy { latency_ms } => succeeded(s, latency_ms),
        ProbeOutcome::Unhealthy => failed(s),
    }
}

/// Computes `(4 * average + sample) / 5` without leaving the range of `u128`.
fn smoothed(average: u128, sample: u128) -> (r: u128)
    ensures
        r == (4 * average + sample) / 5,
{
    let qa = average / 5;
    let ra = average % 5;
    let qs = sample / 5;
    let rs = sample % 5;
    let ghost a = average as int;
    let ghost s = sample as int;
    assert((4 * a + s) / 5 == 4 * (qa as int) + (qs as int) + (4 * (ra as int) + (rs as int)) / 5)
        by (nonlinear_arith)
        requires
            a == 5 * qa + ra,
            s == 5 * qs + rs,
            0 <= ra < 5,
            0 <= rs < 5,
    ;
    assert((4 * a + s) / 5 <= if a >= s { a } else { s }) by (nonlinear_arith)
        requires
            a >= 0,
            s >= 0,
    ;
    4 * qa + qs + (4 * ra + rs) / 5
}

impl ProviderState {
    /// Records a successful probe: healthy again, errors and cool-off cleared,
    /// latency folded into the moving average.
    pub fn record_success(&mut self, latency_ms: u128)
        ensures
            *final(self) == succeeded(*old(self), latency_ms),
    {
        self.healthy = true;
        self.error_count = 0;
        self.cool_off = false;
        self.average_latency = if self.average_latency == 0 {
            latency_ms
        } else {
            smoothed(self.average_latency, latency_ms)
        };
    }

    /// Records a failed probe: one more consecutive error, and cool-off once
    /// the count reaches the threshold.
    pub fn record_failure(&mut self)
        ensures
            *final(self) == failed(*old(self)),
    {
        if self.error_count < i64::MAX {
            self.error_count = self.error_count + 1;
        }
        if self.error_count >= COOL_OFF_THRESHOLD {
            self.healthy = false;
            self.cool_off = true;
        }
    }

    /// The state after a probe with the given outcome.
    pub fn observed(self, outcome: ProbeOutcome) -> (r: ProviderState)
        ensures
            r == after_probe(self, outcome),
    {
        let mut s = self;
        match outcome {
            ProbeOutcome::Healthy { latency_ms } => s.record_success(latency_ms),
            ProbeOutcome::Unhealthy => s.record_failure(),
        }
        s
    }
}

/// The registry after a probe of the named provider: its entry replaced by the
/// state after the probe, every other entry kept; unchanged without that name.
pub open spec fn registry_after_probe(
    entries: Map<Seq<char>, ProviderState>,
    name: Seq<char>,
    outcome: ProbeOutcome,
) -> Map<Seq<char>, ProviderState> {
    if entries.contains_key(name) {
        entries.insert(name, after_probe(entries[name], outcome))
    } else {
        entries
    }
}

/// Relies on DashMap::alter: replaces the entry under the key, if there is one,
/// by the state after the probe, and leaves every other entry alone.
#[verifier::external_body]
fn registry_alter(m: &mut DashMap<String, ProviderState>, name: &String, outcome: ProbeOutcome)
    ensures
        registry_entries(*final(m)) == registry_after_probe(registry_entries(*old(m)), name@, outcome),
{
    m.alter(name, |_, s| s.observed(outcome))
}

/// Applies a probe's outcome to the named provider in one step.
pub fn update_provider(providers: &mut DashMap<String, ProviderState>, name: &String, outcome: ProbeOutcome)
    ensures
        registry_entries(*final(providers)) == registry_after_probe(
            registry_entries(*old(providers)),
            name@,
            outcome,
        ),
{
    registry_alter(providers, name, outcome)
}

/// Three failures in a row take a healthy provider with a clean record out of
/// service and into cool-off (the first two leave it healthy), and one success
/// after that restores it with a zero error count.
pub proof fn lemma_cool_off_cycle(s: ProviderState, latency_ms: u128)
    requires
        s.healthy,
        !s.cool_off,
        s.error_count == 0,
    ensures
        failed(s).healthy && !failed(s).cool_off,
        failed(failed(s)).healthy && !failed(failed(s)).cool_off,
        !failed(failed(failed(s))).healthy,
        failed(failed(failed(s))).cool_off,
        failed(failed(failed(s))).error_count == 3,
        succeeded(failed(failed(failed(s))), latency_ms).healthy,
        !succeeded(failed(failed(failed(s))), latency_ms).cool_off,
        succeeded(failed(failed(failed(s))), latency_ms).error_count == 0,
{
}

/// From any state with a non-negative error count, three failures in a row
/// leave the provider out of service and in cool-off.
pub proof fn lemma_three_failures_cool_off(s: ProviderState)
    requires
        s.error_count >= 0,
    ensures
        !failed(failed(failed(s))).healthy,
        failed(failed(failed(s))).cool_off,
        failed(failed(failed(s))).error_count >= COOL_OFF_THRESHOLD,
{
}

/// Any success clears cool-off and the error count, whatever came before, and
/// a provider at or past the threshold stays out of service while it fails.
pub proof fn lemma_success_clears_and_failure_keeps(s: ProviderState, latency_ms: u128)
    requires
        s.error_count >= COOL_OFF_THRESHOLD,
    ensures
        succeeded(s, latency_ms).healthy,
        !succeeded(s, latency_ms).cool_off,
        succeeded(s, latency_ms).error_count == 0,
        !failed(s).healthy,
        failed(s).cool_off,
{
}

/// Every probe outcome keeps a well-formed state well-formed.
pub proof fn lemma_probe_preserves_wf(s: ProviderState, outcome: ProbeOutcome)
    requires
        s.wf(),
    ensures
        after_probe(s, outcome).wf(),
{
}

/// The first sample is taken exactly; a sample equal to the average leaves it
/// unchanged.
pub proof fn lemma_ema_first_and_fixed_point(average: nat, sample: nat)
    ensures
        ema(0, sample as int) == sample,
        ema(sample as int, sample as int) == sample,
{
    assert((4 * (sample as int) + sample) / 5 == sample) by (nonlinear_arith);
}

/// A sample below the average moves the average down strictly, never past
/// the sample.
pub proof fn lemma_ema_descends_to_sample(average: nat, sample: nat)
    requires
        average > sample,
    ensures
        sample <= ema(average as int, sample as int) < average,
{
    let a = average as int;
    let s = sample as int;
    assert(s <= (4 * a + s) / 5 < a) by (nonlinear_arith)
        requires
            a > s >= 0,
    ;
}

/// The average after the same sample was recorded `n` more times.
pub open spec fn ema_repeat(average: int, sample: int, n: nat) -> int
    decreases n,
{
    if n == 0 {
        average
    } else {
        ema(ema_repeat(average, sample, (n - 1) as nat), sample)
    }
}

proof fn lemma_ema_repeat_bounds(average: nat, sample: nat, k: nat)
    requires
        average >= sample,
    ensures
        sample <= ema_repeat(average as int, sample as int, k),
        ema_repeat(average as int, sample as int, k) <= if average - k > sample {
            average - k
        } else {
            sample as int
        },
    decreases k,
{
    if k > 0 {
        lemma_ema_repeat_bounds(average, sample, (k - 1) as nat);
        let x = ema_repeat(average as int, sample as int, (k - 1) as nat);
        if x == sample {
            lemma_ema_first_and_fixed_point(0, sample);
        } else {
            lemma_ema_descends_to_sample(x as nat, sample);
        }
    }
}

/// From an average at or above the sample, repeating the sample brings the
/// average to exactly the sample, at the latest after as many samples as
/// the distance between them, and it stays there.
pub proof fn lemma_ema_converges_from_above(average: nat, sample: nat, n: nat)
    requires
        average >= sample,
        n >= average - sample,
    ensures
        ema_repeat(average as int, sample as int, n) == sample,
{
    lemma_ema_repeat_bounds(average, sample, n);
}

/// Repeating a sample above a measured average never moves the average down,
/// nor past the sample.
pub proof fn lemma_ema_rises_toward_sample(average: nat, sample: nat)
    requires
        0 < average < sample,
    ensures
        average <= ema(average as int, sample as int) <= sample,
{
    let a = average as int;
    let s = sample as int;
    assert(a <= (4 * a + s) / 5 <= s) by (nonlinear_arith)
        requires
            0 < a < s,
    ;
}

/// A provider URL as it may appear in logs: an `api-key=` value, or the
/// credential segment of a provider-style path, replaced by a marker.
pub open spec fn masked(url: Seq<char>) -> Seq<char> {
    match find_from(url, "api-key="@, 0) {
        Some(i) => url.subrange(0, i) + "api-key=***"@,
        None => if find_from(url, "quiknode.pro"@, 0) is Some {
            match last_index_before(url, '/', url.len() as int) {
                Some(j) => match last_index_before(url, '/', j) {
                    Some(k) => url.subrange(0, k) + "/***/"@,
                    None => url,
                },
                None => url,
            }
        } else {
            url
        },
    }
}

/// Renders a URL with its embedded credentials masked.
pub fn mask_url(url: &str) -> (r: String)
    ensures
        r@ == masked(url@),
{
    if let Some(idx) = find_str(url, "api-key=") {
        let mut out = String::from_str(url.substring_char(0, idx));
        out.append("api-key=***");
        return out;
    }
    if find_str(url, "quiknode.pro").is_some() {
        let len = url.unicode_len();
        if let Some(idx) = rfind_char_before(url, '/', len) {
            if let Some(start) = rfind_char_before(url, '/', idx) {
                let mut out = String::from_str(url.substring_char(0, start));
                out.append("/***/");
                return out;
            }
        }
    }
    String::from_str(url)
}

} // verus!
