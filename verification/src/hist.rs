//! Latency histograms. The bounded integer histogram comes from the
//! hdrhistogram crate and is held opaquely in `LatencyHist`; its contents are
//! named as a multiset of samples, and every claim the library proves about
//! percentile reports rests on the wrappers below.

use vstd::prelude::*;
use vstd::multiset::Multiset;
use hdrhistogram::Histogram;

verus! {

/// A bounded integer microsecond histogram with saturating insertion,
/// backed by hdrhistogram.
#[verifier::external_body]
pub struct LatencyHist {
    inner: Histogram<u64>,
}

/// The samples a histogram holds, as the histogram holds them: one entry per
/// recorded value, clamped to the histogram's tracked range. This name and
/// `pct_value` read the histogram at the one configuration `latency_hist`
/// builds; the reported values depend on that configuration's bucket widths.
pub uninterp spec fn hist_samples(h: LatencyHist) -> Multiset<u64>;

/// The value the histogram reports at a given percentile of its samples.
pub uninterp spec fn pct_value(s: Multiset<u64>, pct: u64) -> u64;

/// The sample the histogram stores for a recorded value: the value clamped
/// to the tracked range, at the equivalence class of its bucket. A function
/// of the value alone at the one configuration the library builds.
pub uninterp spec fn stored_sample(v: u64) -> u64;

/// Relies on Histogram::new_with_bounds: a fresh histogram tracking
/// `low..=high` at `sigfig` significant digits holds no samples. `None` when
/// the crate refuses the parameters (it documents `low >= 1`,
/// `high >= 2 * low`, `sigfig <= 5`, and refuses a value range whose bucket
/// magnitudes exceed 64 bits) or cannot size its counts array. Its checks
/// are deterministic in the arguments, and for the bounds the library uses
/// they all pass with a counts array of well under `usize::MAX` entries, so
/// construction succeeds.
#[verifier::external_body]
fn hist_new(low: u64, high: u64, sigfig: u8) -> (r: Option<LatencyHist>)
    ensures
        r is Some ==> hist_samples(r->0) == Multiset::<u64>::empty(),
        (low == 10 && high == 1_000_000 && sigfig == 4) ==> r is Some,
{
    match Histogram::new_with_bounds(low, high, sigfig) {
        Ok(h) => Some(LatencyHist { inner: h }),
        Err(_) => None,
    }
}

/// The latency histogram the benchmark uses: microsecond buckets from 10 up
/// to one million, at four significant digits. Every histogram in the
/// library is built here, so `hist_samples` and `pct_value` always speak of
/// this one configuration.
pub(crate) fn latency_hist() -> (r: LatencyHist)
    ensures
        hist_samples(r) == Multiset::<u64>::empty(),
{
    hist_new(10, 1_000_000, 4).unwrap()
}

/// Relies on Histogram::saturating_record: it cannot fail, and exactly one
/// more sample is held afterwards — the recorded value, clamped and
/// bucketed, which at the fixed configuration is a function of the value
/// alone.
#[verifier::external_body]
pub(crate) fn hist_record(h: &mut LatencyHist, value: u64)
    ensures
        hist_samples(*final(h)) == hist_samples(*old(h)).insert(stored_sample(value)),
{
    h.inner.saturating_record(value);
}

/// Relies on Histogram::value_at_percentile: the value that `pct` percent of
/// the samples are smaller than or equivalent to. Its cumulative scan of the
/// counts makes the result non-decreasing in the percentile, which is stated
/// here relative to the value returned.
#[verifier::external_body]
pub(crate) fn hist_value_at_percentile(h: &LatencyHist, pct: u64) -> (r: u64)
    requires
        pct <= 100,
    ensures
        r == pct_value(hist_samples(*h), pct),
        forall|p: u64| p <= pct ==> pct_value(hist_samples(*h), p) <= r,
{
    h.inner.value_at_percentile((pct as u32).into())
}

} // verus!
