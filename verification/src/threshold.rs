//! The decision whether an average falls short of what is expected.

use crate::args::Alert;
use crate::average::Average;
use crate::mean::mean_is_below;
use vstd::prelude::*;

verus! {

/// Whether `average` falls short: its mean upload lies strictly under
/// `expected_upload` lowered by `threshold` percent, or its mean download
/// strictly under `expected_download` lowered likewise.
pub open spec fn falls_short(
    average: Average,
    expected_download: u64,
    expected_upload: u64,
    threshold: u8,
) -> bool {
    average.upload.spec_is_below(expected_upload, threshold) || average.download.spec_is_below(
        expected_download,
        threshold,
    )
}

/// Decides whether `average` breaches what `alert` expects. Either rate alone
/// is enough, and a mean exactly at its bound is no breach.
pub fn average_is_bellow(average: &Average, alert: &Alert) -> (breach: bool)
    ensures
        breach == falls_short(
            *average,
            alert.expected_download,
            alert.expected_upload,
            alert.threshold,
        ),
{
    average.upload.is_below(alert.expected_upload, alert.threshold) || average.download.is_below(
        alert.expected_download,
        alert.threshold,
    )
}

/// A mean under the bound of a threshold is under the bound of every smaller
/// threshold.
proof fn lemma_below_at_smaller_threshold(total: nat, samples: nat, expected: nat, low: nat, high: nat)
    requires
        low <= high,
        mean_is_below(total, samples, expected, high),
    ensures
        mean_is_below(total, samples, expected, low),
{
    assert(expected * (100 - high) * samples <= expected * (100 - low) * samples)
        by (nonlinear_arith)
        requires
            low <= high,
    ;
}

/// The decision is monotonic in the threshold: an average that breaches at a
/// threshold breaches at every smaller one, so lowering the threshold never
/// silences an alert and raising it never raises one.
pub proof fn lemma_breach_is_monotonic_in_threshold(
    average: Average,
    expected_download: u64,
    expected_upload: u64,
    low: u8,
    high: u8,
)
    requires
        low <= high,
        falls_short(average, expected_download, expected_upload, high),
    ensures
        falls_short(average, expected_download, expected_upload, low),
{
    if average.upload.spec_is_below(expected_upload, high) {
        lemma_below_at_smaller_threshold(
            average.upload.spec_total(),
            average.upload.spec_samples(),
            expected_upload as nat,
            low as nat,
            high as nat,
        );
    } else {
        lemma_below_at_smaller_threshold(
            average.download.spec_total(),
            average.download.spec_samples(),
            expected_download as nat,
            low as nat,
            high as nat,
        );
    }
}

/// Raising the threshold changes the decision in one way only, from a breach
/// to none. Wherever it does not do that, an average that falls short at the
/// higher threshold or did not fall short at the lower one, the decision is
/// the same at both thresholds.
pub proof fn lemma_raised_threshold_keeps_decision(
    average: Average,
    expected_download: u64,
    expected_upload: u64,
    low: u8,
    high: u8,
)
    requires
        low <= high,
        falls_short(average, expected_download, expected_upload, high) || !falls_short(
            average,
            expected_download,
            expected_upload,
            low,
        ),
    ensures
        falls_short(average, expected_download, expected_upload, low) == falls_short(
            average,
            expected_download,
            expected_upload,
            high,
        ),
{
    if falls_short(average, expected_download, expected_upload, high) {
        lemma_breach_is_monotonic_in_threshold(
            average,
            expected_download,
            expected_upload,
            low,
            high,
        );
    }
}

/// An average whose means both lie exactly at their bounds,
/// `mean == expected * (1 - threshold / 100)`, is no breach.
pub proof fn lemma_boundary_is_no_breach(
    average: Average,
    expected_download: u64,
    expected_upload: u64,
    threshold: u8,
)
    requires
        average.download.spec_total() * 100 == expected_download * (100 - threshold)
            * average.download.spec_samples(),
        average.upload.spec_total() * 100 == expected_upload * (100 - threshold)
            * average.upload.spec_samples(),
    ensures
        !falls_short(average, expected_download, expected_upload, threshold),
{
}

/// From a threshold of 100 percent on nothing is a breach.
pub proof fn lemma_full_threshold_never_breaches(
    average: Average,
    expected_download: u64,
    expected_upload: u64,
    threshold: u8,
)
    requires
        threshold >= 100,
    ensures
        !falls_short(average, expected_download, expected_upload, threshold),
{
    assert(expected_download * (100 - threshold) * average.download.spec_samples() <= 0)
        by (nonlinear_arith)
        requires
            threshold >= 100,
    ;
    assert(expected_upload * (100 - threshold) * average.upload.spec_samples() <= 0)
        by (nonlinear_arith)
        requires
            threshold >= 100,
    ;
}

} // verus!
