//! The average of a window of measurements.

use crate::mean::Mean;
use vstd::prelude::*;
use vstd::seq_lib::{to_multiset_contains, to_multiset_len, to_multiset_remove};

verus! {

/// One row of the measurement log.
#[derive(Debug, Clone, Copy, PartialEq, Eq)]
pub struct ResultCsv {
    /// When the measurement was taken, in seconds since 1970-01-01 00:00:00 UTC.
    pub date: i64,
    /// Download rate, in hundredths of a megabit per second.
    pub speeds_download: u64,
    /// Upload rate, in hundredths of a megabit per second.
    pub speeds_upload: u64,
}

/// What a window of measurements comes down to.
#[derive(Debug, Clone, Copy, PartialEq, Eq)]
pub struct Average {
    /// Mean upload rate over the window.
    pub upload: Mean,
    /// Mean download rate over the window.
    pub download: Mean,
    /// Time between the oldest and the newest measurement, rounded to whole
    /// hours.
    pub period_in_hours: i64,
}

/// The download rates of `window` added up.
pub open spec fn total_download(window: Seq<ResultCsv>) -> nat
    decreases window.len(),
{
    if window.len() == 0 {
        0
    } else {
        total_download(window.drop_last()) + window.last().speeds_download as nat
    }
}

/// The upload rates of `window` added up.
pub open spec fn total_upload(window: Seq<ResultCsv>) -> nat
    decreases window.len(),
{
    if window.len() == 0 {
        0
    } else {
        total_upload(window.drop_last()) + window.last().speeds_upload as nat
    }
}

/// The date of the oldest measurement of a window that is not empty.
pub open spec fn earliest(window: Seq<ResultCsv>) -> int
    decreases window.len(),
{
    if window.len() <= 1 {
        window[0].date as int
    } else if window.last().date < earliest(window.drop_last()) {
        window.last().date as int
    } else {
        earliest(window.drop_last())
    }
}

/// The date of the newest measurement of a window that is not empty.
pub open spec fn latest(window: Seq<ResultCsv>) -> int
    decreases window.len(),
{
    if window.len() <= 1 {
        window[0].date as int
    } else if window.last().date > latest(window.drop_last()) {
        window.last().date as int
    } else {
        latest(window.drop_last())
    }
}

/// `seconds` in hours, to the nearest hour: the whole minutes in `seconds`,
/// divided by sixty, a half rounding up.
pub open spec fn rounded_hours(seconds: int) -> int {
    (seconds / 60 + 30) / 60
}

/// The time that a window covers, from its oldest to its newest measurement,
/// in whole hours.
pub open spec fn span_hours(window: Seq<ResultCsv>) -> int {
    rounded_hours(latest(window) - earliest(window))
}

/// The average of `window`: both means are taken over every measurement of
/// the window, and the period is the time that the window covers.
pub open spec fn average_of(window: Seq<ResultCsv>) -> Average {
    Average {
        upload: Mean::spec_new(total_upload(window), window.len()),
        download: Mean::spec_new(total_download(window), window.len()),
        period_in_hours: span_hours(window) as i64,
    }
}

/// The totals of a window are bounded by its length, and its span by the
/// range of the dates.
pub proof fn lemma_window_bounds(window: Seq<ResultCsv>)
    ensures
        total_download(window) <= window.len() * u64::MAX,
        total_upload(window) <= window.len() * u64::MAX,
        window.len() > 0 ==> 0 <= span_hours(window) <= i64::MAX,
    decreases window.len(),
{
    if window.len() > 0 {
        lemma_window_bounds(window.drop_last());
        assert(window.len() * u64::MAX == window.drop_last().len() * u64::MAX + u64::MAX)
            by (nonlinear_arith)
            requires
                window.drop_last().len() == window.len() - 1,
        ;
        lemma_earliest_is_minimum(window);
        lemma_latest_is_maximum(window);
    }
}

/// The means of the average of a window, read off: each is the total of its
/// column over the number of measurements.
pub proof fn lemma_average_of(window: Seq<ResultCsv>)
    requires
        0 < window.len() <= usize::MAX,
    ensures
        average_of(window).download.wf(),
        average_of(window).download.spec_total() == total_download(window),
        average_of(window).download.spec_samples() == window.len(),
        average_of(window).upload.wf(),
        average_of(window).upload.spec_total() == total_upload(window),
        average_of(window).upload.spec_samples() == window.len(),
        average_of(window).period_in_hours == span_hours(window),
{
    lemma_window_bounds(window);
    assert(window.len() * u64::MAX <= usize::MAX * u64::MAX) by (nonlinear_arith)
        requires
            window.len() <= usize::MAX,
    ;
    Mean::lemma_spec_new(total_download(window), window.len());
    Mean::lemma_spec_new(total_upload(window), window.len());
}

/// The oldest date of a window is the date of one of its measurements, and no
/// measurement is older.
pub proof fn lemma_earliest_is_minimum(window: Seq<ResultCsv>)
    requires
        window.len() > 0,
    ensures
        forall|i: int| 0 <= i < window.len() ==> earliest(window) <= (#[trigger] window[i]).date,
        exists|i: int| 0 <= i < window.len() && earliest(window) == (#[trigger] window[i]).date,
    decreases window.len(),
{
    if window.len() > 1 {
        let front = window.drop_last();
        lemma_earliest_is_minimum(front);
        let k = choose|i: int| 0 <= i < front.len() && earliest(front) == (#[trigger] front[i]).date;
        assert(front[k] == window[k]);
        assert forall|i: int| 0 <= i < window.len() implies earliest(window) <= (
        #[trigger] window[i]).date by {
            if i < front.len() {
                assert(front[i] == window[i]);
            }
        }
        if window.last().date < earliest(front) {
            assert(earliest(window) == window[window.len() - 1].date);
        } else {
            assert(earliest(window) == window[k].date);
        }
    } else {
        assert(earliest(window) == window[0].date);
    }
}

/// The newest date of a window is the date of one of its measurements, and no
/// measurement is newer.
pub proof fn lemma_latest_is_maximum(window: Seq<ResultCsv>)
    requires
        window.len() > 0,
    ensures
        forall|i: int| 0 <= i < window.len() ==> latest(window) >= (#[trigger] window[i]).date,
        exists|i: int| 0 <= i < window.len() && latest(window) == (#[trigger] window[i]).date,
    decreases window.len(),
{
    if window.len() > 1 {
        let front = window.drop_last();
        lemma_latest_is_maximum(front);
        let k = choose|i: int| 0 <= i < front.len() && latest(front) == (#[trigger] front[i]).date;
        assert(front[k] == window[k]);
        assert forall|i: int| 0 <= i < window.len() implies latest(window) >= (
        #[trigger] window[i]).date by {
            if i < front.len() {
                assert(front[i] == window[i]);
            }
        }
        if window.last().date > latest(front) {
            assert(latest(window) == window[window.len() - 1].date);
        } else {
            assert(latest(window) == window[k].date);
        }
    } else {
        assert(latest(window) == window[0].date);
    }
}

/// Taking one measurement out of a window lowers each total by that
/// measurement's rate.
proof fn lemma_totals_without(window: Seq<ResultCsv>, i: int)
    requires
        0 <= i < window.len(),
    ensures
        total_download(window) == total_download(window.remove(i)) + window[i].speeds_download,
        total_upload(window) == total_upload(window.remove(i)) + window[i].speeds_upload,
    decreases window.len(),
{
    if i == window.len() - 1 {
        assert(window.remove(i) =~= window.drop_last());
    } else {
        lemma_totals_without(window.drop_last(), i);
        assert(window.remove(i).drop_last() =~= window.drop_last().remove(i));
        assert(window.remove(i).last() == window.last());
    }
}

/// Two windows that hold the same measurements, in whatever order, have the
/// same totals.
pub proof fn lemma_totals_ignore_order(window: Seq<ResultCsv>, shuffled: Seq<ResultCsv>)
    requires
        window.to_multiset() == shuffled.to_multiset(),
    ensures
        window.len() == shuffled.len(),
        total_download(window) == total_download(shuffled),
        total_upload(window) == total_upload(shuffled),
    decreases window.len(),
{
    to_multiset_len(window);
    to_multiset_len(shuffled);
    if window.len() > 0 {
        let moved = window.last();
        assert(window.contains(moved));
        to_multiset_contains(window, moved);
        to_multiset_contains(shuffled, moved);
        let j = choose|j: int| 0 <= j < shuffled.len() && shuffled[j] == moved;
        assert(window.remove(window.len() - 1) =~= window.drop_last());
        to_multiset_remove(window, window.len() - 1);
        to_multiset_remove(shuffled, j);
        lemma_totals_ignore_order(window.drop_last(), shuffled.remove(j));
        lemma_totals_without(shuffled, j);
    }
}

/// Two windows that hold the same measurements, in whatever order, start and
/// end at the same dates.
pub proof fn lemma_span_ignores_order(window: Seq<ResultCsv>, shuffled: Seq<ResultCsv>)
    requires
        window.len() > 0,
        window.to_multiset() == shuffled.to_multiset(),
    ensures
        earliest(window) == earliest(shuffled),
        latest(window) == latest(shuffled),
        span_hours(window) == span_hours(shuffled),
{
    to_multiset_len(window);
    to_multiset_len(shuffled);
    lemma_earliest_is_minimum(window);
    lemma_earliest_is_minimum(shuffled);
    lemma_latest_is_maximum(window);
    lemma_latest_is_maximum(shuffled);
    assert forall|i: int| 0 <= i < window.len() implies shuffled.contains(
        #[trigger] window[i],
    ) by {
        assert(window.contains(window[i]));
        to_multiset_contains(window, window[i]);
        to_multiset_contains(shuffled, window[i]);
    }
    assert forall|i: int| 0 <= i < shuffled.len() implies window.contains(
        #[trigger] shuffled[i],
    ) by {
        assert(shuffled.contains(shuffled[i]));
        to_multiset_contains(window, shuffled[i]);
        to_multiset_contains(shuffled, shuffled[i]);
    }
}

/// The average of a window does not depend on the order of its measurements:
/// every rearrangement of a window has the same average, the same two means
/// and the same period.
pub proof fn lemma_average_ignores_order(window: Seq<ResultCsv>, shuffled: Seq<ResultCsv>)
    requires
        window.len() > 0,
        window.to_multiset() == shuffled.to_multiset(),
    ensures
        average_of(window) == average_of(shuffled),
{
    lemma_totals_ignore_order(window, shuffled);
    lemma_span_ignores_order(window, shuffled);
}

/// A window of a single measurement covers no time.
pub proof fn lemma_single_sample_spans_no_time(window: Seq<ResultCsv>)
    requires
        window.len() == 1,
    ensures
        span_hours(window) == 0,
{
}

/// Reduces a window of measurements to its average: the mean download and
/// upload rates, and the time between its oldest and its newest measurement,
/// whatever the order in which the measurements stand.
pub fn get_average(results: Vec<ResultCsv>) -> (average: Average)
    requires
        results.len() > 0,
    ensures
        average == average_of(results@),
        average.download.spec_total() == total_download(results@),
        average.download.spec_samples() == results.len(),
        average.upload.spec_total() == total_upload(results@),
        average.upload.spec_samples() == results.len(),
        average.period_in_hours == span_hours(results@),
        results.len() == 1 ==> average.period_in_hours == 0,
{
    let len: usize = results.len();
    let mut dl: u128 = 0;
    let mut ul: u128 = 0;
    let mut min_date: i64 = results[0].date;
    let mut max_date: i64 = results[0].date;
    let mut i: usize = 0;
    while i < len
        invariant
            len == results.len(),
            0 <= i <= len,
            dl == total_download(results@.take(i as int)),
            ul == total_upload(results@.take(i as int)),
            dl <= i * u64::MAX,
            ul <= i * u64::MAX,
            i == 0 ==> min_date == results[0].date && max_date == results[0].date,
            i > 0 ==> min_date == earliest(results@.take(i as int)),
            i > 0 ==> max_date == latest(results@.take(i as int)),
        decreases len - i,
    {
        let result = &results[i];
        proof {
            let next = results@.take(i + 1);
            assert(next.drop_last() =~= results@.take(i as int));
            assert(next.last() == results[i as int]);
            assert((i + 1) * u64::MAX == i * u64::MAX + u64::MAX) by (nonlinear_arith);
            assert(i * u64::MAX <= usize::MAX * u64::MAX) by (nonlinear_arith)
                requires
                    i <= usize::MAX,
            ;
        }
        dl = dl + result.speeds_download as u128;
        ul = ul + result.speeds_upload as u128;
        if result.date < min_date {
            min_date = result.date;
        }
        if result.date > max_date {
            max_date = result.date;
        }
        i = i + 1;
    }
    assert(results@.take(len as int) =~= results@);
    let seconds: u64 = (max_date as i128 - min_date as i128) as u64;
    proof {
        lemma_earliest_is_minimum(results@);
        lemma_latest_is_maximum(results@);
    }
    let period: u64 = (seconds / 60 + 30) / 60;
    let upload = Mean::new(ul, len);
    let download = Mean::new(dl, len);
    Average { upload: upload.unwrap(), download: download.unwrap(), period_in_hours: period as i64 }
}

} // verus!
