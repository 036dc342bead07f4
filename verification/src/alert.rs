//! The alert check: from what was read of the log to the decision whether a
//! message goes out.

use crate::args::Alert;
use crate::average::{average_of, get_average, Average, ResultCsv};
use crate::log::{checked_window, get_latest_results, has_window, window_rows, LogTail};
use crate::mail::{is_delivery_of, send_mail, Delivery};
use crate::text::{
    decimal_text, fixed_text, push_fixed, push_number, push_short, push_signed, short_text,
    signed_text,
};
use crate::threshold::{average_is_bellow, falls_short};
use vstd::prelude::*;
use vstd::string::StringExecFns;

verus! {

/// How an alert check ends where nothing went wrong.
#[derive(Debug)]
pub enum Verdict {
    /// The log does not hold enough measurements yet.
    NotEnoughResults,
    /// The average is within what is expected: nothing is to be done.
    WithinExpectation,
    /// The average falls short, and this is to be done about it.
    Breach(Delivery),
}

/// The body of the alert message: what was expected, what was found, over
/// how many hours and how many samples.
pub open spec fn alert_body(
    expected_download: u64,
    expected_upload: u64,
    average: Average,
    count: u8,
) -> Seq<char> {
    "Latest bandwidth measurements found a discrepancy.\nExpected badwidth was "@ + short_text(
        expected_download as nat,
    ) + " mpbs for download and "@ + short_text(expected_upload as nat)
        + " mbps for upload.\nFound "@ + fixed_text(average.download.spec_rounded())
        + " mbps for download and "@ + fixed_text(average.upload.spec_rounded())
        + " mbps for upload, for the last ~"@ + signed_text(average.period_in_hours as int)
        + " hours ("@ + decimal_text(count as nat) + " samples)."@
}

/// The subject of the alert message.
pub open spec fn alert_subject() -> Seq<char> {
    "Bandwith bellow expectation"@
}

/// Writes the alert message for an average that falls short of what `alert`
/// expects, and decides what becomes of it: printed in a simulation, sent to
/// the address of the alert otherwise.
pub fn send_email(average: &Average, alert: Alert) -> (delivery: Delivery)
    ensures
        is_delivery_of(
            delivery,
            alert.simulate,
            alert.email@,
            alert_subject(),
            alert_body(alert.expected_download, alert.expected_upload, *average, alert.count),
            alert.smtp,
        ),
{
    let mut body = String::from_str(
        "Latest bandwidth measurements found a discrepancy.\nExpected badwidth was ",
    );
    push_short(&mut body, alert.expected_download);
    body.append(" mpbs for download and ");
    push_short(&mut body, alert.expected_upload);
    body.append(" mbps for upload.\nFound ");
    push_fixed(&mut body, average.download.rounded());
    body.append(" mbps for download and ");
    push_fixed(&mut body, average.upload.rounded());
    body.append(" mbps for upload, for the last ~");
    push_signed(&mut body, average.period_in_hours);
    body.append(" hours (");
    push_number(&mut body, alert.count as u128);
    body.append(" samples).");
    send_mail(alert.simulate, alert.email, "Bandwith bellow expectation", body.as_str(), alert.smtp)
}

/// What is decided about a window of measurements: a breach with its
/// message where the average of the window falls short, and nothing
/// otherwise.
pub open spec fn is_verdict_on(verdict: Verdict, window: Seq<ResultCsv>, alert: Alert) -> bool {
    let average = average_of(window);
    match verdict {
        Verdict::NotEnoughResults => false,
        Verdict::WithinExpectation => !falls_short(
            average,
            alert.expected_download,
            alert.expected_upload,
            alert.threshold,
        ),
        Verdict::Breach(delivery) => falls_short(
            average,
            alert.expected_download,
            alert.expected_upload,
            alert.threshold,
        ) && is_delivery_of(
            delivery,
            alert.simulate,
            alert.email@,
            alert_subject(),
            alert_body(alert.expected_download, alert.expected_upload, average, alert.count),
            alert.smtp,
        ),
    }
}

/// Judges a window of measurements: takes its average, holds it against what
/// `alert` expects, and writes the message where it falls short.
pub fn judge(results: Vec<ResultCsv>, alert: Alert) -> (verdict: Verdict)
    requires
        results.len() > 0,
    ensures
        is_verdict_on(verdict, results@, alert),
{
    let average = get_average(results);
    if average_is_bellow(&average, &alert) {
        Verdict::Breach(send_email(&average, alert))
    } else {
        Verdict::WithinExpectation
    }
}

/// Runs the alert check on what was read of the log.
///
/// Where the log is missing or holds fewer than `config.count` measurements,
/// there is nothing to report yet. Where the window does not read as
/// `config.count` measurements, the run fails with a message. Otherwise the
/// average of the window is held against what is expected, and a breach
/// comes with the message to deliver.
pub fn alert(config: Alert, log: Option<LogTail>) -> (outcome: Result<Verdict, Option<String>>)
    requires
        config.count >= 1,
    ensures
        !has_window(log, config.count) ==> outcome matches Ok(Verdict::NotEnoughResults),
        has_window(log, config.count) ==> match checked_window(window_rows(log->0), config.count) {
            Some(window) => outcome matches Ok(verdict) && is_verdict_on(verdict, window, config),
            None => outcome matches Err(Some(message)) && message@ == "Error deserializing csv."@,
        },
{
    let results = match get_latest_results(log, config.count) {
        Ok(Some(results)) => results,
        Ok(None) => {
            return Ok(Verdict::NotEnoughResults);
        },
        Err(message) => {
            return Err(Some(message));
        },
    };
    Ok(judge(results, config))
}

/// What is printed where there is nothing to report yet.
pub fn not_enough_results_notice() -> (notice: &'static str)
    ensures
        notice@ == "Not enough results to report yet."@,
{
    "Not enough results to report yet."
}

} // verus!
