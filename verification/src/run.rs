//! The measurement run: which program takes the measurement, how a failure is
//! reported, and what is written to the log.
//!
//! Running the program and writing the files is the caller's part; the texts
//! and the decisions are made here.

use crate::args::EmailOptions;
use crate::mail::{is_delivery_of, send_mail, Delivery};
use crate::text::{decimal_text, push_number};
use vstd::prelude::*;
use vstd::string::StringExecFns;

verus! {

/// The subject of the report of a failed measurement.
pub open spec fn failure_subject() -> Seq<char> {
    "Could not measure bandwidth"@
}

/// Reports a failed measurement by mail where the run was given somewhere to
/// report to: the message goes to that address, printed in a simulation and
/// sent otherwise. Without mail settings nothing is to be done.
pub fn send_email_on_error(
    simulate: bool,
    message_body: &str,
    optinal_email_options: Option<EmailOptions>,
) -> (delivery: Option<Delivery>)
    ensures
        match optinal_email_options {
            Some(email_options) => delivery matches Some(report) && is_delivery_of(
                report,
                simulate,
                email_options.email@,
                failure_subject(),
                message_body@,
                email_options.smtp,
            ),
            None => delivery is None,
        },
{
    match optinal_email_options {
        Some(email_options) => Some(
            send_mail(
                simulate,
                email_options.email,
                "Could not measure bandwidth",
                message_body,
                email_options.smtp,
            ),
        ),
        None => None,
    }
}

/// The name of the program that takes the measurement: `echo` in a
/// simulation, `speedtest` otherwise.
pub fn speedtest_binary(simulate: bool) -> (name: &'static str)
    ensures
        name@ == if simulate {
            "echo"@
        } else {
            "speedtest"@
        },
{
    if simulate {
        "echo"
    } else {
        "speedtest"
    }
}

/// The measurement that a simulation stands in for the real one.
pub open spec fn simulated_measurement() -> Seq<char> {
    "{\"type\":\"result\",\"timestamp\":\"2021-01-03T12:10:00Z\",\"ping\":{\"jitter\":0.28499999999999998,\"latency\":5.7279999999999998},\"download\":{\"bandwidth\":20309419,\"bytes\":176063552,\"elapsed\":8815},\"upload\":{\"bandwidth\":13206885,\"bytes\":195610380,\"elapsed\":15015},\"packetLoss\":0,\"isp\":\"Some ISP\",\"interface\":{\"internalIp\":\"192.168.1.2\",\"name\":\"eth0\",\"macAddr\":\"99:99:99:99:99:99\",\"isVpn\":false,\"externalIp\":\"84.6.0.1\"},\"server\":{\"id\":99999,\"name\":\"Some Server\",\"location\":\"S\u{e3}o Paulo\",\"country\":\"Brazil\",\"host\":\"someserver.nonexistentxyz.com\",\"port\":10000,\"ip\":\"15.22.77.1\"},\"result\":{\"id\":\"babad438-ac4b-47db-bc28-2de7e257bd28\",\"url\":\"https://www.fakespeedtest.net/result/c/babad438-ac4b-47db-bc28-2de7e257bd28\"}}"@
}

/// The arguments that the measuring program is run with. In a simulation
/// `echo` is handed the canned measurement; the real program is told to
/// accept its terms and to answer in JSON without a progress display.
pub fn speedtest_args(simulate: bool) -> (args: Vec<&'static str>)
    ensures
        simulate ==> args.len() == 1 && args[0]@ == simulated_measurement(),
        !simulate ==> args.len() == 4 && args[0]@ == "--accept-license"@ && args[1]@
            == "--accept-gdpr"@ && args[2]@ == "--format=json"@ && args[3]@ == "--progress=no"@,
{
    let mut args: Vec<&'static str> = Vec::new();
    if simulate {
        args.push(
            "{\"type\":\"result\",\"timestamp\":\"2021-01-03T12:10:00Z\",\"ping\":{\"jitter\":0.28499999999999998,\"latency\":5.7279999999999998},\"download\":{\"bandwidth\":20309419,\"bytes\":176063552,\"elapsed\":8815},\"upload\":{\"bandwidth\":13206885,\"bytes\":195610380,\"elapsed\":15015},\"packetLoss\":0,\"isp\":\"Some ISP\",\"interface\":{\"internalIp\":\"192.168.1.2\",\"name\":\"eth0\",\"macAddr\":\"99:99:99:99:99:99\",\"isVpn\":false,\"externalIp\":\"84.6.0.1\"},\"server\":{\"id\":99999,\"name\":\"Some Server\",\"location\":\"S\u{e3}o Paulo\",\"country\":\"Brazil\",\"host\":\"someserver.nonexistentxyz.com\",\"port\":10000,\"ip\":\"15.22.77.1\"},\"result\":{\"id\":\"babad438-ac4b-47db-bc28-2de7e257bd28\",\"url\":\"https://www.fakespeedtest.net/result/c/babad438-ac4b-47db-bc28-2de7e257bd28\"}}",
        );
    } else {
        args.push("--accept-license");
        args.push("--accept-gdpr");
        args.push("--format=json");
        args.push("--progress=no");
    }
    args
}

/// Settles where the measuring program is, and what it is run with. The one
/// found on the search path is taken; failing that, the one in the working
/// directory; failing both, the run cannot go on.
pub fn find_speedtest_binary_and_args<P>(
    simulate: bool,
    on_search_path: Option<P>,
    in_working_directory: Option<P>,
) -> (found: Result<(P, Vec<&'static str>), String>)
    ensures
        match found {
            Ok((binary, args)) => {
                &&& on_search_path is Some || in_working_directory is Some
                &&& binary == if on_search_path is Some {
                    on_search_path->0
                } else {
                    in_working_directory->0
                }
                &&& simulate ==> args.len() == 1 && args[0]@ == simulated_measurement()
                &&& !simulate ==> args.len() == 4 && args[0]@ == "--accept-license"@ && args[1]@
                    == "--accept-gdpr"@ && args[2]@ == "--format=json"@ && args[3]@
                    == "--progress=no"@
            },
            Err(message) => on_search_path is None && in_working_directory is None && message@
                == "Could not find speedtest binary."@,
        },
{
    let args = speedtest_args(simulate);
    match on_search_path {
        Some(binary) => Ok((binary, args)),
        None => match in_working_directory {
            Some(binary) => Ok((binary, args)),
            None => Err(String::from_str("Could not find speedtest binary.")),
        },
    }
}

/// What a measuring program that ended in failure is reported with: what
/// it printed, where it printed anything, and its errors.
pub open spec fn speedtest_failure_text(output: Seq<char>, errors: Seq<char>) -> Seq<char> {
    if output.len() == 0 {
        "Speedtest executable exited with an error and no output. Errors:\n"@ + errors
    } else {
        "Speedtest executable exited with an error. Output:\n"@ + output + "\nErrors:\n"@ + errors
    }
}

/// Writes the report of a measuring program that ended in failure.
pub fn speedtest_failure(output: &str, errors: &str) -> (message: String)
    ensures
        message@ == speedtest_failure_text(output@, errors@),
{
    if output.is_empty() {
        let mut message = String::from_str(
            "Speedtest executable exited with an error and no output. Errors:\n",
        );
        message.append(errors);
        message
    } else {
        let mut message = String::from_str("Speedtest executable exited with an error. Output:\n");
        message.append(output);
        message.append("\nErrors:\n");
        message.append(errors);
        message
    }
}

/// A measuring program that ended in failure: what the caller is told, and
/// the report of it that is to be delivered, if any.
#[derive(Debug)]
pub struct FailedMeasurement {
    /// What went wrong, for the caller.
    pub error_message: String,
    /// The report by mail, where the run was given somewhere to report to.
    pub report: Option<Delivery>,
}

/// Reads off how the measuring program ended. Where it ended well, the
/// measurement is what it printed. Where it did not, the failure is written out
/// from what it printed and from its errors, and is reported by mail where the
/// run was given somewhere to report to.
pub fn run_speedtest(
    simulate: bool,
    email_options: Option<EmailOptions>,
    success: bool,
    output: &str,
    errors: &str,
) -> (measured: Result<String, FailedMeasurement>)
    ensures
        match measured {
            Ok(json) => success && json@ == output@,
            Err(failed) => {
                &&& !success
                &&& failed.error_message@ == speedtest_failure_text(output@, errors@)
                &&& match email_options {
                    Some(options) => failed.report matches Some(report) && is_delivery_of(
                        report,
                        simulate,
                        options.email@,
                        failure_subject(),
                        speedtest_failure_text(output@, errors@),
                        options.smtp,
                    ),
                    None => failed.report is None,
                }
            },
        },
{
    if success {
        Ok(String::from_str(output))
    } else {
        let error_message = speedtest_failure(output, errors);
        let report = send_email_on_error(simulate, error_message.as_str(), email_options);
        Err(FailedMeasurement { error_message, report })
    }
}

/// Adds to the report of a failed measurement that the mail about it failed
/// too, and why.
pub fn with_mail_failure(error_message: String, mail_error: &str) -> (message: String)
    ensures
        message@ == error_message@ + "\nAlso, could not send e-mail. Error:\n"@ + mail_error@,
{
    let mut message = error_message;
    message.append("\nAlso, could not send e-mail. Error:\n");
    message.append(mail_error);
    message
}

/// Writes the report of a measurement that could not be read: the text as it
/// came, and what was wrong with it.
pub fn parse_failure(json: &str, error: &str) -> (message: String)
    ensures
        message@ == "Could not parse result. Json:\n"@ + json@ + "\nError:"@ + error@,
{
    let mut message = String::from_str("Could not parse result. Json:\n");
    message.append(json);
    message.append("\nError:");
    message.append(error);
    message
}

/// One measurement as it goes into the log. The figures come as the text
/// that is written: the rates with two decimal places.
#[derive(Debug)]
pub struct SummaryRow {
    /// When the measurement was taken, as `YYYY/MM/DD HH:MM:SS` in UTC.
    pub date: String,
    /// Latency in milliseconds.
    pub ping: String,
    /// Download rate in megabits per second.
    pub download: String,
    /// Upload rate in megabits per second.
    pub upload: String,
    pub client_ip: String,
    pub client_isp: String,
    pub server_host: String,
    pub server_location: String,
    pub server_country: String,
    pub server_id: u32,
}

/// The first line of the log, which names its columns.
pub open spec fn summary_header_text() -> Seq<char> {
    "date,ping,speeds_download,speeds_upload,client_ip,client_isp,server_host,server_lat,server_lon,server_location,server_country,location_distance,server_ping,server_id\n"@
}

/// The first line of the log, which names its columns, with its line feed.
pub fn summary_header() -> (header: &'static str)
    ensures
        header@ == summary_header_text(),
{
    "date,ping,speeds_download,speeds_upload,client_ip,client_isp,server_host,server_lat,server_lon,server_location,server_country,location_distance,server_ping,server_id\n"
}

/// The line of the log for one measurement: its fields in the order of the
/// header, the descriptive ones between quotes, the ones that are not
/// measured as `null`, and a line feed at the end.
pub open spec fn summary_line_text(row: SummaryRow) -> Seq<char> {
    row.date@ + ","@ + row.ping@ + ","@ + row.download@ + ","@ + row.upload@ + ",\""@
        + row.client_ip@ + "\",\""@ + row.client_isp@ + "\",\""@ + row.server_host@
        + "\",null,null,\""@ + row.server_location@ + "\",\""@ + row.server_country@
        + "\",null,null,"@ + decimal_text(row.server_id as nat) + "\n"@
}

/// Writes the line of the log for one measurement.
pub fn summary_line(row: &SummaryRow) -> (line: String)
    ensures
        line@ == summary_line_text(*row),
{
    let mut line = String::from_str(row.date.as_str());
    line.append(",");
    line.append(row.ping.as_str());
    line.append(",");
    line.append(row.download.as_str());
    line.append(",");
    line.append(row.upload.as_str());
    line.append(",\"");
    line.append(row.client_ip.as_str());
    line.append("\",\"");
    line.append(row.client_isp.as_str());
    line.append("\",\"");
    line.append(row.server_host.as_str());
    line.append("\",null,null,\"");
    line.append(row.server_location.as_str());
    line.append("\",\"");
    line.append(row.server_country.as_str());
    line.append("\",null,null,");
    push_number(&mut line, row.server_id as u128);
    line.append("\n");
    line
}

} // verus!
