//! What the operator configures for one run.

use crate::decimal::{
    first_mark, lemma_first_mark, parse_hundredths, parse_unsigned, parsed_hundredths,
    parsed_unsigned,
};
use vstd::prelude::*;
use vstd::string::{StrSliceExecFns, StringExecFns};

verus! {

/// The whole configuration of one invocation.
#[derive(Debug)]
pub struct Args {
    /// Whether diagnostics are printed.
    pub verbose: bool,
    /// What to do, if anything was asked for.
    pub command: Option<Command>,
}

/// The two things the program does.
#[derive(Debug)]
pub enum Command {
    /// Take a measurement and log it.
    Run(Run),
    /// Check the latest measurements against what is expected.
    Alert(Alert),
}

/// Settings of a measurement run.
#[derive(Debug)]
pub struct Run {
    /// Stand in a canned measurement for the real one.
    pub simulate: bool,
    /// Where to report a failed measurement, if anywhere.
    pub email_options: Option<EmailOptions>,
    /// Print download, upload and ping once measured.
    pub show_results: bool,
}

/// Settings of an alert check.
#[derive(Debug)]
pub struct Alert {
    /// Print the message in place of sending it.
    pub simulate: bool,
    /// Address the alert goes to.
    pub email: String,
    /// Expected download rate, in hundredths of a megabit per second.
    pub expected_download: u64,
    /// Expected upload rate, in hundredths of a megabit per second.
    pub expected_upload: u64,
    /// How many percent a mean may fall short of what is expected.
    pub threshold: u8,
    /// How many of the latest measurements make up the average.
    pub count: u8,
    /// How the alert is sent.
    pub smtp: Smtp,
}

/// The mail server and the sender's identity on it.
#[derive(Debug)]
pub struct Smtp {
    /// Host name of the server.
    pub server: String,
    /// Address the mail is sent from.
    pub email: String,
    /// Port of the server.
    pub port: u16,
    /// Login, where the server asks for one.
    pub credentials: Option<Credentials>,
}

/// A login on the mail server.
#[derive(Debug)]
pub struct Credentials {
    pub username: String,
    pub password: String,
}

/// Where and how to send a report.
#[derive(Debug)]
pub struct EmailOptions {
    /// Address the report goes to.
    pub email: String,
    /// How the report is sent.
    pub smtp: Smtp,
}

/// The two parts of `text` about its colon, where it has exactly one: what
/// stands before the colon and what stands after it.
pub open spec fn colon_parts(text: Seq<char>) -> Option<(Seq<char>, Seq<char>)> {
    let colon = first_mark(text, ':');
    if colon < text.len() && first_mark(text.skip(colon + 1), ':') == text.len() - colon - 1 {
        Some((text.take(colon), text.skip(colon + 1)))
    } else {
        None
    }
}

/// The server and the port that `text` names as `server:port`, where it has
/// exactly one colon and a port number after it.
pub open spec fn server_and_port(text: Seq<char>) -> Option<(Seq<char>, u16)> {
    match colon_parts(text) {
        Some((server, port)) => match parsed_unsigned(port, 0xffff) {
            Some(port) => Some((server, port as u16)),
            None => None,
        },
        None => None,
    }
}

/// Counts the characters of `text` that stand before the first `mark`.
fn find_mark(text: &str, mark: char) -> (at: usize)
    ensures
        at == first_mark(text@, mark),
        at <= text@.len(),
{
    let len: usize = text.unicode_len();
    let mut at: usize = 0;
    while at < len && text.get_char(at) != mark
        invariant
            len == text@.len(),
            0 <= at <= len,
            forall|i: int| 0 <= i < at ==> text@[i] != mark,
        decreases len - at,
    {
        at = at + 1;
    }
    proof {
        lemma_first_mark(text@, mark, at as int);
    }
    at
}

/// Splits `text` about its colon, where it has exactly one.
pub fn split_at_colon(text: &str) -> (parts: Option<(String, String)>)
    ensures
        match parts {
            Some((before, after)) => colon_parts(text@) == Some((before@, after@)),
            None => colon_parts(text@) is None,
        },
{
    let len: usize = text.unicode_len();
    let colon: usize = find_mark(text, ':');
    if colon >= len {
        return None;
    }
    let after = text.substring_char(colon + 1, len);
    assert(after@ =~= text@.skip(colon + 1));
    if find_mark(after, ':') != len - colon - 1 {
        return None;
    }
    let before = text.substring_char(0, colon);
    assert(before@ =~= text@.take(colon as int));
    Some((String::from_str(before), String::from_str(after)))
}

/// Reads `server:port`.
pub fn parse_smtp_server(text: &str) -> (parsed: Option<(String, u16)>)
    ensures
        match parsed {
            Some((server, port)) => server_and_port(text@) == Some((server@, port)),
            None => server_and_port(text@) is None,
        },
{
    match split_at_colon(text) {
        Some((server, port)) => match parse_unsigned(port.as_str(), 0xffff) {
            Some(port) => Some((server, port as u16)),
            None => None,
        },
        None => None,
    }
}

/// Checks that `text` names a mail server as `server:port`: it is refused
/// where it does not have exactly one colon, and where what follows the colon
/// is no port number.
pub fn validate_smtp_server(text: &str) -> (checked: Result<(), String>)
    ensures
        match checked {
            Ok(_) => server_and_port(text@) is Some,
            Err(message) => match colon_parts(text@) {
                Some(_) => server_and_port(text@) is None && message@
                    == "Port is not in the correct format."@,
                None => message@ == "Not valid server"@,
            },
        },
{
    match split_at_colon(text) {
        Some((_, port)) => match parse_unsigned(port.as_str(), 0xffff) {
            Some(_) => Ok(()),
            None => Err(String::from_str("Port is not in the correct format.")),
        },
        None => Err(String::from_str("Not valid server")),
    }
}

/// Checks that `text` is an upload rate in megabits per second.
pub fn validate_upload(text: &str) -> (checked: Result<(), String>)
    ensures
        checked is Ok <==> parsed_hundredths(text@) is Some,
        checked matches Err(message) ==> message@
            == "Upload bandwidth is not in the correct format."@,
{
    match parse_hundredths(text) {
        Some(_) => Ok(()),
        None => Err(String::from_str("Upload bandwidth is not in the correct format.")),
    }
}

/// Checks that `text` is a download rate in megabits per second.
pub fn validate_download(text: &str) -> (checked: Result<(), String>)
    ensures
        checked is Ok <==> parsed_hundredths(text@) is Some,
        checked matches Err(message) ==> message@
            == "Download bandwidth is not in the correct format."@,
{
    match parse_hundredths(text) {
        Some(_) => Ok(()),
        None => Err(String::from_str("Download bandwidth is not in the correct format.")),
    }
}

/// Checks that `text` is a threshold: a whole number of at most 255.
pub fn validate_threshold(text: &str) -> (checked: Result<(), String>)
    ensures
        checked is Ok <==> parsed_unsigned(text@, 0xff) is Some,
        checked matches Err(message) ==> message@ == "Threshold is not in the correct format."@,
{
    match parse_unsigned(text, 0xff) {
        Some(_) => Ok(()),
        None => Err(String::from_str("Threshold is not in the correct format.")),
    }
}

/// Checks that `text` is a number of measurements: a whole number of at most
/// 255.
pub fn validate_count(text: &str) -> (checked: Result<(), String>)
    ensures
        checked is Ok <==> parsed_unsigned(text@, 0xff) is Some,
        checked matches Err(message) ==> message@
            == "Measurement count is not in the correct format."@,
{
    match parse_unsigned(text, 0xff) {
        Some(_) => Ok(()),
        None => Err(String::from_str("Measurement count is not in the correct format.")),
    }
}

/// The login that a user name and a password make, where both are given.
pub open spec fn credentials_of(username: Option<&str>, password: Option<&str>) -> Option<
    (Seq<char>, Seq<char>),
> {
    match (username, password) {
        (Some(username), Some(password)) => Some((username@, password@)),
        _ => None,
    }
}

impl Credentials {
    /// Makes a login of a user name and a password; there is none unless both
    /// are given.
    pub fn new_from_args(username: Option<&str>, password: Option<&str>) -> (credentials: Option<
        Credentials,
    >)
        ensures
            match credentials {
                Some(login) => credentials_of(username, password) == Some(
                    (login.username@, login.password@),
                ),
                None => credentials_of(username, password) is None,
            },
    {
        match (username, password) {
            (Some(username), Some(password)) => Some(
                Credentials {
                    username: String::from_str(username),
                    password: String::from_str(password),
                },
            ),
            _ => None,
        }
    }
}

impl Args {
    /// The configuration of an invocation on which the verbose flag was given
    /// `verbose_occurrences` times.
    pub fn new(verbose_occurrences: u64, command: Option<Command>) -> (args: Args)
        ensures
            args.verbose == (verbose_occurrences > 0),
            args.command == command,
    {
        Args { verbose: verbose_occurrences > 0, command }
    }

    /// Makes the mail server settings of what was given on the command line.
    /// There are none where no server was given, where it does not read as
    /// `server:port`, or where the sender's address is missing. The login is
    /// part of them only where both user name and password were given.
    pub fn get_smtp_from_cl(
        server_and_port_text: Option<&str>,
        username: Option<&str>,
        password: Option<&str>,
        sender_email: Option<&str>,
    ) -> (smtp: Option<Smtp>)
        ensures
            match smtp {
                Some(smtp) => {
                    &&& server_and_port_text matches Some(text) && server_and_port(text@) == Some(
                        (smtp.server@, smtp.port),
                    )
                    &&& sender_email matches Some(sender) && smtp.email@ == sender@
                    &&& match smtp.credentials {
                        Some(login) => credentials_of(username, password) == Some(
                            (login.username@, login.password@),
                        ),
                        None => credentials_of(username, password) is None,
                    }
                },
                None => sender_email is None || server_and_port_text is None || server_and_port(
                    server_and_port_text->0@,
                ) is None,
            },
    {
        let text = match server_and_port_text {
            Some(text) => text,
            None => {
                return None;
            },
        };
        let (server, port) = match parse_smtp_server(text) {
            Some(parsed) => parsed,
            None => {
                return None;
            },
        };
        let credentials = Credentials::new_from_args(username, password);
        match sender_email {
            Some(sender) => Some(
                Smtp { server, email: String::from_str(sender), port, credentials },
            ),
            None => None,
        }
    }
}

impl EmailOptions {
    /// Makes the settings for reporting by mail of an address and of mail
    /// server settings; there are none unless both are given.
    pub fn new_from_args(email: Option<&str>, smtp: Option<Smtp>) -> (options: Option<EmailOptions>)
        ensures
            match options {
                Some(options) => email matches Some(address) && options.email@ == address@
                    && smtp == Some(options.smtp),
                None => email is None || smtp is None,
            },
    {
        match (email, smtp) {
            (Some(email), Some(smtp)) => Some(EmailOptions { email: String::from_str(email), smtp }),
            _ => None,
        }
    }
}

impl Alert {
    /// Makes the settings of an alert check of what was given on the command
    /// line. There are none where one of the two rates, the threshold or the
    /// count does not read.
    pub fn new_from_args(
        simulate: bool,
        email: &str,
        download: &str,
        upload: &str,
        threshold: &str,
        count: &str,
        smtp: Smtp,
    ) -> (alert: Option<Alert>)
        ensures
            match alert {
                Some(alert) => {
                    &&& alert.simulate == simulate
                    &&& alert.email@ == email@
                    &&& parsed_hundredths(download@) == Some(alert.expected_download)
                    &&& parsed_hundredths(upload@) == Some(alert.expected_upload)
                    &&& parsed_unsigned(threshold@, 0xff) == Some(alert.threshold as u64)
                    &&& parsed_unsigned(count@, 0xff) == Some(alert.count as u64)
                    &&& alert.smtp == smtp
                },
                None => parsed_hundredths(download@) is None || parsed_hundredths(upload@) is None
                    || parsed_unsigned(threshold@, 0xff) is None || parsed_unsigned(count@, 0xff)
                    is None,
            },
    {
        match (
            parse_hundredths(download),
            parse_hundredths(upload),
            parse_unsigned(threshold, 0xff),
            parse_unsigned(count, 0xff),
        ) {
            (Some(expected_download), Some(expected_upload), Some(threshold), Some(count)) => Some(
                Alert {
                    simulate,
                    email: String::from_str(email),
                    expected_download,
                    expected_upload,
                    threshold: threshold as u8,
                    count: count as u8,
                    smtp,
                },
            ),
            _ => None,
        }
    }
}

} // verus!
