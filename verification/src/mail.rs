//! What is to be mailed, and how a mail is handed on.
//!
//! Nothing is sent from here. A [`Delivery`] says what the caller is to do:
//! print the message, or send it through the mail server.

use crate::args::Smtp;
use vstd::prelude::*;
use vstd::string::StringExecFns;

verus! {

/// A message on its way to the mail server.
#[derive(Debug)]
pub struct Mail {
    /// Address the message goes to.
    pub email_address: String,
    pub subject: String,
    pub message_body: String,
    /// The server to send it through, and the sender.
    pub smtp: Smtp,
}

/// What is to be done with a message.
#[derive(Debug)]
pub enum Delivery {
    /// Nothing is sent: this text goes to standard output, followed by a line
    /// feed.
    Print(String),
    /// The message is sent.
    Send(Mail),
}

/// What a simulated delivery prints: the addressee, the subject and the body
/// between two rules.
pub open spec fn simulated_text(email_address: Seq<char>, subject: Seq<char>, body: Seq<char>)
    -> Seq<char> {
    "--------------\nWould be sending e-mail message to: "@ + email_address + "\nSubject: "@
        + subject + "\nBody:\n"@ + body + "\n--------------\n"@
}

/// Whether `delivery` is what becomes of the given message: printed where
/// `simulate` is set, sent as it stands otherwise.
pub open spec fn is_delivery_of(
    delivery: Delivery,
    simulate: bool,
    email_address: Seq<char>,
    subject: Seq<char>,
    body: Seq<char>,
    smtp: Smtp,
) -> bool {
    match delivery {
        Delivery::Print(text) => simulate && text@ == simulated_text(email_address, subject, body),
        Delivery::Send(mail) => !simulate && mail.email_address@ == email_address && mail.subject@
            == subject && mail.message_body@ == body && mail.smtp == smtp,
    }
}

/// Decides what becomes of a message. In a simulation it is only shown; else
/// it is sent to `email_address` through `smtp`.
pub fn send_mail(
    simulate: bool,
    email_address: String,
    subject: &str,
    message_body: &str,
    smtp: Smtp,
) -> (delivery: Delivery)
    ensures
        is_delivery_of(delivery, simulate, email_address@, subject@, message_body@, smtp),
{
    if simulate {
        let mut text = String::from_str("--------------\nWould be sending e-mail message to: ");
        text.append(email_address.as_str());
        text.append("\nSubject: ");
        text.append(subject);
        text.append("\nBody:\n");
        text.append(message_body);
        text.append("\n--------------\n");
        Delivery::Print(text)
    } else {
        Delivery::Send(
            Mail {
                email_address,
                subject: String::from_str(subject),
                message_body: String::from_str(message_body),
                smtp,
            },
        )
    }
}

/// What a caller is told once the mail server has answered: nothing where the
/// message was taken, and that it could not be sent otherwise.
pub fn sending_result(sent: bool) -> (result: Result<(), String>)
    ensures
        sent <==> result is Ok,
        result matches Err(message) ==> message@ == "Could not send email."@,
{
    if sent {
        Ok(())
    } else {
        Err(String::from_str("Could not send email."))
    }
}

} // verus!
