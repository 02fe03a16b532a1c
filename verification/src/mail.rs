//! The mail dispatcher: the email that relays one IRC chat message.

use vstd::prelude::*;
use vstd::string::StringExecFns;

verus! {

/// An email to send.
#[derive(Clone, Debug, PartialEq, Eq)]
pub struct OutboundEmail {
    /// The sender mailbox.
    pub from: String,
    /// The mailbox that replies go to.
    pub reply_to: String,
    /// The recipient mailbox.
    pub to: String,
    /// The subject line.
    pub subject: String,
    /// The text.
    pub body: String,
}

/// The mathematical content of an [`OutboundEmail`].
pub struct OutboundEmailView {
    pub from: Seq<char>,
    pub reply_to: Seq<char>,
    pub to: Seq<char>,
    pub subject: Seq<char>,
    pub body: Seq<char>,
}

impl View for OutboundEmail {
    type V = OutboundEmailView;

    open spec fn view(&self) -> OutboundEmailView {
        OutboundEmailView {
            from: self.from@,
            reply_to: self.reply_to@,
            to: self.to@,
            subject: self.subject@,
            body: self.body@,
        }
    }
}

/// A mailbox with the bridge's display name: `WeRust <address>`.
pub open spec fn named_mailbox(address: Seq<char>) -> Seq<char> {
    "WeRust <"@ + address + ">"@
}

/// The email that relays the chat message `text` of `channel`. It is sent
/// from the configured sender address to the mail account's own login, which
/// also takes the replies; the subject names the channel and the body is the
/// text as it came.
pub open spec fn relay_email(
    from_email: Seq<char>,
    imap_login: Seq<char>,
    channel: Seq<char>,
    text: Seq<char>,
) -> OutboundEmailView {
    OutboundEmailView {
        from: named_mailbox(from_email),
        reply_to: named_mailbox(imap_login),
        to: imap_login,
        subject: "FromIRC "@ + channel,
        body: text,
    }
}

/// Builds the email that relays one chat message.
pub fn compose_relay(from_email: &str, imap_login: &str, channel: &str, text: &str) -> (email:
    OutboundEmail)
    ensures
        email@ == relay_email(from_email@, imap_login@, channel@, text@),
{
    OutboundEmail {
        from: String::from_str("WeRust <").concat(from_email).concat(">"),
        reply_to: String::from_str("WeRust <").concat(imap_login).concat(">"),
        to: String::from_str(imap_login),
        subject: String::from_str("FromIRC ").concat(channel),
        body: String::from_str(text),
    }
}

} // verus!
