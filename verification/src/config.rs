//! The static configuration of the bridge, as plain values.

use vstd::prelude::*;
use crate::cursor::{decimal_i32, MailboxCursor};
use crate::error::BridgeError;
use crate::irc::{Identity, IdentityView};
use crate::mail::{compose_relay, relay_email, OutboundEmail};

verus! {

/// The configuration, loaded once at startup.
#[derive(Clone, Debug, PartialEq, Eq)]
pub struct Config {
    /// The address that relayed emails are sent from.
    pub from_email: String,
    /// The login of the mail account, which is also its address.
    pub imap_login: String,
    /// The host of the mail server.
    pub imap_server: String,
    /// The name of the mailbox to poll.
    pub imap_session: String,
    /// The position of the first entry to fetch, in decimal.
    pub imap_starting_at: String,
    /// The IRC server, as `host:port`.
    pub irc_server: String,
    /// The IRC user name.
    pub irc_user: String,
    /// The IRC nickname.
    pub irc_nick: String,
    /// The first part of the real name given to IRC.
    pub irc_first_name: String,
    /// The last part of the real name given to IRC.
    pub irc_last_name: String,
}

impl Config {
    /// The identity that the session registers with.
    pub fn identity(&self) -> (id: Identity)
        ensures
            id@ == (IdentityView {
                user: self.irc_user@,
                nick: self.irc_nick@,
                first_name: self.irc_first_name@,
                last_name: self.irc_last_name@,
            }),
    {
        Identity {
            user: self.irc_user.clone(),
            nick: self.irc_nick.clone(),
            first_name: self.irc_first_name.clone(),
            last_name: self.irc_last_name.clone(),
        }
    }

    /// The cursor that the poll loop starts with. A starting position that
    /// writes no 32-bit integer is a configuration error.
    pub fn starting_cursor(&self) -> (r: Result<MailboxCursor, BridgeError>)
        ensures
            match r {
                Ok(c) => decimal_i32(self.imap_starting_at@) == Some(c.position as int),
                Err(e) => decimal_i32(self.imap_starting_at@) is None && e == BridgeError::Config,
            },
    {
        MailboxCursor::from_config(self.imap_starting_at.as_str())
    }

    /// The email that relays the chat message `text` of `channel`.
    pub fn relay_email(&self, channel: &str, text: &str) -> (email: OutboundEmail)
        ensures
            email@ == relay_email(self.from_email@, self.imap_login@, channel@, text@),
    {
        compose_relay(self.from_email.as_str(), self.imap_login.as_str(), channel, text)
    }
}

} // verus!
