//! IRC lines: what the bridge reads from the server and what it writes.
//!
//! Tokenizing a received line and putting a command on the wire are done by
//! the `irc-proto` crate. The registration lines are built here.

use vstd::prelude::*;
use vstd::string::StringExecFns;

verus! {

/// What one received line means to the bridge.
#[derive(Clone, Debug, PartialEq, Eq)]
pub enum IrcEvent {
    /// A keepalive request carrying a token.
    Ping(String),
    /// A chat message: its channel (or target) and its text.
    PrivMsg(String, String),
    /// Anything else.
    Other,
}

/// The mathematical content of an [`IrcEvent`].
pub enum IrcEventView {
    Ping(Seq<char>),
    PrivMsg(Seq<char>, Seq<char>),
    Other,
}

impl View for IrcEvent {
    type V = IrcEventView;

    open spec fn view(&self) -> IrcEventView {
        match self {
            IrcEvent::Ping(token) => IrcEventView::Ping(token@),
            IrcEvent::PrivMsg(channel, text) => IrcEventView::PrivMsg(channel@, text@),
            IrcEvent::Other => IrcEventView::Other,
        }
    }
}

/// A command that the bridge writes.
#[derive(Clone, Debug, PartialEq, Eq)]
pub enum IrcCommand {
    /// The reply to a keepalive request, echoing its token.
    Pong(String),
    /// A chat message to a recipient.
    PrivMsg(String, String),
}

/// The mathematical content of an [`IrcCommand`].
pub enum IrcCommandView {
    Pong(Seq<char>),
    PrivMsg(Seq<char>, Seq<char>),
}

impl View for IrcCommand {
    type V = IrcCommandView;

    open spec fn view(&self) -> IrcCommandView {
        match self {
            IrcCommand::Pong(token) => IrcCommandView::Pong(token@),
            IrcCommand::PrivMsg(recipient, text) => IrcCommandView::PrivMsg(recipient@, text@),
        }
    }
}

/// Why a received line was not understood (`irc_proto::error::ProtocolError`).
#[verifier::external_type_specification]
#[verifier::external_body]
pub struct ExProtocolError(irc_proto::error::ProtocolError);

/// What the `irc-proto` crate makes of a received line, reduced to what the
/// bridge tells apart; `None` where the crate rejects the line.
pub uninterp spec fn irc_line_event(line: Seq<char>) -> Option<IrcEventView>;

/// Parses `line` as an `irc_proto::Message` (`str::parse`) and tells its
/// command's variants apart: `PING` gives its first argument, `PRIVMSG` its
/// two arguments.
///
/// Trusted: the result is the one that [`irc_line_event`] names, and the
/// call fails exactly where that is `None`.
#[verifier::external_body]
fn parse_message(line: &str) -> (r: Result<IrcEvent, irc_proto::error::ProtocolError>)
    ensures
        match r {
            Ok(event) => irc_line_event(line@) == Some(event@),
            Err(_) => irc_line_event(line@) is None,
        },
{
    Ok(
        match line.parse::<irc_proto::Message>()?.command {
            irc_proto::Command::PING(token, _) => IrcEvent::Ping(token),
            irc_proto::Command::PRIVMSG(channel, text) => IrcEvent::PrivMsg(channel, text),
            _ => IrcEvent::Other,
        },
    )
}

/// A received line that does not parse as an IRC message.
#[derive(Clone, Copy, Debug, PartialEq, Eq, Structural)]
pub struct MalformedLine;

/// Reads one received line.
pub fn parse_line(line: &str) -> (r: Result<IrcEvent, MalformedLine>)
    ensures
        match r {
            Ok(event) => irc_line_event(line@) == Some(event@),
            Err(_) => irc_line_event(line@) is None,
        },
{
    match parse_message(line) {
        Ok(event) => Ok(event),
        Err(_) => Err(MalformedLine),
    }
}

/// The last argument of a command as it stands on the wire: behind a colon
/// if it is empty, holds a space or starts with a colon, and bare otherwise.
pub open spec fn trailing(arg: Seq<char>) -> Seq<char> {
    if arg.len() == 0 || arg.contains(' ') || arg[0] == ':' {
        seq![':'] + arg
    } else {
        arg
    }
}

/// A command as `irc-proto` writes it, with the line ending `\r\n`.
pub open spec fn wire_text(command: IrcCommandView) -> Seq<char> {
    match command {
        IrcCommandView::Pong(token) => "PONG"@ + seq![' '] + trailing(token) + seq!['\r', '\n'],
        IrcCommandView::PrivMsg(recipient, text) => "PRIVMSG"@ + (if recipient.len() == 0 {
            Seq::<char>::empty()
        } else {
            seq![' ']
        }) + recipient + seq![' '] + trailing(text) + seq!['\r', '\n'],
    }
}

/// Builds the `irc_proto::Command` for `command` (`PONG` with one argument,
/// `PRIVMSG` with two), makes an `irc_proto::Message` of it with
/// `Message::from`, and formats that with `to_string`.
///
/// Trusted: the text is the command's name, its arguments separated by one
/// space each, the last one written as [`trailing`] says, and `\r\n`.
#[verifier::external_body]
fn message_text(command: &IrcCommand) -> (r: String)
    ensures
        r@ == wire_text(command@),
{
    irc_proto::Message::from(
        match command {
            IrcCommand::Pong(token) => irc_proto::Command::PONG(token.clone(), None),
            IrcCommand::PrivMsg(recipient, text) => irc_proto::Command::PRIVMSG(
                recipient.clone(),
                text.clone(),
            ),
        },
    ).to_string()
}

/// What is written to the socket for `command`: its wire text and a newline.
/// The arguments are written as they are.
pub open spec fn command_line(command: IrcCommandView) -> Seq<char> {
    wire_text(command) + seq!['\n']
}

/// Whether `s` holds a line break.
pub open spec fn has_line_break(s: Seq<char>) -> bool {
    s.contains('\r') || s.contains('\n')
}

/// `s` with every line break replaced by a space.
pub open spec fn one_line(s: Seq<char>) -> Seq<char> {
    Seq::new(
        s.len(),
        |i: int|
            if s[i] == '\r' || s[i] == '\n' {
                ' '
            } else {
                s[i]
            },
    )
}

/// The arguments of a command, in order.
pub open spec fn arguments(command: IrcCommandView) -> Seq<Seq<char>> {
    match command {
        IrcCommandView::Pong(token) => seq![token],
        IrcCommandView::PrivMsg(recipient, text) => seq![recipient, text],
    }
}

/// Whether `line` is one line as the bridge writes it: it ends with `\r\n`
/// and a newline, and holds no line break before that ending.
pub open spec fn is_one_line(line: Seq<char>) -> bool {
    &&& line.len() >= 3
    &&& line.skip(line.len() - 3) == seq!['\r', '\n', '\n']
    &&& !has_line_break(line.take(line.len() - 3))
}

/// A chat message as it is relayed: a `PRIVMSG` in which every line break of
/// the recipient and of the text is replaced by a space. A line break inside
/// the text would end the command early and hand the rest to the server as a
/// command of its own; so one relayed message is always one line.
pub open spec fn relay_command(recipient: Seq<char>, text: Seq<char>) -> IrcCommandView {
    IrcCommandView::PrivMsg(one_line(recipient), one_line(text))
}

/// A text none of whose characters is a line break holds no line break.
pub proof fn lemma_no_line_break(s: Seq<char>)
    requires
        forall|k: int| 0 <= k < s.len() ==> s[k] != '\r' && s[k] != '\n',
    ensures
        !has_line_break(s),
{
    if s.contains('\r') {
        let k = choose|k: int| 0 <= k < s.len() && s[k] == '\r';
        assert(s[k] != '\r');
    }
    if s.contains('\n') {
        let k = choose|k: int| 0 <= k < s.len() && s[k] == '\n';
        assert(s[k] != '\n');
    }
}

/// Text without line breaks is left as it is.
pub proof fn lemma_one_line_keeps(s: Seq<char>)
    requires
        !has_line_break(s),
    ensures
        one_line(s) == s,
{
    assert forall|i: int| 0 <= i < s.len() implies one_line(s)[i] == s[i] by {
        assert(s.contains(s[i]));
    }
    assert(one_line(s) =~= s);
}

/// What `one_line` gives holds no line break.
pub proof fn lemma_one_line_has_no_break(s: Seq<char>)
    ensures
        !has_line_break(one_line(s)),
{
    lemma_no_line_break(one_line(s));
}

/// Putting the last argument behind a colon adds no line break.
proof fn lemma_trailing_keeps_one_line(arg: Seq<char>)
    requires
        !has_line_break(arg),
    ensures
        !has_line_break(trailing(arg)),
{
    let t = trailing(arg);
    if t != arg {
        assert forall|k: int| 0 <= k < t.len() implies t[k] != '\r' && t[k] != '\n' by {
            if k > 0 {
                assert(t[k] == arg[k - 1]);
                assert(arg.contains(arg[k - 1]));
            }
        }
        lemma_no_line_break(t);
    }
}

/// A command whose arguments hold no line break is written as one line: its
/// text ends with `\r\n` and a newline, and there is no line break before
/// that ending.
pub proof fn lemma_command_is_one_line(command: IrcCommandView)
    requires
        forall|i: int|
            0 <= i < arguments(command).len() ==> !has_line_break(#[trigger] arguments(command)[i]),
    ensures
        is_one_line(command_line(command)),
{
    reveal_strlit("PONG");
    reveal_strlit("PRIVMSG");
    let line = command_line(command);
    let ending = seq!['\r', '\n', '\n'];
    let head = match command {
        IrcCommandView::Pong(token) => "PONG"@ + seq![' '] + trailing(token),
        IrcCommandView::PrivMsg(recipient, text) => "PRIVMSG"@ + (if recipient.len() == 0 {
            Seq::<char>::empty()
        } else {
            seq![' ']
        }) + recipient + seq![' '] + trailing(text),
    };
    assert(line =~= head + ending);
    assert(line.skip(line.len() - 3) =~= ending);
    assert(line.take(line.len() - 3) =~= head);
    assert forall|k: int| 0 <= k < head.len() implies head[k] != '\r' && head[k] != '\n' by {
        match command {
            IrcCommandView::Pong(token) => {
                assert(arguments(command)[0] == token);
                lemma_trailing_keeps_one_line(token);
                let t = trailing(token);
                if k >= 5 {
                    assert(head[k] == t[k - 5]);
                    assert(t.contains(t[k - 5]));
                }
            },
            IrcCommandView::PrivMsg(recipient, text) => {
                assert(arguments(command)[0] == recipient);
                assert(arguments(command)[1] == text);
                lemma_trailing_keeps_one_line(text);
                let t = trailing(text);
                let gap: int = if recipient.len() == 0 {
                    0
                } else {
                    1
                };
                let at = 7 + gap;
                if at <= k < at + recipient.len() {
                    assert(head[k] == recipient[k - at]);
                    assert(recipient.contains(recipient[k - at]));
                } else if k > at + recipient.len() {
                    let j = k - at - recipient.len() - 1;
                    assert(head[k] == t[j]);
                    assert(t.contains(t[j]));
                }
            },
        }
    }
    lemma_no_line_break(head);
}

/// A relayed chat message is written as one line, whatever its recipient
/// and its text hold.
pub proof fn lemma_relay_is_one_line(recipient: Seq<char>, text: Seq<char>)
    ensures
        is_one_line(command_line(relay_command(recipient, text))),
{
    let command = relay_command(recipient, text);
    lemma_one_line_has_no_break(recipient);
    lemma_one_line_has_no_break(text);
    assert(arguments(command)[0] == one_line(recipient));
    assert(arguments(command)[1] == one_line(text));
    lemma_command_is_one_line(command);
}

/// A relayed chat message without line breaks is written as it is.
pub proof fn lemma_plain_relay_is_kept(recipient: Seq<char>, text: Seq<char>)
    requires
        !has_line_break(recipient),
        !has_line_break(text),
    ensures
        relay_command(recipient, text) == IrcCommandView::PrivMsg(recipient, text),
{
    lemma_one_line_keeps(recipient);
    lemma_one_line_keeps(text);
}

/// `String::push` appends the character to the string.
pub assume_specification[ String::push ](s: &mut String, c: char)
    ensures
        final(s)@ == old(s)@.push(c),
;

/// Replaces every line break of `text` by a space.
pub fn one_line_text(text: &str) -> (r: String)
    ensures
        r@ == one_line(text@),
{
    let mut out = String::new();
    for c in it: text.chars()
        invariant
            it.seq() == text@,
            out@ == one_line(text@).take(it.index()),
    {
        let kept: char = if c == '\r' || c == '\n' {
            ' '
        } else {
            c
        };
        proof {
            let i = it.index();
            assert(one_line(text@).take(i + 1) =~= one_line(text@).take(i).push(kept));
        }
        out.push(kept);
    }
    assert(one_line(text@).take(text@.len() as int) =~= one_line(text@));
    out
}

/// The line to write for `command`, its arguments as they are.
pub fn render_command(command: &IrcCommand) -> (r: String)
    ensures
        r@ == command_line(command@),
{
    proof {
        reveal_strlit("\n");
        assert("\n"@ =~= seq!['\n']);
    }
    message_text(command).concat("\n")
}

/// The line to write for a chat message that is relayed to `recipient`.
pub fn render_relay(recipient: &str, text: &str) -> (r: String)
    ensures
        r@ == command_line(relay_command(recipient@, text@)),
        is_one_line(r@),
{
    proof {
        lemma_relay_is_one_line(recipient@, text@);
    }
    render_command(&IrcCommand::PrivMsg(one_line_text(recipient), one_line_text(text)))
}

/// Who the bridge is on IRC.
#[derive(Clone, Debug, PartialEq, Eq)]
pub struct Identity {
    /// The user name.
    pub user: String,
    /// The nickname.
    pub nick: String,
    /// The first part of the real name.
    pub first_name: String,
    /// The last part of the real name.
    pub last_name: String,
}

/// The mathematical content of an [`Identity`].
pub struct IdentityView {
    pub user: Seq<char>,
    pub nick: Seq<char>,
    pub first_name: Seq<char>,
    pub last_name: Seq<char>,
}

impl View for Identity {
    type V = IdentityView;

    open spec fn view(&self) -> IdentityView {
        IdentityView {
            user: self.user@,
            nick: self.nick@,
            first_name: self.first_name@,
            last_name: self.last_name@,
        }
    }
}

/// The first registration line: `USER <user> 0 * :<first> <last>`, the names
/// as they are configured.
pub open spec fn user_line(id: IdentityView) -> Seq<char> {
    "USER "@ + id.user + " 0 * :"@ + id.first_name + " "@ + id.last_name + "\n"@
}

/// The second registration line: `NICK <nick>`, the nickname as it is
/// configured.
pub open spec fn nick_line(id: IdentityView) -> Seq<char> {
    "NICK "@ + id.nick + "\n"@
}

impl Identity {
    /// The `USER` line that registers this identity.
    pub fn user_line(&self) -> (r: String)
        ensures
            r@ == user_line(self@),
    {
        String::from_str("USER ").concat(self.user.as_str()).concat(" 0 * :").concat(
            self.first_name.as_str(),
        ).concat(" ").concat(self.last_name.as_str()).concat("\n")
    }

    /// The `NICK` line that registers this identity.
    pub fn nick_line(&self) -> (r: String)
        ensures
            r@ == nick_line(self@),
    {
        String::from_str("NICK ").concat(self.nick.as_str()).concat("\n")
    }
}

} // verus!
