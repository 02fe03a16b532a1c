//! The IRC session loop, one event at a time.
//!
//! The session owns the socket. The caller connects, reads lines and performs
//! the writes; [`session_step`] decides what is written and what is handed to
//! the mail dispatcher. Every write to the socket, keepalive replies and
//! relayed chat messages alike, comes out of this one function.

use vstd::prelude::*;
use crate::error::BridgeError;
use crate::irc::{
    command_line, has_line_break, irc_line_event, is_one_line, lemma_command_is_one_line,
    lemma_relay_is_one_line, nick_line, parse_line, relay_command, render_command, render_relay,
    user_line, Identity, IdentityView, IrcCommand, IrcCommandView, IrcEvent, IrcEventView,
};
use crate::transform::{ForwardRequest, ForwardRequestView};

verus! {

/// Where the session stands.
#[derive(Clone, Copy, Debug, PartialEq, Eq, Structural)]
pub enum SessionState {
    /// The TCP connection is being opened.
    Connecting,
    /// The registration lines are being written.
    Registering,
    /// Lines are read and answered.
    Reading,
    /// The session has ended: cleanly, or with the failure given.
    Closed(Option<BridgeError>),
}

/// What happened on the socket or on the channel from the poll loop.
#[derive(Clone, Debug, PartialEq, Eq)]
pub enum SessionEvent {
    /// The connection is open.
    Connected,
    /// The writes of the last step are done.
    Flushed,
    /// A line was read.
    Line(String),
    /// The poll loop asks for a chat message to be sent.
    Relay(ForwardRequest),
    /// The stream ended.
    EndOfStream,
    /// Connecting, reading or writing failed.
    Failed(BridgeError),
}

/// The mathematical content of a [`SessionEvent`].
pub enum SessionEventView {
    Connected,
    Flushed,
    Line(Seq<char>),
    Relay(ForwardRequestView),
    EndOfStream,
    Failed(BridgeError),
}

impl View for SessionEvent {
    type V = SessionEventView;

    open spec fn view(&self) -> SessionEventView {
        match self {
            SessionEvent::Connected => SessionEventView::Connected,
            SessionEvent::Flushed => SessionEventView::Flushed,
            SessionEvent::Line(line) => SessionEventView::Line(line@),
            SessionEvent::Relay(request) => SessionEventView::Relay(request@),
            SessionEvent::EndOfStream => SessionEventView::EndOfStream,
            SessionEvent::Failed(error) => SessionEventView::Failed(*error),
        }
    }
}

/// What the caller does for the session.
#[derive(Clone, Debug, PartialEq, Eq)]
pub enum SessionAction {
    /// Write this text to the socket.
    Write(String),
    /// Hand this chat message, channel and text, to the mail dispatcher.
    Mail(String, String),
}

/// The mathematical content of a [`SessionAction`].
pub enum SessionActionView {
    Write(Seq<char>),
    Mail(Seq<char>, Seq<char>),
}

impl View for SessionAction {
    type V = SessionActionView;

    open spec fn view(&self) -> SessionActionView {
        match self {
            SessionAction::Write(text) => SessionActionView::Write(text@),
            SessionAction::Mail(channel, text) => SessionActionView::Mail(channel@, text@),
        }
    }
}

/// The views of a list of actions, in order.
pub open spec fn actions_view(actions: Seq<SessionAction>) -> Seq<SessionActionView> {
    Seq::new(actions.len(), |i: int| actions[i]@)
}

/// The write that answers a keepalive request: a `PONG` that echoes the
/// token as it came.
pub open spec fn pong_write(token: Seq<char>) -> SessionActionView {
    SessionActionView::Write(command_line(IrcCommandView::Pong(token)))
}

/// The write that relays a message from the poll loop: one `PRIVMSG` line.
/// Line breaks in the recipient or the body are written as spaces.
pub open spec fn relay_write(request: ForwardRequestView) -> SessionActionView {
    SessionActionView::Write(command_line(relay_command(request.recipient, request.body)))
}

/// What a received message calls for: a keepalive request is answered with
/// one `PONG`, a chat message goes to the mail dispatcher, and anything else
/// is ignored.
pub open spec fn reaction(event: IrcEventView) -> Seq<SessionActionView> {
    match event {
        IrcEventView::Ping(token) => seq![pong_write(token)],
        IrcEventView::PrivMsg(channel, text) => seq![SessionActionView::Mail(channel, text)],
        IrcEventView::Other => Seq::empty(),
    }
}

/// The state and the actions that follow from one event.
///
/// * `Connecting`, on `Connected`: the two registration lines are written
///   and the session is `Registering`.
/// * `Registering`, on `Flushed`: the session is `Reading`.
/// * `Reading`, on a line: the line is parsed and answered as [`reaction`]
///   says; a line that does not parse ends the session with a protocol error.
/// * `Reading`, on a relay request: the chat message is written.
/// * On the end of the stream the session closes cleanly.
/// * On a failure, of whatever kind and in whatever open state, the session
///   closes with that failure. Nothing more is written or handed on, and the
///   session does not connect again.
/// * A closed session stays closed, and an event that the state does not
///   expect changes nothing.
pub open spec fn next(state: SessionState, id: IdentityView, event: SessionEventView) -> (
    SessionState,
    Seq<SessionActionView>,
) {
    match state {
        SessionState::Closed(_) => (state, Seq::empty()),
        _ => match event {
            SessionEventView::EndOfStream => (SessionState::Closed(None), Seq::empty()),
            SessionEventView::Failed(error) => (SessionState::Closed(Some(error)), Seq::empty()),
            SessionEventView::Connected => if state == SessionState::Connecting {
                (
                    SessionState::Registering,
                    seq![
                        SessionActionView::Write(user_line(id)),
                        SessionActionView::Write(nick_line(id)),
                    ],
                )
            } else {
                (state, Seq::empty())
            },
            SessionEventView::Flushed => if state == SessionState::Registering {
                (SessionState::Reading, Seq::empty())
            } else {
                (state, Seq::empty())
            },
            SessionEventView::Line(line) => if state == SessionState::Reading {
                match irc_line_event(line) {
                    Some(message) => (SessionState::Reading, reaction(message)),
                    None => (SessionState::Closed(Some(BridgeError::Protocol)), Seq::empty()),
                }
            } else {
                (state, Seq::empty())
            },
            SessionEventView::Relay(request) => if state == SessionState::Reading {
                (SessionState::Reading, seq![relay_write(request)])
            } else {
                (state, Seq::empty())
            },
        },
    }
}

/// The actions that a received message calls for.
pub fn react(event: IrcEvent) -> (actions: Vec<SessionAction>)
    ensures
        actions_view(actions@) == reaction(event@),
{
    let mut actions: Vec<SessionAction> = Vec::new();
    match event {
        IrcEvent::Ping(token) => {
            let line = render_command(&IrcCommand::Pong(token));
            actions.push(SessionAction::Write(line));
        },
        IrcEvent::PrivMsg(channel, text) => {
            actions.push(SessionAction::Mail(channel, text));
        },
        IrcEvent::Other => {},
    }
    assert(actions_view(actions@) =~= reaction(event@));
    actions
}

/// One step of the session: the next state and what the caller does now, in
/// this order.
pub fn session_step(state: SessionState, id: &Identity, event: SessionEvent) -> (r: (
    SessionState,
    Vec<SessionAction>,
))
    ensures
        (r.0, actions_view(r.1@)) == next(state, id@, event@),
{
    let mut actions: Vec<SessionAction> = Vec::new();
    let ghost expected = next(state, id@, event@);
    if let SessionState::Closed(_) = state {
        assert(actions_view(actions@) =~= expected.1);
        return (state, actions);
    }
    let after = match event {
        SessionEvent::EndOfStream => SessionState::Closed(None),
        SessionEvent::Failed(error) => SessionState::Closed(Some(error)),
        SessionEvent::Connected => match state {
            SessionState::Connecting => {
                actions.push(SessionAction::Write(id.user_line()));
                actions.push(SessionAction::Write(id.nick_line()));
                SessionState::Registering
            },
            _ => state,
        },
        SessionEvent::Flushed => match state {
            SessionState::Registering => SessionState::Reading,
            _ => state,
        },
        SessionEvent::Line(line) => match state {
            SessionState::Reading => match parse_line(line.as_str()) {
                Ok(message) => {
                    actions = react(message);
                    SessionState::Reading
                },
                Err(_) => SessionState::Closed(Some(BridgeError::Protocol)),
            },
            _ => state,
        },
        SessionEvent::Relay(request) => match state {
            SessionState::Reading => {
                let line = render_relay(request.recipient.as_str(), request.body.as_str());
                actions.push(SessionAction::Write(line));
                SessionState::Reading
            },
            _ => state,
        },
    };
    assert(actions_view(actions@) =~= expected.1);
    (after, actions)
}

/// The state after a sequence of events.
pub open spec fn state_after(state: SessionState, id: IdentityView, events: Seq<SessionEventView>)
    -> SessionState
    decreases events.len(),
{
    if events.len() == 0 {
        state
    } else {
        next(state_after(state, id, events.drop_last()), id, events.last()).0
    }
}

/// Everything the caller is asked to do over a sequence of events, in order:
/// what the earlier events called for, and then what the last one calls for.
pub open spec fn trace(state: SessionState, id: IdentityView, events: Seq<SessionEventView>) -> Seq<
    SessionActionView,
>
    decreases events.len(),
{
    if events.len() == 0 {
        Seq::empty()
    } else {
        trace(state, id, events.drop_last()) + next(
            state_after(state, id, events.drop_last()),
            id,
            events.last(),
        ).1
    }
}

/// A session that reads a keepalive request writes exactly one `PONG` that
/// echoes the token.
pub proof fn lemma_ping_gets_one_pong(id: IdentityView, line: Seq<char>, token: Seq<char>)
    requires
        irc_line_event(line) == Some(IrcEventView::Ping(token)),
    ensures
        next(SessionState::Reading, id, SessionEventView::Line(line)) == (
            SessionState::Reading,
            seq![pong_write(token)],
        ),
{
}

/// A chat message that is read goes to the mail dispatcher once, with its
/// channel and its text unchanged, and nothing is written for it.
pub proof fn lemma_privmsg_gets_one_mail(
    id: IdentityView,
    line: Seq<char>,
    channel: Seq<char>,
    text: Seq<char>,
)
    requires
        irc_line_event(line) == Some(IrcEventView::PrivMsg(channel, text)),
    ensures
        next(SessionState::Reading, id, SessionEventView::Line(line)) == (
            SessionState::Reading,
            seq![SessionActionView::Mail(channel, text)],
        ),
{
}

/// A failure ends the session with that failure, whatever its kind and
/// whatever the open state: nothing is written, nothing is handed on, and
/// every later event changes nothing.
pub proof fn lemma_failure_closes(
    state: SessionState,
    id: IdentityView,
    error: BridgeError,
    later: SessionEventView,
)
    requires
        !(state is Closed),
    ensures
        next(state, id, SessionEventView::Failed(error)) == (
            SessionState::Closed(Some(error)),
            Seq::<SessionActionView>::empty(),
        ),
        next(SessionState::Closed(Some(error)), id, later) == (
            SessionState::Closed(Some(error)),
            Seq::<SessionActionView>::empty(),
        ),
{
}

/// A relay request gives exactly one write, and that write is one whole
/// line, whatever the recipient and the body hold.
pub proof fn lemma_relay_is_one_whole_line(id: IdentityView, request: ForwardRequestView)
    ensures
        next(SessionState::Reading, id, SessionEventView::Relay(request)) == (
            SessionState::Reading,
            seq![relay_write(request)],
        ),
        is_one_line(relay_write(request)->Write_0),
{
    lemma_relay_is_one_line(request.recipient, request.body);
}

/// The `PONG` for a token without a line break is one whole line.
pub proof fn lemma_pong_is_one_whole_line(token: Seq<char>)
    requires
        !has_line_break(token),
    ensures
        is_one_line(pong_write(token)->Write_0),
{
    let command = IrcCommandView::Pong(token);
    assert(crate::irc::arguments(command)[0] == token);
    lemma_command_is_one_line(command);
}

/// On connecting, the session asks for the two registration lines, built
/// from the configured names as they are, and for no more.
pub proof fn lemma_registration_is_two_lines(id: IdentityView)
    ensures
        next(SessionState::Connecting, id, SessionEventView::Connected) == (
            SessionState::Registering,
            seq![
                SessionActionView::Write(user_line(id)),
                SessionActionView::Write(nick_line(id)),
            ],
        ),
{
}

/// Nothing is written to the socket except on connecting, when the two
/// registration lines go out, and while reading. A closed session asks for
/// nothing at all.
pub proof fn lemma_writes_need_an_open_socket(
    state: SessionState,
    id: IdentityView,
    event: SessionEventView,
    i: int,
)
    requires
        0 <= i < next(state, id, event).1.len(),
    ensures
        !(state is Closed),
        next(state, id, event).1[i] is Write ==> state == SessionState::Reading || (state
            == SessionState::Connecting && event is Connected),
        next(state, id, event).1[i] is Mail ==> state == SessionState::Reading,
{
}

/// Running over two sequences of events one after the other is running over
/// the second from where the first has led.
pub proof fn lemma_trace_append(
    state: SessionState,
    id: IdentityView,
    first: Seq<SessionEventView>,
    second: Seq<SessionEventView>,
)
    ensures
        state_after(state, id, first + second) == state_after(
            state_after(state, id, first),
            id,
            second,
        ),
        trace(state, id, first + second) == trace(state, id, first) + trace(
            state_after(state, id, first),
            id,
            second,
        ),
    decreases second.len(),
{
    if second.len() == 0 {
        assert(first + second =~= first);
        assert(trace(state, id, first) + Seq::<SessionActionView>::empty() =~= trace(
            state,
            id,
            first,
        ));
    } else {
        lemma_trace_append(state, id, first, second.drop_last());
        assert((first + second).drop_last() =~= first + second.drop_last());
        assert((first + second).last() == second.last());
        let mid = state_after(state, id, first);
        let step = next(state_after(mid, id, second.drop_last()), id, second.last()).1;
        assert(trace(state, id, first) + trace(mid, id, second.drop_last()) + step =~= trace(
            state,
            id,
            first,
        ) + (trace(mid, id, second.drop_last()) + step));
    }
}

/// What a sequence of received messages calls for, in order.
pub open spec fn reactions(events: Seq<IrcEventView>) -> Seq<SessionActionView>
    decreases events.len(),
{
    if events.len() == 0 {
        Seq::empty()
    } else {
        reactions(events.drop_last()) + reaction(events.last())
    }
}

/// The events of reading `lines` one after the other.
pub open spec fn lines_read(lines: Seq<Seq<char>>) -> Seq<SessionEventView> {
    Seq::new(lines.len(), |i: int| SessionEventView::Line(lines[i]))
}

/// A session that reads lines which all parse answers them in order and
/// goes on reading: the writes are the `PONG`s for the keepalive requests,
/// each with its token, the chat messages go to the mail dispatcher with
/// their channel and text, and any other line calls for nothing.
pub proof fn lemma_lines_are_answered_in_order(
    id: IdentityView,
    lines: Seq<Seq<char>>,
    events: Seq<IrcEventView>,
)
    requires
        lines.len() == events.len(),
        forall|i: int| 0 <= i < lines.len() ==> irc_line_event(#[trigger] lines[i]) == Some(events[i]),
    ensures
        state_after(SessionState::Reading, id, lines_read(lines)) == SessionState::Reading,
        trace(SessionState::Reading, id, lines_read(lines)) == reactions(events),
        next(SessionState::Reading, id, SessionEventView::EndOfStream) == (
            SessionState::Closed(None),
            Seq::<SessionActionView>::empty(),
        ),
    decreases lines.len(),
{
    if lines.len() > 0 {
        lemma_lines_are_answered_in_order(id, lines.drop_last(), events.drop_last());
        assert(lines_read(lines).drop_last() =~= lines_read(lines.drop_last()));
        assert(lines_read(lines).last() == SessionEventView::Line(lines.last()));
        assert(irc_line_event(lines[lines.len() - 1]) == Some(events[lines.len() - 1]));
    }
}

/// The `PONG` for a keepalive request is written before the next line is
/// processed: whatever came before and whatever comes after, the trace is
/// what the earlier events called for, then the one `PONG`, then what the
/// later events call for.
pub proof fn lemma_pong_precedes_next_line(
    state: SessionState,
    id: IdentityView,
    before: Seq<SessionEventView>,
    line: Seq<char>,
    token: Seq<char>,
    after: Seq<SessionEventView>,
)
    requires
        state_after(state, id, before) == SessionState::Reading,
        irc_line_event(line) == Some(IrcEventView::Ping(token)),
    ensures
        trace(state, id, before + seq![SessionEventView::Line(line)] + after) == trace(
            state,
            id,
            before,
        ) + seq![pong_write(token)] + trace(SessionState::Reading, id, after),
{
    let ping = seq![SessionEventView::Line(line)];
    lemma_trace_append(state, id, before, ping);
    lemma_trace_append(state, id, before + ping, after);
    let none = Seq::<SessionEventView>::empty();
    assert(ping.drop_last() =~= none);
    assert(ping.last() == SessionEventView::Line(line));
    assert(state_after(SessionState::Reading, id, none) == SessionState::Reading);
    assert(trace(SessionState::Reading, id, none) =~= Seq::<SessionActionView>::empty());
    assert(trace(SessionState::Reading, id, ping) =~= seq![pong_write(token)]);
    assert(state_after(SessionState::Reading, id, ping) == SessionState::Reading);
}

} // verus!
