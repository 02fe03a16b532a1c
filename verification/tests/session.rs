use email_irc_bridge::error::BridgeError;
use email_irc_bridge::irc::{Identity, IrcEvent};
use email_irc_bridge::session::{react, session_step, SessionAction, SessionEvent, SessionState};
use email_irc_bridge::transform::ForwardRequest;

fn id() -> Identity {
    Identity {
        user: "radical_ed".to_string(),
        nick: "ed".to_string(),
        first_name: "radical".to_string(),
        last_name: "ed".to_string(),
    }
}

fn line(text: &str) -> SessionEvent {
    SessionEvent::Line(text.to_string())
}

#[test]
fn connect_registers_without_waiting() {
    let (state, actions) = session_step(SessionState::Connecting, &id(), SessionEvent::Connected);
    assert_eq!(state, SessionState::Registering);
    assert_eq!(
        actions,
        vec![
            SessionAction::Write("USER radical_ed 0 * :radical ed\n".to_string()),
            SessionAction::Write("NICK ed\n".to_string()),
        ]
    );
    let (state, actions) = session_step(state, &id(), SessionEvent::Flushed);
    assert_eq!(state, SessionState::Reading);
    assert_eq!(actions, vec![]);
}

#[test]
fn ping_gets_exactly_one_pong() {
    let (state, actions) = session_step(SessionState::Reading, &id(), line("PING :tok123"));
    assert_eq!(state, SessionState::Reading);
    assert_eq!(actions, vec![SessionAction::Write("PONG tok123\r\n\n".to_string())]);
}

#[test]
fn pong_comes_before_the_next_line_is_processed() {
    let mut state = SessionState::Reading;
    let mut written = Vec::new();
    for event in [line("PING :one"), line(":a!b@c PRIVMSG #chan :hi"), line("PING :two")] {
        let (next, actions) = session_step(state, &id(), event);
        state = next;
        written.extend(actions);
    }
    assert_eq!(
        written,
        vec![
            SessionAction::Write("PONG one\r\n\n".to_string()),
            SessionAction::Mail("#chan".to_string(), "hi".to_string()),
            SessionAction::Write("PONG two\r\n\n".to_string()),
        ]
    );
    assert_eq!(state, SessionState::Reading);
}

#[test]
fn privmsg_goes_to_the_mail_dispatcher() {
    let (state, actions) =
        session_step(SessionState::Reading, &id(), line(":ada!a@host PRIVMSG #chan :hi"));
    assert_eq!(state, SessionState::Reading);
    assert_eq!(actions, vec![SessionAction::Mail("#chan".to_string(), "hi".to_string())]);
}

#[test]
fn other_lines_are_ignored() {
    let (state, actions) = session_step(SessionState::Reading, &id(), line(":server 001 ed :Welcome"));
    assert_eq!(state, SessionState::Reading);
    assert_eq!(actions, vec![]);
}

#[test]
fn malformed_line_ends_the_session() {
    let (state, actions) = session_step(SessionState::Reading, &id(), line(""));
    assert_eq!(state, SessionState::Closed(Some(BridgeError::Protocol)));
    assert_eq!(actions, vec![]);
}

#[test]
fn relay_request_is_written_as_privmsg() {
    let request = ForwardRequest { recipient: "radical_ed".to_string(), body: "body :)".to_string() };
    let (state, actions) = session_step(SessionState::Reading, &id(), SessionEvent::Relay(request));
    assert_eq!(state, SessionState::Reading);
    assert_eq!(actions, vec![SessionAction::Write("PRIVMSG radical_ed :body :)\r\n\n".to_string())]);
}

#[test]
fn relay_request_before_reading_is_dropped() {
    for state in [SessionState::Connecting, SessionState::Registering] {
        let request = ForwardRequest { recipient: "a".to_string(), body: "b".to_string() };
        let (next, actions) = session_step(state, &id(), SessionEvent::Relay(request));
        assert_eq!(next, state);
        assert_eq!(actions, vec![]);
    }
}

#[test]
fn end_of_stream_closes_cleanly() {
    for state in [SessionState::Connecting, SessionState::Registering, SessionState::Reading] {
        let (next, actions) = session_step(state, &id(), SessionEvent::EndOfStream);
        assert_eq!(next, SessionState::Closed(None));
        assert_eq!(actions, vec![]);
    }
}

#[test]
fn every_failure_closes_the_session() {
    let errors = [
        BridgeError::Transport { transient: true },
        BridgeError::Transport { transient: false },
        BridgeError::Protocol,
        BridgeError::Config,
    ];
    for state in [SessionState::Connecting, SessionState::Registering, SessionState::Reading] {
        for error in errors {
            let (next, actions) = session_step(state, &id(), SessionEvent::Failed(error));
            assert_eq!(next, SessionState::Closed(Some(error)));
            assert_eq!(actions, vec![]);
        }
    }
}

#[test]
fn nothing_happens_after_a_failure() {
    let error = BridgeError::Transport { transient: true };
    let (mut state, _) = session_step(SessionState::Reading, &id(), SessionEvent::Failed(error));
    let later = vec![
        line("PING :x"),
        line(":a!b@c PRIVMSG #chan :hi"),
        SessionEvent::Relay(ForwardRequest { recipient: "bob".to_string(), body: "x".to_string() }),
        SessionEvent::Connected,
        SessionEvent::Flushed,
    ];
    for event in later {
        let (next, actions) = session_step(state, &id(), event);
        assert_eq!(actions, vec![]);
        state = next;
    }
    assert_eq!(state, SessionState::Closed(Some(error)));
}

#[test]
fn closed_session_stays_closed() {
    for closed in [SessionState::Closed(None), SessionState::Closed(Some(BridgeError::Protocol))] {
        for event in [
            SessionEvent::Connected,
            SessionEvent::Flushed,
            line("PING :x"),
            SessionEvent::EndOfStream,
            SessionEvent::Failed(BridgeError::Config),
        ] {
            let (state, actions) = session_step(closed, &id(), event);
            assert_eq!(state, closed);
            assert_eq!(actions, vec![]);
        }
    }
}

#[test]
fn unexpected_events_change_nothing() {
    let (state, actions) = session_step(SessionState::Connecting, &id(), line("PING :x"));
    assert_eq!((state, actions), (SessionState::Connecting, vec![]));
    let (state, actions) = session_step(SessionState::Reading, &id(), SessionEvent::Connected);
    assert_eq!((state, actions), (SessionState::Reading, vec![]));
    let (state, actions) = session_step(SessionState::Reading, &id(), SessionEvent::Flushed);
    assert_eq!((state, actions), (SessionState::Reading, vec![]));
    let (state, actions) = session_step(SessionState::Connecting, &id(), SessionEvent::Flushed);
    assert_eq!((state, actions), (SessionState::Connecting, vec![]));
    let (state, actions) = session_step(SessionState::Registering, &id(), SessionEvent::Connected);
    assert_eq!((state, actions), (SessionState::Registering, vec![]));
}

#[test]
fn react_to_each_kind_of_message() {
    assert_eq!(
        react(IrcEvent::Ping("t".to_string())),
        vec![SessionAction::Write("PONG t\r\n\n".to_string())]
    );
    assert_eq!(
        react(IrcEvent::PrivMsg("#chan".to_string(), "hi".to_string())),
        vec![SessionAction::Mail("#chan".to_string(), "hi".to_string())]
    );
    assert_eq!(react(IrcEvent::Other), vec![]);
}

#[test]
fn relay_request_with_line_breaks_is_one_line() {
    let request = ForwardRequest { recipient: "radical_ed".to_string(), body: "first\r\nQUIT :gone\nlast".to_string() };
    let (state, actions) = session_step(SessionState::Reading, &id(), SessionEvent::Relay(request));
    assert_eq!(state, SessionState::Reading);
    assert_eq!(
        actions,
        vec![SessionAction::Write("PRIVMSG radical_ed :first  QUIT :gone last\r\n\n".to_string())]
    );
}

#[test]
fn every_relay_gives_exactly_one_whole_line() {
    for body in ["42", "", "a b", "a\nb", "\r", "x\r\ny\r\nz", ":colon\n"] {
        let request = ForwardRequest { recipient: "#chan".to_string(), body: body.to_string() };
        let (_, actions) = session_step(SessionState::Reading, &id(), SessionEvent::Relay(request));
        assert_eq!(actions.len(), 1);
        match &actions[0] {
            SessionAction::Write(text) => {
                assert!(text.ends_with("\r\n\n"));
                let head = &text[..text.len() - 3];
                assert!(!head.contains('\r') && !head.contains('\n'));
                assert!(head.starts_with("PRIVMSG #chan "));
            }
            other => panic!("unexpected action {:?}", other),
        }
    }
}

#[test]
fn relays_and_pongs_come_out_whole_and_in_order() {
    let mut state = SessionState::Reading;
    let mut written = Vec::new();
    let events = vec![
        line("PING :one"),
        SessionEvent::Relay(ForwardRequest { recipient: "bob".to_string(), body: "a\nb".to_string() }),
        line("PING :two"),
        SessionEvent::Relay(ForwardRequest { recipient: "bob".to_string(), body: "c".to_string() }),
    ];
    for event in events {
        let (next, actions) = session_step(state, &id(), event);
        state = next;
        written.extend(actions);
    }
    assert_eq!(
        written,
        vec![
            SessionAction::Write("PONG one\r\n\n".to_string()),
            SessionAction::Write("PRIVMSG bob :a b\r\n\n".to_string()),
            SessionAction::Write("PONG two\r\n\n".to_string()),
            SessionAction::Write("PRIVMSG bob c\r\n\n".to_string()),
        ]
    );
}

#[test]
fn ping_token_is_echoed_verbatim() {
    let (state, actions) = session_step(SessionState::Reading, &id(), line("PING :a\rb"));
    assert_eq!(state, SessionState::Reading);
    assert_eq!(actions, vec![SessionAction::Write("PONG a\rb\r\n\n".to_string())]);
    let (_, actions) = session_step(SessionState::Reading, &id(), line("PING :two words"));
    assert_eq!(actions, vec![SessionAction::Write("PONG :two words\r\n\n".to_string())]);
}

#[test]
fn pong_tokens_are_those_of_the_pings_in_order() {
    let tokens = ["one", "a\rb", "irc.example.net", "x y", ":z", "42"];
    let mut state = SessionState::Reading;
    let mut written = Vec::new();
    for token in tokens {
        let (next, actions) = session_step(state, &id(), line(&format!("PING :{}", token)));
        state = next;
        written.extend(actions);
        let (next, actions) = session_step(state, &id(), line(":server 001 ed :Welcome"));
        state = next;
        written.extend(actions);
    }
    let expected: Vec<SessionAction> = vec![
        SessionAction::Write("PONG one\r\n\n".to_string()),
        SessionAction::Write("PONG a\rb\r\n\n".to_string()),
        SessionAction::Write("PONG irc.example.net\r\n\n".to_string()),
        SessionAction::Write("PONG :x y\r\n\n".to_string()),
        SessionAction::Write("PONG ::z\r\n\n".to_string()),
        SessionAction::Write("PONG 42\r\n\n".to_string()),
    ];
    assert_eq!(written, expected);
    assert_eq!(state, SessionState::Reading);
}

#[test]
fn registration_uses_the_configured_names_as_they_are() {
    let odd = Identity {
        user: "u\nx".to_string(),
        nick: "a\nb".to_string(),
        first_name: "f\r".to_string(),
        last_name: "l".to_string(),
    };
    let (state, actions) = session_step(SessionState::Connecting, &odd, SessionEvent::Connected);
    assert_eq!(state, SessionState::Registering);
    assert_eq!(
        actions,
        vec![
            SessionAction::Write("USER u\nx 0 * :f\r l\n".to_string()),
            SessionAction::Write("NICK a\nb\n".to_string()),
        ]
    );
}
