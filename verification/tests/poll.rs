use email_irc_bridge::cursor::MailboxCursor;
use email_irc_bridge::error::BridgeError;
use email_irc_bridge::poll::{poll_step, read_fetched, Fetched, PollAction, PollEvent};
use email_irc_bridge::transform::ForwardRequest;

const MARKED: &str = "Subject: SendToIRC radical_ed\r\n\r\n<html> \r\n <head></head> \r\n <body> <span>42</span> \r\n </body>\r\n</html>\r\n";
const UNMARKED: &str = "Subject: hello\r\n\r\n<html> \r\n <head></head> \r\n <body> <span>42</span> \r\n </body>\r\n</html>\r\n";

#[test]
fn marked_entry_is_forwarded_and_consumed() {
    let (cursor, action) = poll_step(MailboxCursor::new(3), PollEvent::Entry(MARKED.to_string()));
    assert_eq!(cursor.position, 4);
    assert_eq!(
        action,
        PollAction::Forward(ForwardRequest { recipient: "radical_ed".to_string(), body: "42".to_string() })
    );
}

#[test]
fn unmarked_entry_is_skipped_and_consumed() {
    let (cursor, action) = poll_step(MailboxCursor::new(3), PollEvent::Entry(UNMARKED.to_string()));
    assert_eq!(cursor.position, 4);
    assert_eq!(action, PollAction::Skip);
}

#[test]
fn marked_entry_without_body_is_skipped() {
    let email = "Subject: SendToIRC bob\r\n\r\nno markup here\r\n";
    let (cursor, action) = poll_step(MailboxCursor::new(0), PollEvent::Entry(email.to_string()));
    assert_eq!(cursor.position, 1);
    assert_eq!(action, PollAction::Skip);
}

#[test]
fn marked_entry_without_recipient_is_skipped() {
    let email = "Subject: SendToIRC\r\n\r\n<html><head></head><body> <b>x</b></body></html>";
    let (cursor, action) = poll_step(MailboxCursor::new(9), PollEvent::Entry(email.to_string()));
    assert_eq!(cursor.position, 10);
    assert_eq!(action, PollAction::Skip);
}

#[test]
fn empty_mailbox_holds_the_cursor() {
    let (cursor, action) = poll_step(MailboxCursor::new(3), PollEvent::Empty);
    assert_eq!(cursor.position, 3);
    assert_eq!(action, PollAction::Wait);
    let (cursor, action) = poll_step(MailboxCursor::new(i32::MAX), PollEvent::Empty);
    assert_eq!(cursor.position, i32::MAX);
    assert_eq!(action, PollAction::Wait);
}

#[test]
fn failed_fetch_holds_the_cursor() {
    let transient = BridgeError::Transport { transient: true };
    let permanent = BridgeError::Transport { transient: false };
    assert_eq!(
        poll_step(MailboxCursor::new(3), PollEvent::Failed(transient)),
        (MailboxCursor::new(3), PollAction::Stop(transient))
    );
    assert_eq!(
        poll_step(MailboxCursor::new(3), PollEvent::Failed(permanent)),
        (MailboxCursor::new(3), PollAction::Stop(permanent))
    );
    assert_eq!(
        poll_step(MailboxCursor::new(3), PollEvent::Failed(BridgeError::Protocol)),
        (MailboxCursor::new(3), PollAction::Stop(BridgeError::Protocol))
    );
    assert_eq!(
        poll_step(MailboxCursor::new(3), PollEvent::Failed(BridgeError::Config)),
        (MailboxCursor::new(3), PollAction::Stop(BridgeError::Config))
    );
}

#[test]
fn cursor_counts_the_entries_present() {
    let events = vec![
        PollEvent::Empty,
        PollEvent::Entry(MARKED.to_string()),
        PollEvent::Empty,
        PollEvent::Entry(UNMARKED.to_string()),
        PollEvent::Failed(BridgeError::Transport { transient: true }),
        PollEvent::Entry("not even a header".to_string()),
        PollEvent::Empty,
    ];
    let present = events.iter().filter(|e| matches!(e, PollEvent::Entry(_))).count() as i32;
    let mut cursor = MailboxCursor::new(17);
    let mut positions = vec![cursor.position];
    for event in events {
        let (next, _) = poll_step(cursor, event);
        assert!(next.position >= cursor.position);
        cursor = next;
        positions.push(cursor.position);
    }
    assert_eq!(present, 3);
    assert_eq!(cursor.position, 17 + present);
    assert_eq!(positions, vec![17, 17, 18, 18, 19, 19, 20, 20]);
}

#[test]
fn fetched_bytes_become_an_entry() {
    assert_eq!(read_fetched(Fetched::Body(b"Subject: hi\r\n".to_vec())), PollEvent::Entry("Subject: hi\r\n".to_string()));
    assert_eq!(
        read_fetched(Fetched::Body("caf\u{e9} \u{1f600}".as_bytes().to_vec())),
        PollEvent::Entry("caf\u{e9} \u{1f600}".to_string())
    );
    assert_eq!(read_fetched(Fetched::Body(Vec::new())), PollEvent::Entry(String::new()));
}

#[test]
fn fetched_nothing_is_empty() {
    assert_eq!(read_fetched(Fetched::Nothing), PollEvent::Empty);
}

#[test]
fn entry_without_usable_body_is_a_protocol_error() {
    assert_eq!(read_fetched(Fetched::NoBody), PollEvent::Failed(BridgeError::Protocol));
    assert_eq!(read_fetched(Fetched::Body(vec![0xff, 0xfe])), PollEvent::Failed(BridgeError::Protocol));
    assert_eq!(read_fetched(Fetched::Body(vec![b'a', 0xc3])), PollEvent::Failed(BridgeError::Protocol));
    assert_eq!(read_fetched(Fetched::Body(vec![0xed, 0xa0, 0x80])), PollEvent::Failed(BridgeError::Protocol));
}
