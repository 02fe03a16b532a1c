//! The mailbox poll loop, one iteration at a time.
//!
//! The caller fetches the entry at the cursor and hands over what came back;
//! [`poll_step`] decides what to do with it and where the cursor goes.

use vstd::prelude::*;
use vstd::utf8::valid_utf8;
use crate::cursor::{cursor_step, MailboxCursor};
use crate::error::BridgeError;
use crate::pattern::{search_result, HTML_PATTERN};
use crate::transform::{
    email_subject, forward_request, forwards, has_marker, transform, transformed, ForwardRequest,
    ForwardRequestView, ParsedMessage,
};

verus! {

/// What a fetch at the cursor position brought.
#[derive(Clone, Debug, PartialEq, Eq)]
pub enum Fetched {
    /// No entry at that position.
    Nothing,
    /// An entry without a body.
    NoBody,
    /// An entry with these bytes as its body.
    Body(Vec<u8>),
}

/// What one poll iteration has to work on.
#[derive(Clone, Debug, PartialEq, Eq)]
pub enum PollEvent {
    /// The entry at the cursor position, as text.
    Entry(String),
    /// No entry at the cursor position.
    Empty,
    /// The fetch failed.
    Failed(BridgeError),
}

/// The mathematical content of a [`PollEvent`].
pub enum PollEventView {
    Entry(Seq<char>),
    Empty,
    Failed(BridgeError),
}

impl View for PollEvent {
    type V = PollEventView;

    open spec fn view(&self) -> PollEventView {
        match self {
            PollEvent::Entry(text) => PollEventView::Entry(text@),
            PollEvent::Empty => PollEventView::Empty,
            PollEvent::Failed(error) => PollEventView::Failed(*error),
        }
    }
}

/// What the caller does after one poll iteration.
#[derive(Clone, Debug, PartialEq, Eq)]
pub enum PollAction {
    /// Hand the request to the IRC session's writer.
    Forward(ForwardRequest),
    /// The entry is not marked for forwarding, or lacks a recipient or a
    /// body: log it and go on.
    Skip,
    /// Nothing was there: fetch again at the same position.
    Wait,
    /// The fetch failed: end the loop with this error.
    Stop(BridgeError),
}

/// The mathematical content of a [`PollAction`].
pub enum PollActionView {
    Forward(ForwardRequestView),
    Skip,
    Wait,
    Stop(BridgeError),
}

impl View for PollAction {
    type V = PollActionView;

    open spec fn view(&self) -> PollActionView {
        match self {
            PollAction::Forward(request) => PollActionView::Forward(request@),
            PollAction::Skip => PollActionView::Skip,
            PollAction::Wait => PollActionView::Wait,
            PollAction::Stop(error) => PollActionView::Stop(*error),
        }
    }
}

/// Why bytes are not UTF-8 (`core::str::Utf8Error`).
#[verifier::external_type_specification]
#[verifier::external_body]
pub struct ExUtf8Error(core::str::Utf8Error);

/// `core::str::from_utf8` succeeds exactly on well-formed UTF-8, and the
/// text it then returns is those bytes.
pub assume_specification<'a>[ core::str::from_utf8 ](v: &'a [u8]) -> (r: Result<
    &'a str,
    core::str::Utf8Error,
>)
    ensures
        r is Ok <==> valid_utf8(v@),
        r matches Ok(text) ==> vstd::utf8::encode_utf8(text@) == v@,
;

/// The event that a fetch amounts to. An entry without a body, or with one
/// that is not UTF-8, is a protocol error.
pub open spec fn fetched_event(fetched: Fetched) -> PollEventView {
    match fetched {
        Fetched::Nothing => PollEventView::Empty,
        Fetched::NoBody => PollEventView::Failed(BridgeError::Protocol),
        Fetched::Body(bytes) => if valid_utf8(bytes@) {
            PollEventView::Entry(vstd::utf8::decode_utf8(bytes@))
        } else {
            PollEventView::Failed(BridgeError::Protocol)
        },
    }
}

/// Turns what a fetch brought into the event of a poll iteration.
pub fn read_fetched(fetched: Fetched) -> (event: PollEvent)
    ensures
        event@ == fetched_event(fetched),
{
    match fetched {
        Fetched::Nothing => PollEvent::Empty,
        Fetched::NoBody => PollEvent::Failed(BridgeError::Protocol),
        Fetched::Body(bytes) => match core::str::from_utf8(bytes.as_slice()) {
            Ok(text) => {
                proof {
                    vstd::utf8::encode_utf8_decode_utf8(text@);
                }
                PollEvent::Entry(text.to_owned())
            },
            Err(_) => PollEvent::Failed(BridgeError::Protocol),
        },
    }
}

/// What is done with a transformed entry: it is forwarded if it carries the
/// marker, a recipient and a body, and skipped otherwise.
pub open spec fn entry_action(message: ParsedMessage) -> PollActionView {
    match forward_request(message) {
        Some(request) => PollActionView::Forward(request),
        None => PollActionView::Skip,
    }
}

/// What is done after a poll iteration. A failed fetch, of whatever kind,
/// ends the loop with its error.
pub open spec fn poll_action(event: PollEventView) -> PollActionView {
    match event {
        PollEventView::Entry(email) => entry_action(transformed(email)),
        PollEventView::Empty => PollActionView::Wait,
        PollEventView::Failed(error) => PollActionView::Stop(error),
    }
}

/// Whether a poll iteration found an entry.
pub open spec fn entry_present(event: PollEventView) -> bool {
    event is Entry
}

/// One iteration of the poll loop: given the cursor and what the fetch at its
/// position brought, the cursor for the next iteration and what to do now.
///
/// An entry is consumed whether or not it is forwarded. The cursor stays
/// where it is when nothing was there or the fetch failed, and a failed
/// fetch ends the loop.
pub fn poll_step(cursor: MailboxCursor, event: PollEvent) -> (r: (MailboxCursor, PollAction))
    requires
        event is Entry ==> cursor.position < i32::MAX,
    ensures
        r.0.position == cursor_step(cursor.position as int, entry_present(event@)),
        r.1@ == poll_action(event@),
{
    match event {
        PollEvent::Entry(email) => {
            let action = match transform(email).into_request() {
                Some(request) => PollAction::Forward(request),
                None => PollAction::Skip,
            };
            (cursor.advance(true), action)
        },
        PollEvent::Empty => (cursor, PollAction::Wait),
        PollEvent::Failed(error) => (cursor, PollAction::Stop(error)),
    }
}

/// An entry is consumed whether or not it is forwarded: the cursor moves on
/// by one, and the entry is forwarded exactly when the pipeline found the
/// marker, a recipient and a body, and skipped otherwise.
pub proof fn lemma_entry_is_consumed(position: int, email: Seq<char>)
    ensures
        cursor_step(position, entry_present(PollEventView::Entry(email))) == position + 1,
        forwards(transformed(email)) ==> poll_action(PollEventView::Entry(email)) is Forward,
        !forwards(transformed(email)) ==> poll_action(PollEventView::Entry(email)) is Skip,
{
}

/// A failed fetch ends the loop with its error and leaves the cursor where
/// it was.
pub proof fn lemma_failed_fetch_stops(position: int, error: BridgeError)
    ensures
        poll_action(PollEventView::Failed(error)) == PollActionView::Stop(error),
        cursor_step(position, entry_present(PollEventView::Failed(error))) == position,
{
}

/// An entry whose subject does not carry the marker is skipped: nothing is
/// handed to the IRC session, nothing fails, and the cursor moves on by one.
pub proof fn lemma_unmarked_entry_is_skipped(position: int, email: Seq<char>)
    requires
        !has_marker(email_subject(Some(email))),
    ensures
        poll_action(PollEventView::Entry(email)) == PollActionView::Skip,
        cursor_step(position, entry_present(PollEventView::Entry(email))) == position + 1,
{
}

/// An entry in which no HTML region is found is skipped, marker or not:
/// nothing is handed to the IRC session, nothing fails, and the cursor
/// moves on by one.
pub proof fn lemma_entry_without_html_is_skipped(position: int, email: Seq<char>)
    requires
        search_result(HTML_PATTERN@, email) is None,
    ensures
        poll_action(PollEventView::Entry(email)) == PollActionView::Skip,
        cursor_step(position, entry_present(PollEventView::Entry(email))) == position + 1,
{
}

/// Where a cursor that starts at `start` stands after the poll iterations
/// that worked on `events`, one event each.
pub open spec fn cursor_after(start: int, events: Seq<PollEventView>) -> int
    decreases events.len(),
{
    if events.len() == 0 {
        start
    } else {
        cursor_step(cursor_after(start, events.drop_last()), entry_present(events.last()))
    }
}

/// How many of the iterations found an entry.
pub open spec fn entries_present(events: Seq<PollEventView>) -> nat {
    events.filter(|event: PollEventView| entry_present(event)).len()
}

/// Over any sequence of poll iterations the cursor advances by exactly the
/// number of iterations in which an entry was present.
pub proof fn lemma_cursor_counts_entries(start: int, events: Seq<PollEventView>)
    ensures
        cursor_after(start, events) == start + entries_present(events),
    decreases events.len(),
{
    reveal(Seq::filter);
    if events.len() > 0 {
        lemma_cursor_counts_entries(start, events.drop_last());
    }
}

/// An iteration that found no entry leaves the cursor where it was.
pub proof fn lemma_cursor_holds_without_entry(
    start: int,
    events: Seq<PollEventView>,
    event: PollEventView,
)
    requires
        !entry_present(event),
    ensures
        cursor_after(start, events.push(event)) == cursor_after(start, events),
{
    assert(events.push(event).drop_last() =~= events);
}

/// The cursor never moves back: after more iterations it stands no earlier.
pub proof fn lemma_cursor_monotonic(start: int, events: Seq<PollEventView>, n: int)
    requires
        0 <= n <= events.len(),
    ensures
        start <= cursor_after(start, events.take(n)) <= cursor_after(start, events),
    decreases events.len(),
{
    if events.len() == 0 {
        assert(events.take(n) =~= events);
    } else if n == events.len() {
        assert(events.take(n) =~= events);
        lemma_cursor_monotonic(start, events.drop_last(), n - 1);
    } else {
        lemma_cursor_monotonic(start, events.drop_last(), n);
        assert(events.drop_last().take(n) =~= events.take(n));
    }
}

} // verus!
