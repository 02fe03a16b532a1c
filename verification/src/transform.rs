//! The transformation pipeline: from the raw text of one email to the
//! decision whether it is forwarded to IRC, to whom, and with what text.
//!
//! The stages are pure. A stage that finds nothing leaves its field absent;
//! no stage fails.

use vstd::prelude::*;
use crate::html::{extract_html_body, html_body};
use crate::pattern::{
    first_match_text, search_result, HTML_PATTERN, MARKER_PATTERN, SUBJECT_PATTERN,
};
use crate::text::{
    chars_of, first_match, is_space, lemma_first_match, lemma_first_match_window, opt_text, scan,
    slice_text, CharClass,
};

verus! {

/// The second of the fields into which the colons of `line` divide it: what
/// stands between the first colon and the second, or the end of the line
/// where there is no second. Absent where the line has no colon.
pub open spec fn colon_field(line: Seq<char>) -> Option<Seq<char>> {
    let a = first_match(line, CharClass::Is(':'), 0);
    if a < line.len() {
        Some(line.subrange(a + 1, first_match(line, CharClass::Is(':'), a + 1)))
    } else {
        None
    }
}

/// `s` without its leading white space.
pub open spec fn trim_start(s: Seq<char>) -> Seq<char> {
    s.subrange(first_match(s, CharClass::NonSpace, 0), s.len() as int)
}

/// The subject that a header line carries: its second colon-delimited field
/// without leading white space. Text after a second colon is not part of it.
pub open spec fn subject_of_line(line: Seq<char>) -> Option<Seq<char>> {
    match colon_field(line) {
        Some(field) => Some(trim_start(field)),
        None => None,
    }
}

/// The second word of `s`, words being the maximal runs of characters that
/// are not white space. Absent where `s` has fewer than two words.
pub open spec fn second_word(s: Seq<char>) -> Option<Seq<char>> {
    let first_start = first_match(s, CharClass::NonSpace, 0);
    let first_end = first_match(s, CharClass::Space, first_start);
    let start = first_match(s, CharClass::NonSpace, first_end);
    if start < s.len() {
        Some(s.subrange(start, first_match(s, CharClass::Space, start)))
    } else {
        None
    }
}

/// The subject field holds no colon.
pub proof fn lemma_colon_field_has_no_colon(line: Seq<char>)
    ensures
        colon_field(line) matches Some(field) ==> forall|i: int|
            0 <= i < field.len() ==> #[trigger] field[i] != ':',
{
    let a = first_match(line, CharClass::Is(':'), 0);
    lemma_first_match(line, CharClass::Is(':'), 0);
    if a < line.len() {
        lemma_first_match(line, CharClass::Is(':'), a + 1);
    }
}

/// Trimming takes white space off the front and nothing else: what is left
/// does not start with white space, and what was taken is white space only.
pub proof fn lemma_trim_start(s: Seq<char>)
    ensures
        trim_start(s).len() > 0 ==> !is_space(trim_start(s)[0]),
        trim_start(s).len() <= s.len(),
        s == s.take(s.len() - trim_start(s).len()) + trim_start(s),
        forall|i: int| 0 <= i < s.len() - trim_start(s).len() ==> is_space(#[trigger] s[i]),
{
    lemma_first_match(s, CharClass::NonSpace, 0);
    let k = first_match(s, CharClass::NonSpace, 0);
    assert(s =~= s.take(k) + s.subrange(k, s.len() as int));
}

/// The second word is a word: it is not empty and holds no white space.
pub proof fn lemma_second_word_is_a_word(s: Seq<char>)
    ensures
        second_word(s) matches Some(word) ==> word.len() > 0 && forall|i: int|
            0 <= i < word.len() ==> !is_space(#[trigger] word[i]),
{
    let first_start = first_match(s, CharClass::NonSpace, 0);
    lemma_first_match(s, CharClass::NonSpace, 0);
    let first_end = first_match(s, CharClass::Space, first_start);
    lemma_first_match(s, CharClass::Space, first_start);
    let start = first_match(s, CharClass::NonSpace, first_end);
    lemma_first_match(s, CharClass::NonSpace, first_end);
    if start < s.len() {
        lemma_first_match(s, CharClass::Space, start);
    }
}

/// Why a stage of the pipeline found its input structurally insufficient.
#[derive(Clone, Copy, Debug, PartialEq, Eq, Structural)]
pub enum ParseDefect {
    /// The header line has no colon, so it carries no subject.
    MissingSubject,
    /// The subject has fewer than two words, so it names no recipient.
    MissingRecipient,
}

/// The subject carried by one header line.
pub fn subject_from_line(line: &str) -> (r: Result<String, ParseDefect>)
    ensures
        match r {
            Ok(subject) => subject_of_line(line@) == Some(subject@),
            Err(defect) => subject_of_line(line@) is None && defect == ParseDefect::MissingSubject,
        },
{
    let chars = chars_of(line);
    let len: usize = chars.len();
    let a: usize = scan(&chars, CharClass::Is(':'), 0);
    if a >= len {
        return Err(ParseDefect::MissingSubject);
    }
    let b: usize = scan(&chars, CharClass::Is(':'), a + 1);
    let k: usize = scan(&chars, CharClass::NonSpace, a + 1);
    let from: usize = if k < b {
        k
    } else {
        b
    };
    proof {
        let field = line@.subrange(a + 1, b as int);
        lemma_first_match_window(line@, CharClass::NonSpace, a + 1, b as int);
        assert(trim_start(field) == line@.subrange(from as int, b as int));
    }
    Ok(slice_text(line, from, b))
}

/// The recipient that a subject names: its second word.
pub fn extract_recipient(subject: &str) -> (r: Result<String, ParseDefect>)
    ensures
        match r {
            Ok(word) => second_word(subject@) == Some(word@),
            Err(defect) => second_word(subject@) is None && defect == ParseDefect::MissingRecipient,
        },
{
    let chars = chars_of(subject);
    let first_start: usize = scan(&chars, CharClass::NonSpace, 0);
    let first_end: usize = scan(&chars, CharClass::Space, first_start);
    let start: usize = scan(&chars, CharClass::NonSpace, first_end);
    if start >= chars.len() {
        return Err(ParseDefect::MissingRecipient);
    }
    let end: usize = scan(&chars, CharClass::Space, start);
    Ok(slice_text(subject, start, end))
}

/// What the pipeline knows of one email.
pub struct ParsedMessage {
    /// The raw text of the email.
    pub email: Option<Seq<char>>,
    /// The subject, where a subject line was found.
    pub subject: Option<Seq<char>>,
    /// Whether the subject carries the forwarding marker.
    pub forward: bool,
    /// The IRC recipient, where the subject names one.
    pub recipient: Option<Seq<char>>,
    /// The message text, where the HTML part yields one.
    pub body: Option<Seq<char>>,
}

/// The subject of an email: what the first line of the form
/// `Subject: <rest>` carries.
pub open spec fn email_subject(email: Option<Seq<char>>) -> Option<Seq<char>> {
    match email {
        Some(text) => match search_result(SUBJECT_PATTERN@, text) {
            Some(line) => subject_of_line(line),
            None => None,
        },
        None => None,
    }
}

/// Whether a subject carries the forwarding marker: some line of it starts
/// with `SendToIRC`.
pub open spec fn has_marker(subject: Option<Seq<char>>) -> bool {
    match subject {
        Some(text) => search_result(MARKER_PATTERN@, text) is Some,
        None => false,
    }
}

/// The recipient that a subject names, if it has a second word.
pub open spec fn subject_recipient(subject: Option<Seq<char>>) -> Option<Seq<char>> {
    match subject {
        Some(text) => second_word(text),
        None => None,
    }
}

/// The message text of an email: what the HTML region of it, from a line
/// that starts with `<html` to the last `</html>`, carries.
pub open spec fn email_body(email: Option<Seq<char>>) -> Option<Seq<char>> {
    match email {
        Some(text) => match search_result(HTML_PATTERN@, text) {
            Some(region) => html_body(region),
            None => None,
        },
        None => None,
    }
}

/// The result of all stages on one email.
pub open spec fn transformed(email: Seq<char>) -> ParsedMessage {
    let subject = email_subject(Some(email));
    ParsedMessage {
        email: Some(email),
        subject,
        forward: has_marker(subject),
        recipient: subject_recipient(subject),
        body: email_body(Some(email)),
    }
}

/// Whether a message is forwarded: the marker was found, and a recipient,
/// and a body.
pub open spec fn forwards(m: ParsedMessage) -> bool {
    m.forward && m.recipient is Some && m.body is Some
}

/// A message to send on IRC: to whom, and what.
#[derive(Clone, Debug, PartialEq, Eq)]
pub struct ForwardRequest {
    /// The IRC recipient.
    pub recipient: String,
    /// The text to send.
    pub body: String,
}

/// The mathematical content of a [`ForwardRequest`].
pub struct ForwardRequestView {
    pub recipient: Seq<char>,
    pub body: Seq<char>,
}

impl View for ForwardRequest {
    type V = ForwardRequestView;

    open spec fn view(&self) -> ForwardRequestView {
        ForwardRequestView { recipient: self.recipient@, body: self.body@ }
    }
}

/// The request that a message gives rise to, if it is forwarded.
pub open spec fn forward_request(m: ParsedMessage) -> Option<ForwardRequestView> {
    if forwards(m) {
        Some(ForwardRequestView { recipient: m.recipient->0, body: m.body->0 })
    } else {
        None
    }
}

/// What the stages leave in a message holds together: a recipient is there
/// only where the subject has a second word, the forwarding flag is set only
/// where a subject carries the marker, and a body is there only where an
/// HTML region was found.
pub proof fn lemma_fields_have_sources(email: Seq<char>)
    ensures
        transformed(email).recipient is Some ==> transformed(email).subject is Some && second_word(
            transformed(email).subject->0,
        ) is Some,
        transformed(email).forward ==> transformed(email).subject is Some && search_result(
            MARKER_PATTERN@,
            transformed(email).subject->0,
        ) is Some,
        transformed(email).body is Some ==> search_result(HTML_PATTERN@, email) is Some,
{
}

/// A message is forwarded exactly when all three are there: the marker, a
/// recipient and a body. The request then carries that recipient and body.
pub proof fn lemma_forward_decision(m: ParsedMessage)
    ensures
        forward_request(m) is Some <==> m.forward && m.recipient is Some && m.body is Some,
        forward_request(m) matches Some(request) ==> Some(request.recipient) == m.recipient
            && Some(request.body) == m.body,
{
}

/// An email in which no HTML region is found has no body and is not
/// forwarded, whatever its subject.
pub proof fn lemma_no_html_no_forward(email: Seq<char>)
    requires
        search_result(HTML_PATTERN@, email) is None,
    ensures
        transformed(email).body is None,
        forward_request(transformed(email)) is None,
{
}

/// An email whose subject does not carry the marker is not forwarded.
pub proof fn lemma_no_marker_no_forward(email: Seq<char>)
    requires
        !has_marker(email_subject(Some(email))),
    ensures
        !transformed(email).forward,
        forward_request(transformed(email)) is None,
{
}

/// One email on its way through the pipeline.
#[derive(Clone, Debug, PartialEq, Eq)]
pub struct Transformer {
    /// The subject, once `parse_email_subject` has found one.
    pub subject: Option<String>,
    /// The message text, once `parse_email_body` has found one.
    pub body: Option<String>,
    /// The raw text of the email.
    pub email: Option<String>,
    /// The IRC recipient, once `set_recipient` has found one.
    pub irc_recipient: Option<String>,
    /// Whether `send_to_irc` has found the forwarding marker.
    pub send_to_irc: bool,
}

impl View for Transformer {
    type V = ParsedMessage;

    open spec fn view(&self) -> ParsedMessage {
        ParsedMessage {
            email: opt_text(self.email),
            subject: opt_text(self.subject),
            forward: self.send_to_irc,
            recipient: opt_text(self.irc_recipient),
            body: opt_text(self.body),
        }
    }
}

impl Transformer {
    /// A message of which only the raw text is known.
    pub fn new(email: Option<String>) -> (t: Transformer)
        ensures
            t@ == (ParsedMessage {
                email: opt_text(email),
                subject: None,
                forward: false,
                recipient: None,
                body: None,
            }),
    {
        Transformer { subject: None, body: None, email, irc_recipient: None, send_to_irc: false }
    }

    /// Sets the forwarding flag from the subject.
    pub fn send_to_irc(self) -> (t: Transformer)
        ensures
            t@ == (ParsedMessage { forward: has_marker(self@.subject), ..self@ }),
    {
        let found = match &self.subject {
            Some(subject) => first_match_text(MARKER_PATTERN, subject.as_str()).is_some(),
            None => false,
        };
        Transformer { send_to_irc: found, ..self }
    }

    /// Sets the message text from the HTML part of the email.
    pub fn parse_email_body(self) -> (t: Transformer)
        ensures
            t@ == (ParsedMessage { body: email_body(self@.email), ..self@ }),
    {
        let body = match &self.email {
            Some(email) => match first_match_text(HTML_PATTERN, email.as_str()) {
                Some(region) => extract_html_body(region.as_str()),
                None => None,
            },
            None => None,
        };
        Transformer { body, ..self }
    }

    /// Sets the subject from the first subject line of the email.
    pub fn parse_email_subject(self) -> (t: Transformer)
        ensures
            t@ == (ParsedMessage { subject: email_subject(self@.email), ..self@ }),
    {
        let subject = match &self.email {
            Some(email) => match first_match_text(SUBJECT_PATTERN, email.as_str()) {
                Some(line) => match subject_from_line(line.as_str()) {
                    Ok(subject) => Some(subject),
                    Err(_) => None,
                },
                None => None,
            },
            None => None,
        };
        Transformer { subject, ..self }
    }

    /// Sets the recipient from the subject. A subject with fewer than two
    /// words leaves the recipient absent.
    pub fn set_recipient(self) -> (t: Transformer)
        ensures
            t@ == (ParsedMessage { recipient: subject_recipient(self@.subject), ..self@ }),
    {
        let recipient = match &self.subject {
            Some(subject) => match extract_recipient(subject.as_str()) {
                Ok(word) => Some(word),
                Err(_) => None,
            },
            None => None,
        };
        Transformer { irc_recipient: recipient, ..self }
    }

    /// The recipient of a message that has one.
    pub fn get_recipient(self) -> (r: String)
        requires
            self@.recipient is Some,
        ensures
            Some(r@) == self@.recipient,
    {
        self.irc_recipient.unwrap()
    }

    /// The text of a message that has one.
    pub fn get_body(self) -> (r: String)
        requires
            self@.body is Some,
        ensures
            Some(r@) == self@.body,
    {
        self.body.unwrap()
    }

    /// Whether the message is to be forwarded.
    pub fn forwards(&self) -> (r: bool)
        ensures
            r == forwards(self@),
    {
        self.send_to_irc && self.irc_recipient.is_some() && self.body.is_some()
    }

    /// The request to hand to the IRC session, if the message is forwarded.
    pub fn into_request(self) -> (r: Option<ForwardRequest>)
        ensures
            match r {
                Some(request) => forward_request(self@) == Some(request@),
                None => forward_request(self@) is None,
            },
    {
        if self.forwards() {
            Some(ForwardRequest { recipient: self.irc_recipient.unwrap(), body: self.body.unwrap() })
        } else {
            None
        }
    }
}

/// Runs every stage of the pipeline on one email.
pub fn transform(email: String) -> (t: Transformer)
    ensures
        t@ == transformed(email@),
{
    Transformer::new(Some(email)).parse_email_subject().send_to_irc().set_recipient().parse_email_body()
}

} // verus!
