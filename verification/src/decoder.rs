//! The incremental stream decoder: a state machine that turns an unbounded,
//! chunk-by-chunk byte stream of nested XML-like elements into discrete
//! events, without ever holding a complete document.
//!
//! The machine waits for content, enters a message on a `message` opening
//! tag that carries a decodable `to` attribute, collects text runs while
//! inside (a later run replaces an earlier one), and emits the message when
//! the `body` or the `message` element closes. The end of input ends the
//! decoder; a decode failure (an unterminated tag at the end of input, an
//! unknown or unterminated character reference, or text that is not valid
//! UTF-8) ends it too and is reported as a failure.

use vstd::prelude::*;

use crate::text::{
    bytes_eq, copy_range, find_byte, find_from, find_ws, find_ws_from, spec_trim, trim_bytes,
};
use crate::xml::{
    body_name, body_name_vec, decode_text, message_name, message_name_vec, scan_to_value,
    spec_decode_text, spec_tag_kind, spec_tag_name, spec_to_value, stream_name, stream_name_vec,
    tag_kind, tag_name, GT, LT, TagKind,
};

verus! {

/// Where the state machine stands.
#[derive(Clone, Copy, PartialEq, Eq, Structural)]
pub enum Phase {
    /// Between stanzas, waiting for content.
    AwaitingContent,
    /// Inside a `message` element, collecting the body.
    InMessageBody,
    /// Terminal: the stream ended or decoding failed.
    Ended,
}

/// One lexical piece of the stream, as carried by executable code.
pub enum Token {
    /// A tag; `content` is the byte run between `<` and `>`.
    Tag { content: Vec<u8> },
    /// A raw text run between tags.
    Text { raw: Vec<u8> },
    /// The end of the input.
    InputEnd,
}

/// One lexical piece of the stream, at the specification level.
pub enum SToken {
    /// An opening tag with its name and the raw value of its `to`
    /// attribute, when one stands before the first malformed attribute.
    OpenTag { name: Seq<u8>, to_raw: Option<Seq<u8>> },
    /// A closing tag with its name.
    CloseTag { name: Seq<u8> },
    /// A raw text run.
    TextRun { raw: Seq<u8> },
    /// A declaration, comment, self-closing or empty tag: stream content
    /// the machine ignores.
    IgnoredTag,
    /// The end of the input.
    InputEnd,
    /// A tag still open at the end of the input: a decode failure.
    BadTag,
}

/// What a tag's content stands for.
pub open spec fn tag_view(c: Seq<u8>) -> SToken {
    match spec_tag_kind(c) {
        TagKind::Open => SToken::OpenTag {
            name: spec_tag_name(c),
            to_raw: spec_to_value(c, find_ws_from(c, 0)),
        },
        TagKind::Close => SToken::CloseTag { name: spec_tag_name(c) },
        TagKind::Ignored => SToken::IgnoredTag,
    }
}

/// What an executable token stands for.
pub open spec fn token_view(t: Token) -> SToken {
    match t {
        Token::Tag { content } => tag_view(content@),
        Token::Text { raw } => SToken::TextRun { raw: raw@ },
        Token::InputEnd => SToken::InputEnd,
    }
}

/// The token found at position `pos` of the stream `data`, together with
/// the position right after it. `done` says whether the input has ended;
/// before that, an incomplete trailing piece is no token yet.
pub open spec fn stoken_at(data: Seq<u8>, pos: int, done: bool, st: SToken, np: int) -> bool {
    if pos >= data.len() {
        done && st == SToken::InputEnd && np == pos
    } else if data[pos] == LT {
        let j = find_from(data, pos + 1, GT);
        if j >= data.len() {
            done && st == SToken::BadTag && np == pos
        } else {
            st == tag_view(data.subrange(pos + 1, j)) && np == j + 1
        }
    } else {
        let j = find_from(data, pos, LT);
        (j < data.len() || done) && st == (SToken::TextRun { raw: data.subrange(pos, j) }) && np
            == j
    }
}

/// What the decoder reports after looking at the stream.
pub enum Event {
    /// Nothing complete is buffered: feed more bytes, or close the input.
    NeedInput,
    /// A piece was consumed with nothing to report.
    Handled,
    /// The stream-open tag arrived; the fixed stream header is owed to the
    /// client.
    StreamOpened,
    /// A complete message stanza: deliver `body` to the client registered
    /// as `to`.
    Message { to: Vec<u8>, body: Vec<u8> },
    /// The stream ended normally.
    Ended,
    /// Decoding failed; the stream is ended.
    Failed,
}

/// What the decoder reports, at the specification level.
pub enum SEvent {
    /// Nothing to report.
    Quiet,
    StreamOpened,
    Message { to: Seq<u8>, body: Seq<u8> },
    Ended,
    Failed,
}

/// What an executable event stands for.
pub open spec fn event_view(ev: Event) -> SEvent {
    match ev {
        Event::NeedInput => SEvent::Quiet,
        Event::Handled => SEvent::Quiet,
        Event::StreamOpened => SEvent::StreamOpened,
        Event::Message { to, body } => SEvent::Message { to: to@, body: body@ },
        Event::Ended => SEvent::Ended,
        Event::Failed => SEvent::Failed,
    }
}

/// The machine's state after one token, and what it reports.
pub struct StepOutcome {
    pub phase: Phase,
    pub target: Seq<u8>,
    pub body: Seq<u8>,
    pub event: SEvent,
}

/// The transition of the state machine: one token against the current
/// phase, the recorded routing target, and the body collected so far.
pub open spec fn step(phase: Phase, target: Seq<u8>, body: Seq<u8>, t: SToken) -> StepOutcome {
    match phase {
        Phase::AwaitingContent => match t {
            SToken::OpenTag { name, to_raw } => {
                if name == stream_name() {
                    StepOutcome { phase, target, body, event: SEvent::StreamOpened }
                } else if name == message_name() {
                    match to_raw {
                        Some(raw) => match spec_decode_text(raw) {
                            Some(to) => StepOutcome {
                                phase: Phase::InMessageBody,
                                target: to,
                                body: Seq::empty(),
                                event: SEvent::Quiet,
                            },
                            None => StepOutcome {
                                phase: Phase::Ended,
                                target,
                                body,
                                event: SEvent::Failed,
                            },
                        },
                        None => StepOutcome { phase, target, body, event: SEvent::Quiet },
                    }
                } else {
                    StepOutcome { phase, target, body, event: SEvent::Quiet }
                }
            },
            SToken::InputEnd => StepOutcome {
                phase: Phase::Ended,
                target,
                body,
                event: SEvent::Ended,
            },
            SToken::BadTag => StepOutcome {
                phase: Phase::Ended,
                target,
                body,
                event: SEvent::Failed,
            },
            _ => StepOutcome { phase, target, body, event: SEvent::Quiet },
        },
        Phase::InMessageBody => match t {
            SToken::TextRun { raw } => {
                let trimmed = spec_trim(raw);
                if trimmed.len() == 0 {
                    StepOutcome { phase, target, body, event: SEvent::Quiet }
                } else {
                    match spec_decode_text(trimmed) {
                        Some(b) => StepOutcome { phase, target, body: b, event: SEvent::Quiet },
                        None => StepOutcome {
                            phase: Phase::Ended,
                            target,
                            body,
                            event: SEvent::Failed,
                        },
                    }
                }
            },
            SToken::CloseTag { name } => {
                if name == body_name() || name == message_name() {
                    StepOutcome {
                        phase: Phase::AwaitingContent,
                        target: Seq::empty(),
                        body: Seq::empty(),
                        event: SEvent::Message { to: target, body },
                    }
                } else {
                    StepOutcome { phase, target, body, event: SEvent::Quiet }
                }
            },
            SToken::InputEnd => StepOutcome {
                phase: Phase::Ended,
                target,
                body,
                event: SEvent::Ended,
            },
            SToken::BadTag => StepOutcome {
                phase: Phase::Ended,
                target,
                body,
                event: SEvent::Failed,
            },
            _ => StepOutcome { phase, target, body, event: SEvent::Quiet },
        },
        Phase::Ended => StepOutcome { phase, target, body, event: SEvent::Ended },
    }
}

/// What the tokenizer found, stepping once over the buffered stream.
enum Scan {
    /// No complete piece is buffered and the input has not ended.
    NeedMore,
    /// One complete token.
    Got(Token),
    /// A tag still open at the end of the input.
    Bad,
}

/// The per-connection incremental decoder. Bytes are fed in arbitrary
/// chunks; events come out one token at a time, re-entrant across chunk
/// boundaries.
pub struct Decoder {
    data: Vec<u8>,
    pos: usize,
    input_ended: bool,
    phase: Phase,
    target: Vec<u8>,
    body: Vec<u8>,
}

impl Decoder {
    /// All bytes fed so far.
    pub closed spec fn stream(&self) -> Seq<u8> {
        self.data@
    }

    /// How many buffered bytes have been consumed.
    pub closed spec fn consumed(&self) -> int {
        self.pos as int
    }

    /// Whether the input was closed.
    pub closed spec fn input_done(&self) -> bool {
        self.input_ended
    }

    /// Where the state machine stands.
    pub closed spec fn state(&self) -> Phase {
        self.phase
    }

    /// The routing target recorded for the open message.
    pub closed spec fn target_text(&self) -> Seq<u8> {
        self.target@
    }

    /// The body collected so far for the open message.
    pub closed spec fn body_text(&self) -> Seq<u8> {
        self.body@
    }

    pub open spec fn wf(&self) -> bool {
        0 <= self.consumed() <= self.stream().len()
    }

    /// A fresh decoder with nothing buffered, waiting for content.
    pub fn new() -> (r: Decoder)
        ensures
            r.wf(),
            r.stream() == Seq::<u8>::empty(),
            r.consumed() == 0,
            !r.input_done(),
            r.state() == Phase::AwaitingContent,
    {
        Decoder {
            data: Vec::new(),
            pos: 0,
            input_ended: false,
            phase: Phase::AwaitingContent,
            target: Vec::new(),
            body: Vec::new(),
        }
    }

    /// Hands the decoder one chunk of bytes read from the connection.
    pub fn feed(&mut self, chunk: &[u8])
        requires
            old(self).wf(),
        ensures
            final(self).wf(),
            final(self).stream() == old(self).stream() + chunk@,
            final(self).consumed() == old(self).consumed(),
            final(self).input_done() == old(self).input_done(),
            final(self).state() == old(self).state(),
            final(self).target_text() == old(self).target_text(),
            final(self).body_text() == old(self).body_text(),
    {
        self.data.extend_from_slice(chunk);
    }

    /// Tells the decoder that the connection's input ended.
    pub fn close(&mut self)
        ensures
            final(self).input_done(),
            final(self).stream() == old(self).stream(),
            final(self).consumed() == old(self).consumed(),
            final(self).state() == old(self).state(),
            final(self).target_text() == old(self).target_text(),
            final(self).body_text() == old(self).body_text(),
            final(self).wf() == old(self).wf(),
    {
        self.input_ended = true;
    }

    fn take_token(&mut self) -> (r: Scan)
        requires
            old(self).wf(),
        ensures
            final(self).wf(),
            final(self).data == old(self).data,
            final(self).input_ended == old(self).input_ended,
            final(self).phase == old(self).phase,
            final(self).target == old(self).target,
            final(self).body == old(self).body,
            old(self).pos <= final(self).pos,
            match r {
                Scan::NeedMore => *final(self) == *old(self) && !old(self).input_ended && (forall|
                    st: SToken,
                    np: int,
                |
                    !#[trigger] stoken_at(
                        old(self).data@,
                        old(self).pos as int,
                        old(self).input_ended,
                        st,
                        np,
                    )),
                Scan::Bad => *final(self) == *old(self) && stoken_at(
                    old(self).data@,
                    old(self).pos as int,
                    old(self).input_ended,
                    SToken::BadTag,
                    final(self).pos as int,
                ),
                Scan::Got(t) => stoken_at(
                    old(self).data@,
                    old(self).pos as int,
                    old(self).input_ended,
                    token_view(t),
                    final(self).pos as int,
                ),
            },
    {
        let n = self.data.len();
        if self.pos >= n {
            if self.input_ended {
                Scan::Got(Token::InputEnd)
            } else {
                Scan::NeedMore
            }
        } else if self.data[self.pos] == LT {
            let j = find_byte(&self.data, self.pos + 1, GT);
            if j == n {
                if self.input_ended {
                    Scan::Bad
                } else {
                    Scan::NeedMore
                }
            } else {
                let content = copy_range(&self.data, self.pos + 1, j);
                self.pos = j + 1;
                Scan::Got(Token::Tag { content })
            }
        } else {
            let j = find_byte(&self.data, self.pos, LT);
            if j == n && !self.input_ended {
                Scan::NeedMore
            } else {
                let raw = copy_range(&self.data, self.pos, j);
                self.pos = j;
                Scan::Got(Token::Text { raw })
            }
        }
    }

    fn accept_token(&mut self, t: Token) -> (ev: Event)
        requires
            old(self).wf(),
        ensures
            final(self).wf(),
            final(self).data == old(self).data,
            final(self).pos == old(self).pos,
            final(self).input_ended == old(self).input_ended,
            !(ev is NeedInput),
            ({
                let o = step(old(self).phase, old(self).target@, old(self).body@, token_view(t));
                &&& final(self).phase == o.phase
                &&& final(self).target@ == o.target
                &&& final(self).body@ == o.body
                &&& event_view(ev) == o.event
            }),
    {
        match self.phase {
            Phase::Ended => Event::Ended,
            Phase::AwaitingContent => match t {
                Token::Tag { content } => match tag_kind(&content) {
                    TagKind::Open => {
                        let name = tag_name(&content);
                        let sn = stream_name_vec();
                        if bytes_eq(&name, &sn) {
                            Event::StreamOpened
                        } else {
                            let mn = message_name_vec();
                            if bytes_eq(&name, &mn) {
                                let ws = find_ws(&content, 0);
                                match scan_to_value(&content, ws) {
                                    Some(raw) => match decode_text(&raw) {
                                        Some(to) => {
                                            self.phase = Phase::InMessageBody;
                                            self.target = to;
                                            self.body = Vec::new();
                                            Event::Handled
                                        },
                                        None => {
                                            self.phase = Phase::Ended;
                                            Event::Failed
                                        },
                                    },
                                    None => Event::Handled,
                                }
                            } else {
                                Event::Handled
                            }
                        }
                    },
                    TagKind::Close => Event::Handled,
                    TagKind::Ignored => Event::Handled,
                },
                Token::Text { raw: _ } => Event::Handled,
                Token::InputEnd => {
                    self.phase = Phase::Ended;
                    Event::Ended
                },
            },
            Phase::InMessageBody => match t {
                Token::Tag { content } => match tag_kind(&content) {
                    TagKind::Close => {
                        let name = tag_name(&content);
                        let bn = body_name_vec();
                        let mn = message_name_vec();
                        if bytes_eq(&name, &bn) || bytes_eq(&name, &mn) {
                            self.phase = Phase::AwaitingContent;
                            let mut to: Vec<u8> = Vec::new();
                            let mut body: Vec<u8> = Vec::new();
                            core::mem::swap(&mut to, &mut self.target);
                            core::mem::swap(&mut body, &mut self.body);
                            Event::Message { to, body }
                        } else {
                            Event::Handled
                        }
                    },
                    TagKind::Open => Event::Handled,
                    TagKind::Ignored => Event::Handled,
                },
                Token::Text { raw } => {
                    let trimmed = trim_bytes(&raw);
                    if trimmed.len() == 0 {
                        Event::Handled
                    } else {
                        match decode_text(&trimmed) {
                            Some(b) => {
                                self.body = b;
                                Event::Handled
                            },
                            None => {
                                self.phase = Phase::Ended;
                                Event::Failed
                            },
                        }
                    }
                },
                Token::InputEnd => {
                    self.phase = Phase::Ended;
                    Event::Ended
                },
            },
        }
    }

    /// Looks at the buffered stream and reports the next event: either
    /// nothing complete is buffered yet, or one token was consumed and the
    /// state machine moved as `step` says.
    pub fn next_event(&mut self) -> (ev: Event)
        requires
            old(self).wf(),
        ensures
            final(self).wf(),
            final(self).stream() == old(self).stream(),
            final(self).input_done() == old(self).input_done(),
            old(self).consumed() <= final(self).consumed(),
            match ev {
                Event::NeedInput => *final(self) == *old(self) && !old(self).input_done() && (
                forall|st: SToken, np: int|
                    !#[trigger] stoken_at(
                        old(self).stream(),
                        old(self).consumed(),
                        old(self).input_done(),
                        st,
                        np,
                    )),
                _ => {
                    if old(self).state() is Ended {
                        ev is Ended && *final(self) == *old(self)
                    } else {
                        exists|st: SToken|
                            {
                                let o = step(
                                    old(self).state(),
                                    old(self).target_text(),
                                    old(self).body_text(),
                                    st,
                                );
                                &&& #[trigger] stoken_at(
                                    old(self).stream(),
                                    old(self).consumed(),
                                    old(self).input_done(),
                                    st,
                                    final(self).consumed(),
                                )
                                &&& final(self).state() == o.phase
                                &&& final(self).target_text() == o.target
                                &&& final(self).body_text() == o.body
                                &&& event_view(ev) == o.event
                            }
                    }
                },
            },
    {
        match self.phase {
            Phase::Ended => {
                return Event::Ended;
            },
            _ => {},
        }
        match self.take_token() {
            Scan::NeedMore => Event::NeedInput,
            Scan::Bad => {
                let ghost st = SToken::BadTag;
                self.phase = Phase::Ended;
                proof {
                    let o = step(
                        old(self).state(),
                        old(self).target_text(),
                        old(self).body_text(),
                        st,
                    );
                    assert(o.event == SEvent::Failed);
                }
                Event::Failed
            },
            Scan::Got(t) => {
                let ghost st = token_view(t);
                // The snapshot pins the state between tokenizing and
                // accepting, which the postcondition's witness needs.
                let ghost scanned = *self;
                let ev = self.accept_token(t);
                proof {
                    assert(stoken_at(
                        old(self).stream(),
                        old(self).consumed(),
                        old(self).input_done(),
                        st,
                        final(self).consumed(),
                    ));
                }
                ev
            },
        }
    }
}

/// A complete stanza produces exactly its message, whatever state the
/// collector fields held before: a `message` opening tag with a decodable
/// target, the `body` opening tag (which changes nothing), one decodable
/// text run, and a closing `body` or `message` tag make the machine emit
/// the decoded target and the decoded, trimmed run, and return to waiting
/// for content.
pub proof fn lemma_stanza_emits_message(
    target0: Seq<u8>,
    body0: Seq<u8>,
    to_raw: Seq<u8>,
    run: Seq<u8>,
    close: Seq<u8>,
)
    requires
        spec_decode_text(to_raw) is Some,
        spec_trim(run).len() > 0,
        spec_decode_text(spec_trim(run)) is Some,
        close == body_name() || close == message_name(),
    ensures
        ({
            let s1 = step(
                Phase::AwaitingContent,
                target0,
                body0,
                SToken::OpenTag { name: message_name(), to_raw: Some(to_raw) },
            );
            let s2 = step(
                s1.phase,
                s1.target,
                s1.body,
                SToken::OpenTag { name: body_name(), to_raw: None },
            );
            let s3 = step(s2.phase, s2.target, s2.body, SToken::TextRun { raw: run });
            let s4 = step(s3.phase, s3.target, s3.body, SToken::CloseTag { name: close });
            &&& s4.event == (SEvent::Message {
                to: spec_decode_text(to_raw).unwrap(),
                body: spec_decode_text(spec_trim(run)).unwrap(),
            })
            &&& s4.phase is AwaitingContent
        }),
{
    assert(message_name() != stream_name());
    assert(body_name() != stream_name());
    assert(body_name() != message_name());
}

/// Inside one stanza, a later text run replaces an earlier one: after two
/// decodable text runs and a closing `body` or `message` tag, the machine
/// emits a message whose body is the later run's text alone, whatever the
/// earlier run held.
pub proof fn lemma_last_text_run_wins(
    target: Seq<u8>,
    body0: Seq<u8>,
    r1: Seq<u8>,
    r2: Seq<u8>,
    close: Seq<u8>,
)
    requires
        spec_trim(r1).len() > 0,
        spec_trim(r2).len() > 0,
        spec_decode_text(spec_trim(r1)) is Some,
        spec_decode_text(spec_trim(r2)) is Some,
        close == body_name() || close == message_name(),
    ensures
        ({
            let s1 = step(Phase::InMessageBody, target, body0, SToken::TextRun { raw: r1 });
            let s2 = step(s1.phase, s1.target, s1.body, SToken::TextRun { raw: r2 });
            let s3 = step(s2.phase, s2.target, s2.body, SToken::CloseTag { name: close });
            s3.event == (SEvent::Message {
                to: target,
                body: spec_decode_text(spec_trim(r2)).unwrap(),
            })
        }),
{
}

} // verus!
