//! The parser for streamed replies: lines of `data: <json>`, ended by `data: [DONE]`.
//!
//! Each frame's delta is added to a running text, and after each frame the whole
//! running text is emitted, so that every emission can be shown as it is.
use vstd::prelude::*;
use vstd::string::*;
use crate::json::{Json, JsonValue, json_doc, opt_ref, parse_json};
use crate::normalize::{delta_from_frame, frame_delta, opt_text};
use crate::text::{has_prefix, same_text, strip_prefix, texts, trim, trimmed};

verus! {

pub struct StreamState {
    /// The text gathered so far.
    pub content: Seq<char>,
    /// Whether the end marker has been read.
    pub closed: bool,
}

pub open spec fn initial_state() -> StreamState {
    StreamState { content: Seq::empty(), closed: false }
}

/// What is emitted in place of a frame that could not be read.
pub open spec fn diagnostic(payload: Seq<char>) -> Seq<char> {
    "Error parsing JSON response.\nReceived: "@ + payload
}

/// The payload of a `data:` line, trimmed; `None` for any other line.
pub open spec fn payload_of(line: Seq<char>) -> Option<Seq<char>> {
    if has_prefix(line, "data:"@) {
        Some(trimmed(line.subrange("data:"@.len() as int, line.len() as int)))
    } else {
        None
    }
}

/// The next state and the emission, for a frame with this payload that parsed as `frame`.
pub open spec fn frame_step(s: StreamState, payload: Seq<char>, frame: Option<Json>) -> (
    StreamState,
    Option<Seq<char>>,
) {
    if s.closed {
        (s, None)
    } else {
        match frame {
            Some(j) => match frame_delta(j) {
                Some(d) => (StreamState { content: s.content + d, closed: false }, Some(s.content + d)),
                None => (s, Some(diagnostic(payload))),
            },
            None => (s, Some(diagnostic(payload))),
        }
    }
}

/// The next state and the emission, for one line of the stream.
pub open spec fn step(s: StreamState, line: Seq<char>) -> (StreamState, Option<Seq<char>>) {
    if s.closed {
        (s, None)
    } else {
        match payload_of(line) {
            None => (s, None),
            Some(p) => if p == "[DONE]"@ {
                (StreamState { content: s.content, closed: true }, None)
            } else {
                frame_step(s, p, json_doc(p))
            },
        }
    }
}

/// The state once the body has ended: closed, with the text gathered so far.
pub open spec fn ended(s: StreamState) -> StreamState {
    StreamState { content: s.content, closed: true }
}

/// The state after reading `lines` from `s`.
pub open spec fn run(s: StreamState, lines: Seq<Seq<char>>) -> StreamState
    decreases lines.len(),
{
    if lines.len() == 0 {
        s
    } else {
        step(run(s, lines.subrange(0, lines.len() - 1)), lines[lines.len() - 1]).0
    }
}

pub struct StreamParser {
    content: String,
    closed: bool,
}

impl View for StreamParser {
    type V = StreamState;

    closed spec fn view(&self) -> StreamState {
        StreamState { content: self.content@, closed: self.closed }
    }
}

impl StreamParser {
    pub fn new() -> (r: Self)
        ensures
            r@ == initial_state(),
    {
        StreamParser { content: String::new(), closed: false }
    }

    pub fn is_closed(&self) -> (r: bool)
        ensures
            r == self@.closed,
    {
        self.closed
    }

    /// The text gathered so far.
    pub fn content(&self) -> (r: &str)
        ensures
            r@ == self@.content,
    {
        self.content.as_str()
    }

    /// The body ended, with or without the end marker: nothing more is read.
    pub fn end_of_body(&mut self)
        ensures
            final(self)@ == ended(old(self)@),
    {
        self.closed = true;
    }

    /// Takes a frame whose payload was read as `frame` (`None`: not JSON).
    pub fn apply_frame(&mut self, payload: &str, frame: Option<&JsonValue>) -> (r: Option<String>)
        ensures
            (final(self)@, opt_text(r)) == frame_step(old(self)@, payload@, opt_ref(frame)),
    {
        if self.closed {
            return None;
        }
        let delta = match frame {
            Some(j) => delta_from_frame(j),
            None => None,
        };
        match delta {
            Some(d) => {
                self.content.append(d.as_str());
                Some(self.content.clone())
            },
            None => {
                let mut t = String::new();
                t.append("Error parsing JSON response.\nReceived: ");
                t.append(payload);
                Some(t)
            },
        }
    }

    /// Takes one line of the stream; returns what to show, if anything changed.
    pub fn feed_line(&mut self, line: &str) -> (r: Option<String>)
        ensures
            (final(self)@, opt_text(r)) == step(old(self)@, line@),
    {
        if self.closed {
            return None;
        }
        match strip_prefix(line, "data:") {
            None => None,
            Some(rest) => {
                let payload = trim(rest);
                if same_text(payload, "[DONE]") {
                    self.closed = true;
                    None
                } else {
                    let parsed = parse_json(payload);
                    match parsed {
                        Some(j) => self.apply_frame(payload, Some(&j)),
                        None => self.apply_frame(payload, None),
                    }
                }
            },
        }
    }
}

/// Reads `lines` with a new parser and returns the text gathered.
pub fn replay(lines: &Vec<String>) -> (r: String)
    ensures
        r@ == run(initial_state(), texts(lines@)).content,
{
    let mut p = StreamParser::new();
    let mut i: usize = 0;
    while i < lines.len()
        invariant
            i <= lines.len(),
            p@ == run(initial_state(), texts(lines@).subrange(0, i as int)),
        decreases lines.len() - i,
    {
        let ghost pre = texts(lines@).subrange(0, i as int);
        assert(texts(lines@).subrange(0, i + 1).subrange(0, i as int) =~= pre);
        let _ = p.feed_line(lines[i].as_str());
        i = i + 1;
    }
    assert(texts(lines@).subrange(0, lines@.len() as int) =~= texts(lines@));
    p.content.clone()
}

/// Each line leaves the text gathered so far in place and at most adds to its end;
/// a frame that is read emits the whole new text; once the end marker is read,
/// nothing changes and nothing is emitted.
pub proof fn lemma_step_grows(s: StreamState, line: Seq<char>)
    ensures
        has_prefix(step(s, line).0.content, s.content),
        step(s, line).0.content.len() >= s.content.len(),
        step(s, line).1 matches Some(e) ==> e == diagnostic(payload_of(line)->0) || e == step(
            s,
            line,
        ).0.content,
        s.closed ==> step(s, line) == (s, None::<Seq<char>>),
{
    assert(s.content.subrange(0, s.content.len() as int) =~= s.content);
    match frame_delta(json_doc(payload_of(line)->0)->0) {
        Some(d) => {
            assert((s.content + d).subrange(0, s.content.len() as int) =~= s.content);
        },
        None => {},
    }
}

/// Over any run of lines, the text gathered only grows.
pub proof fn lemma_run_grows(s: StreamState, lines: Seq<Seq<char>>)
    ensures
        has_prefix(run(s, lines).content, s.content),
    decreases lines.len(),
{
    if lines.len() == 0 {
        assert(s.content.subrange(0, s.content.len() as int) =~= s.content);
    } else {
        let mid = run(s, lines.subrange(0, lines.len() - 1));
        lemma_run_grows(s, lines.subrange(0, lines.len() - 1));
        lemma_step_grows(mid, lines[lines.len() - 1]);
        let end = run(s, lines).content;
        assert(end.subrange(0, s.content.len() as int) =~= end.subrange(
            0,
            mid.content.len() as int,
        ).subrange(0, s.content.len() as int));
    }
}

/// A closed stream stays as it is, whatever else is read.
pub proof fn lemma_closed_is_final(s: StreamState, lines: Seq<Seq<char>>)
    requires
        s.closed,
    ensures
        run(s, lines) == s,
    decreases lines.len(),
{
    if lines.len() > 0 {
        lemma_closed_is_final(s, lines.subrange(0, lines.len() - 1));
    }
}

/// Reading a stream that ends with the end marker a second time, into the same
/// parser, changes nothing: the gathered text is the one of the first reading.
pub proof fn lemma_replay_after_close(s: StreamState, lines: Seq<Seq<char>>)
    requires
        run(s, lines).closed,
    ensures
        run(run(s, lines), lines) == run(s, lines),
{
    lemma_closed_is_final(run(s, lines), lines);
}

} // verus!
