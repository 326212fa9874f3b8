//! Server-sent events from streaming LLM replies.
//!
//! A line `data: <payload>` carries either `[DONE]` or a JSON event; the
//! caller decodes the JSON into a `StreamEvent` and the chunk it stands for
//! is decided here, for Anthropic's and OpenAI's stream formats.
use vstd::prelude::*;
use crate::text::{chars_of, copy_str, starts_with, starts_with_vec, str_eq, string_from_range};

verus! {

/// One chunk of a streamed reply.
#[derive(Debug)]
pub struct StreamChunk {
    /// Text added, if any.
    pub text: Option<String>,
    /// The reply is complete.
    pub is_done: bool,
    /// Why it stopped, on the last chunk.
    pub stop_reason: Option<String>,
}

/// What the chunk logic reads of a decoded event: each field when the event
/// holds it as a string.
#[derive(Debug)]
pub struct StreamEvent {
    /// `type` (Anthropic).
    pub event_type: Option<String>,
    /// `delta.text` (Anthropic).
    pub delta_text: Option<String>,
    /// `stop_reason` (Anthropic).
    pub stop_reason: Option<String>,
    /// `choices[0].finish_reason` (OpenAI).
    pub finish_reason: Option<String>,
    /// `choices[0].delta.content` (OpenAI).
    pub delta_content: Option<String>,
}

/// The view of an optional string.
pub open spec fn sv(o: Option<String>) -> Option<Seq<char>> {
    match o {
        Some(s) => Some(s@),
        None => None,
    }
}

/// The chunk an event stands for, as (text, done, stop reason): for
/// Anthropic, a text delta or the message's stop; for OpenAI, a delta, done
/// once a finish reason is given; nothing for other events or providers.
pub open spec fn chunk_of(provider: Seq<char>, e: StreamEvent) -> Option<(Option<Seq<char>>, bool, Option<Seq<char>>)> {
    if provider == "anthropic"@ {
        match e.event_type {
            Some(t) => if t@ == "content_block_delta"@ {
                match e.delta_text {
                    Some(x) => Some((Some(x@), false, None)),
                    None => None,
                }
            } else if t@ == "message_stop"@ {
                Some((None, true, sv(e.stop_reason)))
            } else {
                None
            },
            None => None,
        }
    } else if provider == "openai"@ {
        match e.finish_reason {
            Some(f) => Some((sv(e.delta_content), true, Some(f@))),
            None => Some((sv(e.delta_content), false, None)),
        }
    } else {
        None
    }
}

/// The view of a chunk.
pub open spec fn chunk_view(c: StreamChunk) -> (Option<Seq<char>>, bool, Option<Seq<char>>) {
    (sv(c.text), c.is_done, sv(c.stop_reason))
}

/// What an SSE line carries.
#[derive(Debug)]
pub enum SseLine {
    /// Not a data line.
    Ignored,
    /// The end of the stream.
    Done,
    /// A JSON payload, to decode.
    Payload(String),
}

fn copy_opt(o: &Option<String>) -> (r: Option<String>)
    ensures
        sv(r) == sv(*o),
{
    match o {
        Some(s) => Some(copy_str(s.as_str())),
        None => None,
    }
}

/// Reads an SSE line: a line without the `data: ` prefix is ignored;
/// `[DONE]` ends the stream; anything else is a payload.
pub fn parse_sse_line(line: &str) -> (r: SseLine)
    ensures
        match r {
            SseLine::Ignored => !starts_with(line@, "data: "@),
            SseLine::Done => starts_with(line@, "data: "@) && line@.skip(6) == "[DONE]"@,
            SseLine::Payload(p) => starts_with(line@, "data: "@) && line@.skip(6) != "[DONE]"@ && p@
                == line@.skip(6),
        },
{
    let v = chars_of(line);
    let pre = chars_of("data: ");
    if !starts_with_vec(&v, &pre) {
        return SseLine::Ignored;
    }
    proof {
        reveal_strlit("data: ");
    }
    let data = string_from_range(&v, 6, v.len());
    assert(data@ == line@.skip(6));
    if str_eq(data.as_str(), "[DONE]") {
        SseLine::Done
    } else {
        SseLine::Payload(data)
    }
}

impl StreamChunk {
    /// The chunk that ends the stream.
    pub fn done() -> (r: StreamChunk)
        ensures
            chunk_view(r) == (None::<Seq<char>>, true, Some("stop"@)),
    {
        StreamChunk { text: None, is_done: true, stop_reason: Some(copy_str("stop")) }
    }

    /// The chunk a decoded event stands for, from the given provider.
    pub fn from_event(provider: &str, e: &StreamEvent) -> (r: Option<StreamChunk>)
        ensures
            match r {
                Some(c) => chunk_of(provider@, *e) == Some(chunk_view(c)),
                None => chunk_of(provider@, *e) is None,
            },
    {
        if str_eq(provider, "anthropic") {
            match &e.event_type {
                Some(t) => {
                    if str_eq(t.as_str(), "content_block_delta") {
                        match &e.delta_text {
                            Some(x) => Some(StreamChunk { text: Some(copy_str(x.as_str())), is_done: false, stop_reason: None }),
                            None => None,
                        }
                    } else if str_eq(t.as_str(), "message_stop") {
                        Some(StreamChunk { text: None, is_done: true, stop_reason: copy_opt(&e.stop_reason) })
                    } else {
                        None
                    }
                },
                None => None,
            }
        } else if str_eq(provider, "openai") {
            match &e.finish_reason {
                Some(f) => Some(
                    StreamChunk { text: copy_opt(&e.delta_content), is_done: true, stop_reason: Some(copy_str(f.as_str())) },
                ),
                None => Some(StreamChunk { text: copy_opt(&e.delta_content), is_done: false, stop_reason: None }),
            }
        } else {
            None
        }
    }
}

} // verus!
