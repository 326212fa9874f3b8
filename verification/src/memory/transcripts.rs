//! Layer 3 of the memory: archived turns, one JSON line each, in daily files.
use vstd::prelude::*;
use crate::text::{
    byte_len, byte_prefix, chars_of, chars_lt, concat2, copy_str, fits, is_boundary, prefix_bytes,
    push_str, seq_lt, truncated, utf8_len,
};

verus! {

/// The transcript files under one directory.
#[derive(Debug)]
pub struct TranscriptStore {
    base_dir: String,
}

/// One archived turn.
#[derive(Debug)]
pub struct TranscriptEntry {
    pub session_id: String,
    pub turn_number: u64,
    pub role: String,
    pub content_preview: String,
    pub tool_calls: Vec<String>,
    pub tokens: u64,
    pub timestamp: String,
}

/// The first 8 bytes of a session id (all of it when shorter).
pub open spec fn session_prefix(id: Seq<char>) -> Seq<char> {
    if utf8_len(id) >= 8 {
        byte_prefix(id, 8)
    } else {
        id
    }
}

/// The file a turn of session `id` is archived in on `date`.
pub open spec fn transcript_file(date: Seq<char>, id: Seq<char>) -> Seq<char> {
    date + "-"@ + session_prefix(id) + ".jsonl"@
}

/// The preview kept of a turn's content: at most 500 bytes, then "...".
pub open spec fn preview_of(content: Seq<char>) -> Seq<char> {
    if utf8_len(content) > 500 {
        byte_prefix(content, 500) + "..."@
    } else {
        content
    }
}

impl TranscriptStore {
    pub closed spec fn base_view(&self) -> Seq<char> {
        self.base_dir@
    }

    /// The transcripts under `base_dir`.
    pub fn new(base_dir: String) -> (r: Self)
        ensures
            r.base_view() == base_dir@,
    {
        TranscriptStore { base_dir }
    }

    /// The directory of the transcript files.
    pub fn base_dir(&self) -> (r: &String)
        ensures
            r@ == self.base_view(),
    {
        &self.base_dir
    }

    /// The file name for a turn of `session_id` archived on `date`
    /// (`YYYY-MM-DD`): the date, the id's first 8 bytes, `.jsonl`.
    pub fn file_name(date: &str, session_id: &str) -> (r: String)
        requires
            fits(session_id@),
            utf8_len(session_id@) >= 8 ==> is_boundary(session_id@, 8),
        ensures
            r@ == transcript_file(date@, session_id@),
    {
        let mut r = concat2(date, "-");
        if byte_len(session_id) >= 8 {
            let p = prefix_bytes(session_id, 8);
            push_str(&mut r, p.as_str());
        } else {
            push_str(&mut r, session_id);
        }
        push_str(&mut r, ".jsonl");
        r
    }

    /// The preview archived for a turn's content.
    pub fn preview(content: &str) -> (r: String)
        requires
            fits(content@),
            utf8_len(content@) > 500 ==> is_boundary(content@, 500),
        ensures
            r@ == preview_of(content@),
    {
        if byte_len(content) > 500 {
            let mut r = prefix_bytes(content, 500);
            push_str(&mut r, "...");
            r
        } else {
            copy_str(content)
        }
    }

    /// Whether a transcript file (by its name without extension) is older than
    /// the cutoff date: its name sorts before the cutoff.
    pub fn before_cutoff(file_stem: &str, cutoff: &str) -> (b: bool)
        ensures
            b == seq_lt(file_stem@, cutoff@),
    {
        let a = chars_of(file_stem);
        let c = chars_of(cutoff);
        chars_lt(&a, &c)
    }
}

} // verus!
