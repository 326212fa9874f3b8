//! Layer 2 of the memory: topic files, each a log of dated entries.
//!
//! The files are read and written by the caller; this module computes the
//! text appended to a topic file and the decisions taken on the files.
use vstd::prelude::*;
use crate::memory::index::{last_segment, md_suffix, strip_md};
use crate::text::{
    byte_len, byte_prefix, chars_of, contains, contains_vec, copy_str, fits, insert_sorted,
    is_boundary, prefix_bytes, push_str, string_from_chars, strictly_sorted, utf8_len,
};

verus! {

/// How sure the memory is of an entry.
#[derive(Debug, Clone, Copy, PartialEq, Eq, Structural)]
pub enum Confidence {
    Verified,
    Observed,
    Inferred,
    Stale,
}

/// The label written for a confidence.
pub open spec fn confidence_label(c: Confidence) -> Seq<char> {
    match c {
        Confidence::Verified => "\u{2705} verified"@,
        Confidence::Observed => "\u{1f441} observed"@,
        Confidence::Inferred => "\u{1f52e} inferred"@,
        Confidence::Stale => "\u{26a0} stale"@,
    }
}

impl Confidence {
    /// The label written for this confidence (its display form).
    pub fn label(&self) -> (r: &'static str)
        ensures
            r@ == confidence_label(*self),
    {
        match self {
            Confidence::Verified => "\u{2705} verified",
            Confidence::Observed => "\u{1f441} observed",
            Confidence::Inferred => "\u{1f52e} inferred",
            Confidence::Stale => "\u{26a0} stale",
        }
    }
}

/// One dated entry of a topic file.
#[derive(Debug)]
pub struct TopicEntry {
    pub timestamp: String,
    pub content: String,
    pub source: Option<String>,
    pub confidence: Confidence,
}

/// Why a topic file refused an entry.
#[derive(Debug, Clone, Copy, PartialEq, Eq, Structural)]
pub enum TopicError {
    /// The file already holds this many bytes, at or over the limit.
    AtCapacity { size: usize },
}

/// The topic files under one directory, with their limits.
#[derive(Debug)]
pub struct TopicStore {
    base_dir: String,
    archive_dir: String,
    max_entry_size: usize,
    max_file_size: usize,
}

/// The marker that keeps a topic file from decaying.
pub open spec fn verified_marker() -> Seq<char> {
    "\u{2705} verified"@
}

/// The content of an entry as written: cut to `max` bytes, the cut marked.
pub open spec fn entry_content(content: Seq<char>, max: nat) -> Seq<char> {
    if utf8_len(content) > max {
        byte_prefix(content, max as int) + "... [truncated]"@
    } else {
        content
    }
}

/// The block appended to a topic file for one entry.
pub open spec fn entry_block(
    content: Seq<char>,
    source: Option<Seq<char>>,
    confidence: Confidence,
    stamp: Seq<char>,
    max: nat,
) -> Seq<char> {
    "\n---\n_["@ + stamp + " | "@ + confidence_label(confidence) + "]_\n"@ + match source {
        Some(s) => "_Source: "@ + s + "_\n"@,
        None => Seq::empty(),
    } + entry_content(content, max) + "\n"@
}

/// The title line written at the top of a new topic file.
pub open spec fn title_block(topic_path: Seq<char>) -> Seq<char> {
    "# Memory: "@ + last_segment(strip_md(topic_path)) + "\n\n"@
}

/// Cutting the content at `max` bytes does not split a character.
pub open spec fn entry_cut_ok(content: Seq<char>, max: nat) -> bool {
    fits(content) && (utf8_len(content) > max ==> is_boundary(content, max as int))
}

/// The text appended to a topic file holding `size` bytes (`None`: no file
/// yet): the title when the file is empty, then the entry.
pub open spec fn appended_text(
    topic_path: Seq<char>,
    content: Seq<char>,
    source: Option<Seq<char>>,
    confidence: Confidence,
    size: Option<nat>,
    stamp: Seq<char>,
    max: nat,
) -> Seq<char> {
    (if size is None || size == Some(0nat) {
        title_block(topic_path)
    } else {
        Seq::empty()
    }) + entry_block(content, source, confidence, stamp, max)
}

/// The view of an optional string.
pub open spec fn opt_string(o: Option<&str>) -> Option<Seq<char>> {
    match o {
        Some(s) => Some(s@),
        None => None,
    }
}

/// The view of an optional size.
pub open spec fn opt_size(o: Option<usize>) -> Option<nat> {
    match o {
        Some(n) => Some(n as nat),
        None => None,
    }
}

impl TopicStore {
    pub closed spec fn base_view(&self) -> Seq<char> {
        self.base_dir@
    }

    pub closed spec fn archive_view(&self) -> Seq<char> {
        self.archive_dir@
    }

    /// The longest entry kept whole, in bytes.
    pub closed spec fn entry_limit(&self) -> nat {
        self.max_entry_size as nat
    }

    /// The largest entry written whole, in bytes.
    pub fn entry_limit_bytes(&self) -> (n: usize)
        ensures
            n == self.entry_limit(),
    {
        self.max_entry_size
    }

    /// The size at which a topic file takes no more entries, in bytes.
    pub closed spec fn file_limit(&self) -> nat {
        self.max_file_size as nat
    }

    /// Topic files under `base_dir`, decayed ones moved to `archive_dir`;
    /// entries of at most 2000 bytes, files of at most 50000.
    pub fn new(base_dir: String, archive_dir: String) -> (r: Self)
        ensures
            r.base_view() == base_dir@,
            r.archive_view() == archive_dir@,
            r.entry_limit() == 2000,
            r.file_limit() == 50_000,
    {
        TopicStore { base_dir, archive_dir, max_entry_size: 2000, max_file_size: 50_000 }
    }

    /// The directory of the topic files.
    pub fn base_dir(&self) -> (r: &String)
        ensures
            r@ == self.base_view(),
    {
        &self.base_dir
    }

    /// The directory decayed files move to.
    pub fn archive_dir(&self) -> (r: &String)
        ensures
            r@ == self.archive_view(),
    {
        &self.archive_dir
    }

    /// The title line of a new topic file: `# Memory: ` and the file's name.
    pub fn title_text(topic_path: &str) -> (r: String)
        ensures
            r@ == title_block(topic_path@),
    {
        let v = chars_of(topic_path);
        let s = crate::memory::index::strip_md_exec(&v);
        let t = crate::memory::index::last_segment_exec(&s);
        let mut r = copy_str("# Memory: ");
        let ts = string_from_chars(&t);
        push_str(&mut r, ts.as_str());
        push_str(&mut r, "\n\n");
        r
    }

    /// The block appended for one entry, stamped `stamp`.
    pub fn entry_text(
        &self,
        content: &str,
        source: Option<&str>,
        confidence: Confidence,
        stamp: &str,
    ) -> (r: String)
        requires
            entry_cut_ok(content@, self.entry_limit()),
        ensures
            r@ == entry_block(content@, opt_string(source), confidence, stamp@, self.entry_limit()),
    {
        let mut r = copy_str("\n---\n_[");
        push_str(&mut r, stamp);
        push_str(&mut r, " | ");
        push_str(&mut r, confidence.label());
        push_str(&mut r, "]_\n");
        let ghost head = r@;
        match source {
            Some(s) => {
                push_str(&mut r, "_Source: ");
                push_str(&mut r, s);
                push_str(&mut r, "_\n");
            },
            None => {},
        }
        let ghost with_source = r@;
        if byte_len(content) > self.max_entry_size {
            let p = prefix_bytes(content, self.max_entry_size);
            push_str(&mut r, p.as_str());
            push_str(&mut r, "... [truncated]");
        } else {
            push_str(&mut r, content);
        }
        push_str(&mut r, "\n");
        proof {
            let src = match opt_string(source) {
                Some(s) => "_Source: "@ + s + "_\n"@,
                None => Seq::<char>::empty(),
            };
            assert(with_source =~= head + src);
        }
        r
    }

    /// The text to append to the topic file `topic_path`, which holds `size`
    /// bytes (`None`: no such file yet), or the refusal of a full file.
    pub fn append_text(
        &self,
        topic_path: &str,
        content: &str,
        source: Option<&str>,
        confidence: Confidence,
        size: Option<usize>,
        stamp: &str,
    ) -> (r: Result<String, TopicError>)
        requires
            entry_cut_ok(content@, self.entry_limit()),
        ensures
            match r {
                Ok(t) => (size is None || size.unwrap() < self.file_limit()) && t@ == appended_text(
                    topic_path@,
                    content@,
                    opt_string(source),
                    confidence,
                    opt_size(size),
                    stamp@,
                    self.entry_limit(),
                ),
                Err(e) => size is Some && size.unwrap() >= self.file_limit() && e
                    == TopicError::AtCapacity { size: size.unwrap() },
            },
    {
        match size {
            Some(n) => {
                if n >= self.max_file_size {
                    return Err(TopicError::AtCapacity { size: n });
                }
            },
            None => {},
        }
        let entry = self.entry_text(content, source, confidence, stamp);
        let fresh = match size {
            Some(n) => n == 0,
            None => true,
        };
        let mut r = if fresh {
            Self::title_text(topic_path)
        } else {
            String::new()
        };
        push_str(&mut r, entry.as_str());
        Ok(r)
    }

    /// The topic files found under the directory, in order, each once.
    pub fn list_all(&self, found: Vec<String>) -> (r: Vec<String>)
        ensures
            strictly_sorted(r.deep_view()),
            r.deep_view().to_set() == found.deep_view().to_set(),
    {
        let mut r: Vec<String> = Vec::new();
        let mut k: usize = 0;
        proof {
            assert(r.deep_view().to_set() =~= found.deep_view().take(0).to_set());
        }
        while k < found.len()
            invariant
                k <= found.len(),
                strictly_sorted(r.deep_view()),
                r.deep_view().to_set() == found.deep_view().take(k as int).to_set(),
            decreases found.len() - k,
        {
            let f = copy_str(found[k].as_str());
            insert_sorted(&mut r, f);
            proof {
                assert(found.deep_view().take(k + 1) =~= found.deep_view().take(k as int).push(found.deep_view()[k as int]));
                found.deep_view().take(k as int).lemma_push_to_set_commute(found.deep_view()[k as int]);
            }
            k = k + 1;
        }
        assert(found.deep_view().take(k as int) =~= found.deep_view());
        r
    }

    /// A rough token count of a topic file: a quarter of its bytes, 0 when
    /// there is no such file.
    pub fn estimate_tokens(&self, content: Option<&str>) -> (n: usize)
        requires
            content is Some ==> fits(content.unwrap()@),
        ensures
            n == match content {
                Some(c) => utf8_len(c@) / 4,
                None => 0,
            },
    {
        match content {
            Some(c) => byte_len(c) / 4,
            None => 0,
        }
    }

    /// Whether a topic file decays: untouched for more than `older_than_days`
    /// days (`age_secs` seconds since it changed) and not marked verified.
    pub fn decays(age_secs: u64, older_than_days: u64, content: &str) -> (b: bool)
        requires
            older_than_days * 86400 <= u64::MAX,
        ensures
            b == (age_secs > older_than_days * 86400 && !contains(content@, verified_marker())),
    {
        if age_secs > older_than_days * 86400 {
            let v = chars_of(content);
            let m = chars_of("\u{2705} verified");
            !contains_vec(&v, &m)
        } else {
            false
        }
    }
}

} // verus!
