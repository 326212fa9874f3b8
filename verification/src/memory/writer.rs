//! What the memory accepts, and where it files what it accepts.
//!
//! Memory keeps only what cannot be re-derived from the code: content that
//! looks like code, or is too short, is refused.  Accepted content goes to a
//! topic file first, then a pointer to it goes into the index.
use vstd::prelude::*;
use crate::memory::index::{
    opt_text, pointer_line, render_index, upserted_topics, kept_topics, mentions, MemoryIndex,
};
use crate::memory::topics::{
    appended_text, entry_cut_ok, opt_size, opt_string, Confidence, TopicError, TopicStore,
};
use crate::text::{
    boundary_at, byte_len, can_truncate, can_truncate_chars, chars_of, str_eq, utf8_len_checked, copy_str, fits, has_char, is_alphanumeric, line_ranges,
    lines, lowercase, push_char, push_str, slice_chars, starts_with, starts_with_vec,
    string_from_chars, to_lowercase, trim, trim_bounds, truncate_ellipsis, truncated, utf8_len,
    char_is_alphanumeric,
};

verus! {

/// What became of a request to store something.
#[derive(Debug)]
pub struct WriteResult {
    pub stored: bool,
    pub reason: String,
    pub topic_path: String,
}

/// A stored entry: the answer, the text to append to the topic file and the
/// new index text.
#[derive(Debug)]
pub struct StoreOutcome {
    pub result: WriteResult,
    pub topic_text: Option<String>,
    pub new_index: Option<String>,
}

/// Writes memories: topic file first, then the index pointer.
#[derive(Debug)]
pub struct MemoryWriter {
    index: MemoryIndex,
    topics: TopicStore,
    working_dir: Option<String>,
}

// ---------------------------------------------------------------------------
// Derivable content
// ---------------------------------------------------------------------------

/// A trimmed line that looks like code: a declaration or import keyword at
/// its start, a comment or preprocessor mark, or braces.
pub open spec fn is_code_line(t: Seq<char>) -> bool {
    ||| starts_with(t, "fn "@)
    ||| starts_with(t, "pub fn"@)
    ||| starts_with(t, "def "@)
    ||| starts_with(t, "class "@)
    ||| starts_with(t, "function "@)
    ||| starts_with(t, "const "@)
    ||| starts_with(t, "let "@)
    ||| starts_with(t, "import "@)
    ||| starts_with(t, "from "@)
    ||| starts_with(t, "require("@)
    ||| starts_with(t, "#include"@)
    ||| starts_with(t, "package "@)
    ||| starts_with(t, "//"@)
    ||| starts_with(t, "#"@)
    ||| starts_with(t, "/*"@)
    ||| (t.contains('{') && t.contains('}'))
}

/// How many of the lines look like code once trimmed.
pub open spec fn code_line_count(ls: Seq<Seq<char>>) -> nat
    decreases ls.len(),
{
    if ls.len() == 0 {
        0
    } else {
        code_line_count(ls.drop_last()) + if is_code_line(trim(ls.last())) {
            1nat
        } else {
            0nat
        }
    }
}

/// Content that can be re-derived from the code: more than 60% of its lines
/// look like code.
pub open spec fn derivable(s: Seq<char>) -> bool {
    let ls = lines(s);
    ls.len() > 0 && 5 * code_line_count(ls) > 3 * ls.len()
}

// ---------------------------------------------------------------------------
// Index descriptions
// ---------------------------------------------------------------------------

/// A trimmed line that can describe an entry: not empty, not a heading, not a rule.
pub open spec fn is_summary_line(t: Seq<char>) -> bool {
    t.len() > 0 && !starts_with(t, "#"@) && !starts_with(t, "---"@)
}

/// The first line (trimmed) that can describe an entry.
pub open spec fn first_summary(ls: Seq<Seq<char>>) -> Option<Seq<char>>
    decreases ls.len(),
{
    if ls.len() == 0 {
        None
    } else if is_summary_line(trim(ls[0])) {
        Some(trim(ls[0]))
    } else {
        first_summary(ls.drop_first())
    }
}

/// The line an index description is taken from.
pub open spec fn summary_source(s: Seq<char>) -> Seq<char> {
    match first_summary(lines(s)) {
        Some(t) => t,
        None => "(no description)"@,
    }
}

/// The index description of some content: its first describing line, cut to 120 bytes.
pub open spec fn summary(s: Seq<char>) -> Seq<char> {
    truncated(summary_source(s), 120)
}

// ---------------------------------------------------------------------------
// Paths
// ---------------------------------------------------------------------------

/// Spaces and slashes become dashes.
pub open spec fn dash_for_separator(c: char) -> char {
    if c == ' ' || c == '/' || c == '\\' {
        '-'
    } else {
        c
    }
}

/// `s.replace("..", "")`: every `".."` removed, scanning from the left.
pub open spec fn drop_dot_pairs(s: Seq<char>) -> Seq<char>
    decreases s.len(),
{
    if s.len() >= 2 && s[0] == '.' && s[1] == '.' {
        drop_dot_pairs(s.skip(2))
    } else if s.len() == 0 {
        s
    } else {
        seq![s[0]] + drop_dot_pairs(s.skip(1))
    }
}

/// The characters a path component keeps.
pub open spec fn path_char(c: char) -> bool {
    is_alphanumeric(c) || c == '-' || c == '_'
}

/// A name made safe as a path component: lower-cased, separators turned into
/// dashes, `".."` removed, and only alphanumerics, `-` and `_` kept.
pub open spec fn sanitized(name: Seq<char>) -> Seq<char> {
    drop_dot_pairs(lowercase(name).map_values(|c: char| dash_for_separator(c))).filter(
        |c: char| path_char(c),
    )
}

/// The topic file of a topic and subtopic.
pub open spec fn topic_file(topic: Seq<char>, subtopic: Seq<char>) -> Seq<char> {
    sanitized(topic) + "/"@ + sanitized(subtopic) + ".md"@
}

/// The path reported for refused content (not sanitized).
pub open spec fn raw_topic_file(topic: Seq<char>, subtopic: Seq<char>) -> Seq<char> {
    topic + "/"@ + subtopic + ".md"@
}

/// Content long enough to keep: at least 10 bytes once trimmed.
pub open spec fn long_enough(content: Seq<char>) -> bool {
    utf8_len(trim(content)) >= 10
}

/// Storing `content` under `topic`/`subtopic` does not panic: what is cut, is
/// cut at character boundaries.
pub open spec fn store_cuts_ok(
    topic: Seq<char>,
    subtopic: Seq<char>,
    content: Seq<char>,
    entry_limit: nat,
    line_limit: nat,
) -> bool {
    !derivable(content) && long_enough(content) ==> {
        &&& entry_cut_ok(content, entry_limit)
        &&& can_truncate(summary_source(content), 120)
        &&& can_truncate(pointer_line(topic_file(topic, subtopic), summary(content)), line_limit)
    }
}

fn starts_with_str(t: &Vec<char>, p: &str) -> (b: bool)
    ensures
        b == starts_with(t@, p@),
{
    let pv = chars_of(p);
    starts_with_vec(t, &pv)
}

fn is_code_line_exec(t: &Vec<char>) -> (b: bool)
    ensures
        b == is_code_line(t@),
{
    starts_with_str(t, "fn ") || starts_with_str(t, "pub fn") || starts_with_str(t, "def ")
        || starts_with_str(t, "class ") || starts_with_str(t, "function ") || starts_with_str(
        t,
        "const ",
    ) || starts_with_str(t, "let ") || starts_with_str(t, "import ") || starts_with_str(t, "from ")
        || starts_with_str(t, "require(") || starts_with_str(t, "#include") || starts_with_str(
        t,
        "package ",
    ) || starts_with_str(t, "//") || starts_with_str(t, "#") || starts_with_str(t, "/*") || (
    has_char(t, '{') && has_char(t, '}'))
}

fn drop_dot_pairs_exec(v: &Vec<char>) -> (r: Vec<char>)
    ensures
        r@ == drop_dot_pairs(v@),
{
    let mut r: Vec<char> = Vec::new();
    let mut i: usize = 0;
    proof {
        assert(v@.skip(0) =~= v@);
    }
    while i < v.len()
        invariant
            i <= v.len(),
            r@ + drop_dot_pairs(v@.skip(i as int)) == drop_dot_pairs(v@),
        decreases v.len() - i,
    {
        let ghost s = v@.skip(i as int);
        if i + 1 < v.len() && v[i] == '.' && v[i + 1] == '.' {
            proof {
                assert(s[0] == '.' && s[1] == '.');
                assert(s.skip(2) =~= v@.skip(i + 2));
            }
            i = i + 2;
        } else {
            let ghost before = r@;
            r.push(v[i]);
            proof {
                assert(s[0] == v@[i as int]);
                assert(s.skip(1) =~= v@.skip(i + 1));
                assert(r@ + drop_dot_pairs(v@.skip(i + 1)) =~= before + (seq![s[0]] + drop_dot_pairs(s.skip(1))));
            }
            i = i + 1;
        }
    }
    proof {
        assert(v@.skip(i as int) =~= Seq::<char>::empty());
        assert(r@ + drop_dot_pairs(v@.skip(i as int)) =~= r@);
    }
    r
}

impl MemoryWriter {
    pub closed spec fn index_spec(&self) -> MemoryIndex {
        self.index
    }

    pub closed spec fn topics_spec(&self) -> TopicStore {
        self.topics
    }

    pub closed spec fn working_dir_view(&self) -> Option<Seq<char>> {
        match self.working_dir {
            Some(d) => Some(d@),
            None => None,
        }
    }

    /// A writer for the index at `index_path` and the topic files under
    /// `topics_dir` (decayed ones go to `archive_dir`); no working directory yet.
    pub fn new(index_path: String, topics_dir: String, archive_dir: String) -> (r: Self)
        ensures
            r.index_spec().path_view() == index_path@,
            r.index_spec().line_limit() == 150,
            r.index_spec().line_budget() == 200,
            r.topics_spec().base_view() == topics_dir@,
            r.topics_spec().archive_view() == archive_dir@,
            r.topics_spec().entry_limit() == 2000,
            r.topics_spec().file_limit() == 50_000,
            r.working_dir_view() is None,
    {
        MemoryWriter {
            index: MemoryIndex::new(index_path),
            topics: TopicStore::new(topics_dir, archive_dir),
            working_dir: None,
        }
    }

    /// Sets the working directory.
    pub fn set_working_dir(&mut self, dir: String)
        ensures
            final(self).working_dir_view() == Some(dir@),
            final(self).index_spec() == old(self).index_spec(),
            final(self).topics_spec() == old(self).topics_spec(),
    {
        self.working_dir = Some(dir);
    }

    /// The working directory, once set.
    pub fn working_dir(&self) -> (r: Option<&String>)
        ensures
            match r {
                Some(d) => self.working_dir_view() == Some(d@),
                None => self.working_dir_view() is None,
            },
    {
        match &self.working_dir {
            Some(d) => Some(d),
            None => None,
        }
    }

    /// Whether the content can be re-derived from the code: more than 60% of
    /// its lines look like code.
    pub fn is_derivable(content: &str) -> (b: bool)
        ensures
            b == derivable(content@),
    {
        let v = chars_of(content);
        let ranges = line_ranges(&v);
        let ghost ls = lines(v@);
        if ranges.len() == 0 {
            return false;
        }
        let mut code: usize = 0;
        let mut k: usize = 0;
        while k < ranges.len()
            invariant
                v@ == content@,
                ls == lines(v@),
                crate::text::ranges_are_lines(v@, ranges@, ls),
                k <= ranges.len(),
                code <= k,
                code == code_line_count(ls.take(k as int)),
            decreases ranges.len() - k,
        {
            let (lo, hi) = ranges[k];
            let (a, b) = trim_bounds(&v, lo, hi);
            let t = slice_chars(&v, a, b);
            proof {
                assert(ls.take(k + 1).drop_last() =~= ls.take(k as int));
                assert(ls.take(k + 1).last() == ls[k as int]);
            }
            if is_code_line_exec(&t) {
                code = code + 1;
            }
            k = k + 1;
        }
        assert(ls.take(k as int) =~= ls);
        (code as u128) * 5 > (ranges.len() as u128) * 3
    }

    /// The description the index gets for some content: its first line that
    /// is not empty, a heading or a rule (trimmed; "(no description)" when
    /// there is none), cut to 120 bytes.
    pub fn summarize_for_index(content: &str) -> (r: String)
        requires
            can_truncate(summary_source(content@), 120),
        ensures
            r@ == summary(content@),
    {
        let t = Self::summary_source_text(content);
        let s = string_from_chars(&t);
        truncate_ellipsis(s.as_str(), 120)
    }

    /// The line the index description is taken from: the first line that is
    /// not empty, a heading or a rule (trimmed), else "(no description)".
    fn summary_source_text(content: &str) -> (r: Vec<char>)
        ensures
            r@ == summary_source(content@),
    {
        let v = chars_of(content);
        let ranges = line_ranges(&v);
        let ghost ls = lines(v@);
        let mut k: usize = 0;
        proof {
            assert(ls.skip(0) =~= ls);
        }
        while k < ranges.len()
            invariant
                v@ == content@,
                ls == lines(v@),
                crate::text::ranges_are_lines(v@, ranges@, ls),
                k <= ranges.len(),
                first_summary(ls.skip(k as int)) == first_summary(ls),
            decreases ranges.len() - k,
        {
            let (lo, hi) = ranges[k];
            let (a, b) = trim_bounds(&v, lo, hi);
            let t = slice_chars(&v, a, b);
            proof {
                assert(ls.skip(k as int)[0] == ls[k as int]);
                assert(ls.skip(k as int).drop_first() =~= ls.skip(k + 1));
            }
            if t.len() > 0 && !starts_with_str(&t, "#") && !starts_with_str(&t, "---") {
                proof {
                    assert(t@ == trim(ls[k as int]));
                    assert(first_summary(ls.skip(k as int)) == Some(t@));
                }
                return t;
            }
            k = k + 1;
        }
        proof {
            assert(ls.skip(k as int) =~= Seq::<Seq<char>>::empty());
        }
        chars_of("(no description)")
    }

    /// Whether storing `content` under `topic`/`subtopic` cuts every text on
    /// a character boundary (what `store` needs).
    pub fn can_store(&self, topic: &str, subtopic: &str, content: &str) -> (b: bool)
        requires
            fits(content@),
        ensures
            b == store_cuts_ok(
                topic@,
                subtopic@,
                content@,
                self.topics_spec().entry_limit(),
                self.index_spec().line_limit(),
            ),
    {
        if Self::is_derivable(content) {
            return true;
        }
        let trimmed = crate::text::trim_str(content);
        proof {
            crate::text::lemma_trim_props(content@);
            crate::text::lemma_trim_len(content@);
        }
        if byte_len(trimmed.as_str()) < 10 {
            return true;
        }
        let cv = chars_of(content);
        let limit = self.topics.entry_limit_bytes();
        if byte_len(content) > limit && !boundary_at(&cv, limit) {
            return false;
        }
        let src = Self::summary_source_text(content);
        if !can_truncate_chars(&src, 120) {
            return false;
        }
        let s = string_from_chars(&src);
        let description = truncate_ellipsis(s.as_str(), 120);
        let path = Self::topic_path(topic, subtopic);
        self.index.can_point(path.as_str(), description.as_str())
    }

    /// A name made safe as one path component: lower-cased, spaces and slashes
    /// turned into dashes, `".."` removed, only alphanumerics, `-` and `_` kept.
    pub fn sanitize_path(name: &str) -> (r: String)
        ensures
            r@ == sanitized(name@),
    {
        let low = to_lowercase(name);
        let lv = chars_of(low.as_str());
        let mut mapped: Vec<char> = Vec::new();
        let mut i: usize = 0;
        while i < lv.len()
            invariant
                i <= lv.len(),
                mapped@ == lv@.take(i as int).map_values(|c: char| dash_for_separator(c)),
            decreases lv.len() - i,
        {
            let c = lv[i];
            let d = if c == ' ' || c == '/' || c == '\\' {
                '-'
            } else {
                c
            };
            mapped.push(d);
            proof {
                assert(lv@.take(i + 1).map_values(|c: char| dash_for_separator(c)) =~= lv@.take(
                    i as int,
                ).map_values(|c: char| dash_for_separator(c)).push(dash_for_separator(c)));
            }
            i = i + 1;
        }
        assert(lv@.take(i as int) =~= lv@);
        let dropped = drop_dot_pairs_exec(&mapped);
        let mut r = String::new();
        let mut j: usize = 0;
        while j < dropped.len()
            invariant
                j <= dropped.len(),
                r@ == dropped@.take(j as int).filter(|c: char| path_char(c)),
            decreases dropped.len() - j,
        {
            let c = dropped[j];
            let keep = char_is_alphanumeric(c) || c == '-' || c == '_';
            proof {
                reveal(Seq::filter);
                assert(dropped@.take(j + 1).drop_last() =~= dropped@.take(j as int));
                assert(dropped@.take(j + 1).last() == c);
            }
            if keep {
                push_char(&mut r, c);
            }
            j = j + 1;
        }
        assert(dropped@.take(j as int) =~= dropped@);
        r
    }

    /// The topic file of a topic and subtopic: `topic/subtopic.md`, both sanitized.
    pub fn topic_path(topic: &str, subtopic: &str) -> (r: String)
        ensures
            r@ == topic_file(topic@, subtopic@),
    {
        let mut r = Self::sanitize_path(topic);
        push_str(&mut r, "/");
        let s = Self::sanitize_path(subtopic);
        push_str(&mut r, s.as_str());
        push_str(&mut r, ".md");
        r
    }

    fn raw_path(topic: &str, subtopic: &str) -> (r: String)
        ensures
            r@ == raw_topic_file(topic@, subtopic@),
    {
        let mut r = copy_str(topic);
        push_str(&mut r, "/");
        push_str(&mut r, subtopic);
        push_str(&mut r, ".md");
        r
    }

    /// Stores `content` under `topic`/`subtopic`, given the current index text
    /// (`existing_index`), the size of the topic file (`None`: no file yet) and
    /// the time `stamp`.  Refuses derivable or too short content; refuses a full
    /// topic file with an error; otherwise returns the text to append to the
    /// topic file and the new index text, whose pointer is filed under `topic`.
    pub fn store(
        &self,
        topic: &str,
        subtopic: &str,
        content: &str,
        source: Option<&str>,
        confidence: Confidence,
        existing_index: Option<&str>,
        topic_file_size: Option<usize>,
        stamp: &str,
    ) -> (r: Result<StoreOutcome, TopicError>)
        requires
            fits(content@),
            store_cuts_ok(
                topic@,
                subtopic@,
                content@,
                self.topics_spec().entry_limit(),
                self.index_spec().line_limit(),
            ),
        ensures
            derivable(content@) ==> (r matches Ok(o) && !o.result.stored && o.result.reason@
                == "Content can be re-derived from the codebase. Not storing."@
                && o.result.topic_path@ == raw_topic_file(topic@, subtopic@) && o.topic_text is None
                && o.new_index is None),
            !derivable(content@) && !long_enough(content@) ==> (r matches Ok(o) && !o.result.stored
                && o.result.reason@ == "Content too short to be useful."@ && o.result.topic_path@
                == raw_topic_file(topic@, subtopic@) && o.topic_text is None && o.new_index is None),
            !derivable(content@) && long_enough(content@) ==> match r {
                Ok(o) => {
                    &&& topic_file_size is None || topic_file_size.unwrap() < self.topics_spec().file_limit()
                    &&& o.result.stored
                    &&& o.result.reason@ == "Successfully stored."@
                    &&& o.result.topic_path@ == topic_file(topic@, subtopic@)
                    &&& o.topic_text matches Some(t) && t@ == appended_text(
                        topic_file(topic@, subtopic@),
                        content@,
                        opt_string(source),
                        confidence,
                        opt_size(topic_file_size),
                        stamp@,
                        self.topics_spec().entry_limit(),
                    )
                    &&& o.new_index matches Some(ix) && ix@ == render_index(
                        stamp@,
                        upserted_topics(
                            opt_text(existing_index),
                            topic@,
                            topic_file(topic@, subtopic@),
                            summary(content@),
                            self.index_spec().line_limit(),
                        ),
                        self.index_spec().line_budget(),
                    )
                },
                Err(e) => topic_file_size is Some && topic_file_size.unwrap()
                    >= self.topics_spec().file_limit() && e == TopicError::AtCapacity {
                    size: topic_file_size.unwrap(),
                },
            },
    {
        if Self::is_derivable(content) {
            return Ok(
                StoreOutcome {
                    result: WriteResult {
                        stored: false,
                        reason: copy_str("Content can be re-derived from the codebase. Not storing."),
                        topic_path: Self::raw_path(topic, subtopic),
                    },
                    topic_text: None,
                    new_index: None,
                },
            );
        }
        let trimmed = crate::text::trim_str(content);
        proof {
            crate::text::lemma_trim_props(content@);
            crate::text::lemma_trim_len(content@);
        }
        if byte_len(trimmed.as_str()) < 10 {
            return Ok(
                StoreOutcome {
                    result: WriteResult {
                        stored: false,
                        reason: copy_str("Content too short to be useful."),
                        topic_path: Self::raw_path(topic, subtopic),
                    },
                    topic_text: None,
                    new_index: None,
                },
            );
        }
        let topic_path = Self::topic_path(topic, subtopic);
        let appended = match self.topics.append_text(
            topic_path.as_str(),
            content,
            source,
            confidence,
            topic_file_size,
            stamp,
        ) {
            Ok(t) => t,
            Err(e) => {
                return Err(e);
            },
        };
        let description = Self::summarize_for_index(content);
        let new_index = self.index.upsert_pointer(
            existing_index,
            topic,
            topic_path.as_str(),
            description.as_str(),
            stamp,
        );
        Ok(
            StoreOutcome {
                result: WriteResult {
                    stored: true,
                    reason: copy_str("Successfully stored."),
                    topic_path,
                },
                topic_text: Some(appended),
                new_index: Some(new_index),
            },
        )
    }
}

/// An optional text, by its view.
pub open spec fn opt_view(o: Option<String>) -> Option<Seq<char>> {
    match o {
        Some(s) => Some(s@),
        None => None,
    }
}

/// What a store outcome holds: stored or not, the reason, the topic path,
/// the text to append and the new index text.
pub type OutcomeView = (bool, Seq<char>, Seq<char>, Option<Seq<char>>, Option<Seq<char>>);

pub open spec fn outcome_view(o: StoreOutcome) -> OutcomeView {
    (o.result.stored, o.result.reason@, o.result.topic_path@, opt_view(o.topic_text), opt_view(o.new_index))
}

/// An entry of a batch: topic, subtopic, content, source and confidence.
pub type BatchEntry = (Seq<char>, Seq<char>, Seq<char>, Option<Seq<char>>, Confidence);

pub open spec fn batch_entry_view(e: (String, String, String, Option<String>, Confidence)) -> BatchEntry {
    (e.0@, e.1@, e.2@, opt_view(e.3), e.4)
}

/// What `store` makes of one entry, given the index text and the size of
/// the topic file (`None`: no file yet).
pub open spec fn store_result(
    w: MemoryWriter,
    e: BatchEntry,
    existing: Option<Seq<char>>,
    size: Option<nat>,
    stamp: Seq<char>,
) -> Result<OutcomeView, TopicError> {
    let (topic, subtopic, content, source, confidence) = e;
    if derivable(content) {
        Ok((false, "Content can be re-derived from the codebase. Not storing."@, raw_topic_file(topic, subtopic), None, None))
    } else if !long_enough(content) {
        Ok((false, "Content too short to be useful."@, raw_topic_file(topic, subtopic), None, None))
    } else if size is Some && size.unwrap() >= w.topics_spec().file_limit() {
        Err(TopicError::AtCapacity { size: size.unwrap() as usize })
    } else {
        Ok(
            (
                true,
                "Successfully stored."@,
                topic_file(topic, subtopic),
                Some(
                    appended_text(
                        topic_file(topic, subtopic),
                        content,
                        source,
                        confidence,
                        size,
                        stamp,
                        w.topics_spec().entry_limit(),
                    ),
                ),
                Some(
                    render_index(
                        stamp,
                        upserted_topics(
                            existing,
                            topic,
                            topic_file(topic, subtopic),
                            summary(content),
                            w.index_spec().line_limit(),
                        ),
                        w.index_spec().line_budget(),
                    ),
                ),
            ),
        )
    }
}

/// Whether the outcomes appended to `path`, and how many bytes.
pub open spec fn appended_to(outs: Seq<OutcomeView>, path: Seq<char>) -> (bool, nat)
    decreases outs.len(),
{
    if outs.len() == 0 {
        (false, 0)
    } else {
        let before = appended_to(outs.drop_last(), path);
        let o = outs.last();
        if o.2 == path && o.3 is Some {
            (true, before.1 + utf8_len(o.3.unwrap()))
        } else {
            before
        }
    }
}

/// `n`, capped at the largest `usize`.
pub open spec fn capped(n: nat) -> nat {
    if n <= usize::MAX {
        n
    } else {
        usize::MAX as nat
    }
}

/// The size of a topic file when an entry is stored: its size before the
/// batch (`None`: no file), grown by what the batch appended to it so far.
pub open spec fn size_now(initial: Option<nat>, grown: (bool, nat)) -> Option<nat> {
    match initial {
        None => if grown.0 {
            Some(capped(grown.1))
        } else {
            None
        },
        Some(s) => Some(capped(s + grown.1)),
    }
}

/// A batch after its first `k` entries: their outcomes, the index text, and
/// the refusal that stopped it (the entries after it are not stored).
pub open spec fn batch_after(
    w: MemoryWriter,
    es: Seq<BatchEntry>,
    sizes: Seq<Option<nat>>,
    index: Option<Seq<char>>,
    stamp: Seq<char>,
    k: nat,
) -> (Seq<OutcomeView>, Option<Seq<char>>, Option<TopicError>)
    decreases k,
{
    if k == 0 {
        (Seq::empty(), index, None)
    } else {
        let prev = batch_after(w, es, sizes, index, stamp, (k - 1) as nat);
        if prev.2 is Some {
            prev
        } else {
            let e = es[k - 1];
            let size = size_now(sizes[k - 1], appended_to(prev.0, topic_file(e.0, e.1)));
            match store_result(w, e, prev.1, size, stamp) {
                Ok(o) => (prev.0.push(o), if o.4 is Some {
                    o.4
                } else {
                    prev.1
                }, None),
                Err(err) => (prev.0, prev.1, Some(err)),
            }
        }
    }
}

/// Once a batch is stopped it stays stopped.
proof fn lemma_batch_stays(
    w: MemoryWriter,
    es: Seq<BatchEntry>,
    sizes: Seq<Option<nat>>,
    index: Option<Seq<char>>,
    stamp: Seq<char>,
    k: nat,
    m: nat,
)
    requires
        k <= m,
        batch_after(w, es, sizes, index, stamp, k).2 is Some,
    ensures
        batch_after(w, es, sizes, index, stamp, m) == batch_after(w, es, sizes, index, stamp, k),
    decreases m - k,
{
    if k < m {
        lemma_batch_stays(w, es, sizes, index, stamp, k, (m - 1) as nat);
    }
}

/// The outcomes of a batch, its final index text, and the refusal that
/// stopped it.
#[derive(Debug)]
pub struct BatchOutcome {
    pub outcomes: Vec<StoreOutcome>,
    pub index: Option<String>,
    pub error: Option<TopicError>,
}

/// Whether `outs` appended to `path`, and how many bytes (capped).
fn appended_exec(outs: &Vec<StoreOutcome>, path: &str) -> (r: (bool, usize))
    ensures
        r.0 == appended_to(outs@.map_values(|o: StoreOutcome| outcome_view(o)), path@).0,
        r.1 == capped(appended_to(outs@.map_values(|o: StoreOutcome| outcome_view(o)), path@).1),
{
    let ghost ov = outs@.map_values(|o: StoreOutcome| outcome_view(o));
    let mut any = false;
    let mut n: usize = 0;
    let mut j: usize = 0;
    while j < outs.len()
        invariant
            j <= outs.len(),
            ov == outs@.map_values(|o: StoreOutcome| outcome_view(o)),
            any == appended_to(ov.take(j as int), path@).0,
            n == capped(appended_to(ov.take(j as int), path@).1),
        decreases outs.len() - j,
    {
        proof {
            assert(ov.take(j + 1).drop_last() =~= ov.take(j as int));
            assert(ov.take(j + 1).last() == outcome_view(outs@[j as int]));
        }
        let o = &outs[j];
        if str_eq(o.result.topic_path.as_str(), path) {
            match &o.topic_text {
                Some(t) => {
                    let tv = chars_of(t.as_str());
                    let w = match utf8_len_checked(&tv) {
                        Some(x) => x,
                        None => usize::MAX,
                    };
                    any = true;
                    n = n.saturating_add(w);
                },
                None => {},
            }
        }
        j = j + 1;
    }
    assert(ov.take(j as int) =~= ov);
    (any, n)
}

impl MemoryWriter {
    /// Stores each entry in turn, as `store` would one after the other: each
    /// sees the index text the previous one wrote and its topic file grown by
    /// what the batch appended to it (`sizes` holds each entry's topic file
    /// size before the batch).  The first refusal stops the batch.
    pub fn store_batch(
        &self,
        entries: &Vec<(String, String, String, Option<String>, Confidence)>,
        existing_index: Option<String>,
        sizes: &Vec<Option<usize>>,
        stamp: &str,
    ) -> (r: BatchOutcome)
        requires
            sizes.len() == entries.len(),
            forall|k: int|
                0 <= k < entries.len() ==> fits(#[trigger] entries@[k].2@) && store_cuts_ok(
                    entries@[k].0@,
                    entries@[k].1@,
                    entries@[k].2@,
                    self.topics_spec().entry_limit(),
                    self.index_spec().line_limit(),
                ),
        ensures
            (r.outcomes@.map_values(|o: StoreOutcome| outcome_view(o)), opt_view(r.index), r.error) == batch_after(
                *self,
                entries@.map_values(|e: (String, String, String, Option<String>, Confidence)| batch_entry_view(e)),
                sizes@.map_values(|s: Option<usize>| opt_size(s)),
                opt_view(existing_index),
                stamp@,
                entries.len() as nat,
            ),
    {
        let ghost ev = entries@.map_values(|e: (String, String, String, Option<String>, Confidence)| batch_entry_view(e));
        let ghost sv = sizes@.map_values(|s: Option<usize>| opt_size(s));
        let ghost iv = opt_view(existing_index);
        let mut outs: Vec<StoreOutcome> = Vec::new();
        let mut index = existing_index;
        let mut k: usize = 0;
        while k < entries.len()
            invariant
                k <= entries.len(),
                sizes.len() == entries.len(),
                ev == entries@.map_values(|e: (String, String, String, Option<String>, Confidence)| batch_entry_view(e)),
                sv == sizes@.map_values(|s: Option<usize>| opt_size(s)),
                iv == opt_view(existing_index),
                forall|i: int|
                    0 <= i < entries.len() ==> fits(#[trigger] entries@[i].2@) && store_cuts_ok(
                        entries@[i].0@,
                        entries@[i].1@,
                        entries@[i].2@,
                        self.topics_spec().entry_limit(),
                        self.index_spec().line_limit(),
                    ),
                batch_after(*self, ev, sv, iv, stamp@, k as nat) == (
                    outs@.map_values(|o: StoreOutcome| outcome_view(o)),
                    opt_view(index),
                    None::<TopicError>,
                ),
            decreases entries.len() - k,
        {
            let e = &entries[k];
            let path = Self::topic_path(e.0.as_str(), e.1.as_str());
            let (grown, added) = appended_exec(&outs, path.as_str());
            let size: Option<usize> = match sizes[k] {
                None => if grown {
                    Some(added)
                } else {
                    None
                },
                Some(s) => Some(s.saturating_add(added)),
            };
            let ghost ov = outs@.map_values(|o: StoreOutcome| outcome_view(o));
            proof {
                let g = appended_to(ov, topic_file(ev[k as int].0, ev[k as int].1));
                assert(ev[k as int] == batch_entry_view(entries@[k as int]));
                assert(opt_size(size) == size_now(sv[k as int], g));
            }
            let source: Option<&str> = match &e.3 {
                Some(t) => Some(t.as_str()),
                None => None,
            };
            let existing: Option<&str> = match &index {
                Some(t) => Some(t.as_str()),
                None => None,
            };
            let res = self.store(e.0.as_str(), e.1.as_str(), e.2.as_str(), source, e.4, existing, size, stamp);
            proof {
                assert(opt_string(source) == ev[k as int].3);
                assert(opt_text(existing) == opt_view(index));
            }
            match res {
                Ok(o) => {
                    let ghost before = outs@.map_values(|o: StoreOutcome| outcome_view(o));
                    match &o.new_index {
                        Some(ix) => {
                            index = Some(copy_str(ix.as_str()));
                        },
                        None => {},
                    }
                    outs.push(o);
                    proof {
                        assert(outs@.map_values(|o: StoreOutcome| outcome_view(o)) =~= before.push(outcome_view(o)));
                    }
                },
                Err(err) => {
                    proof {
                        assert(store_result(*self, ev[k as int], opt_view(index), opt_size(size), stamp@) == Err::<
                            OutcomeView,
                            TopicError,
                        >(err));
                        assert(batch_after(*self, ev, sv, iv, stamp@, (k + 1) as nat) == (ov, opt_view(index), Some(err)));
                        lemma_batch_stays(*self, ev, sv, iv, stamp@, (k + 1) as nat, entries.len() as nat);
                    }
                    return BatchOutcome { outcomes: outs, index, error: Some(err) };
                },
            }
            k = k + 1;
        }
        BatchOutcome { outcomes: outs, index, error: None }
    }
}

/// What removing a memory does: the topic file to delete, and the new index
/// text when some pointer line mentioned that file.
#[derive(Debug)]
pub struct RemovePlan {
    pub topic_path: String,
    pub new_index: Option<String>,
}

impl MemoryWriter {
    /// Removes `topic`/`subtopic`: its pointer lines leave the index (given as
    /// `existing_index`, rewritten at time `stamp`) and its topic file is to be
    /// deleted.
    pub fn remove(
        &self,
        topic: &str,
        subtopic: &str,
        existing_index: Option<&str>,
        stamp: &str,
    ) -> (r: RemovePlan)
        ensures
            r.topic_path@ == topic_file(topic@, subtopic@),
            match r.new_index {
                Some(t) => existing_index is Some && mentions(
                    existing_index.unwrap()@,
                    topic_file(topic@, subtopic@),
                ) && t@ == render_index(
                    stamp@,
                    kept_topics(opt_text(existing_index), topic_file(topic@, subtopic@)),
                    self.index_spec().line_budget(),
                ),
                None => existing_index is None || !mentions(
                    existing_index.unwrap()@,
                    topic_file(topic@, subtopic@),
                ),
            },
    {
        let topic_path = Self::topic_path(topic, subtopic);
        let new_index = self.index.remove_pointer(existing_index, topic_path.as_str(), stamp);
        RemovePlan { topic_path, new_index }
    }
}

/// A sanitized name holds only alphanumerics, `-` and `_`: no separator, no
/// dot, so a topic path built from two of them stays one level deep.
pub proof fn lemma_sanitized_chars(name: Seq<char>)
    ensures
        forall|i: int| 0 <= i < sanitized(name).len() ==> path_char(#[trigger] sanitized(name)[i]),
{
    let s = drop_dot_pairs(lowercase(name).map_values(|c: char| dash_for_separator(c)));
    assert forall|i: int| 0 <= i < sanitized(name).len() implies path_char(#[trigger] sanitized(name)[i]) by {
        s.lemma_filter_pred(|c: char| path_char(c), i);
    }
}

} // verus!
