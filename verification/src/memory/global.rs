//! The memory shared by every repository on the machine.
use vstd::prelude::*;
use crate::memory::index::{
    opt_text, parse_index, pointer_line, render_index, subtopic_of, upsert_result, upserted_topics, EntryView,
    MemoryIndex,
};
use crate::memory::index_laws::{index_size, lemma_upsert_read_back};
use crate::memory::topics::TopicStore;
use crate::memory::writer::MemoryWriter;
use crate::text::{can_truncate, concat2, copy_str, trim, utf8_len};

verus! {

/// The machine-wide memory, kept under one base directory.
#[derive(Debug)]
pub struct GlobalMemoryStore {
    pub index: MemoryIndex,
    pub topics: TopicStore,
    pub writer: MemoryWriter,
    pub base_dir: String,
}

impl GlobalMemoryStore {
    /// The shared memory under `base_dir`: index `memory/MEMORY.md`, topic
    /// files under `memory/topics`.
    pub fn new(base_dir: &str) -> (r: Self)
        ensures
            r.base_dir@ == base_dir@,
            r.index.path_view() == base_dir@ + "/memory"@ + "/MEMORY.md"@,
            r.index.line_limit() == 150,
            r.index.line_budget() == 200,
            r.topics.base_view() == base_dir@ + "/memory"@ + "/topics"@,
            r.topics.archive_view() == base_dir@ + "/memory"@ + "/archive"@,
    {
        let memory_dir = concat2(base_dir, "/memory");
        let index_path = concat2(memory_dir.as_str(), "/MEMORY.md");
        let topics_dir = concat2(memory_dir.as_str(), "/topics");
        let archive_dir = concat2(memory_dir.as_str(), "/archive");
        GlobalMemoryStore {
            index: MemoryIndex::new(copy_str(index_path.as_str())),
            topics: TopicStore::new(copy_str(topics_dir.as_str()), copy_str(archive_dir.as_str())),
            writer: MemoryWriter::new(index_path, topics_dir, archive_dir),
            base_dir: copy_str(base_dir),
        }
    }

    /// Files a local pointer in the shared index: the new index text, given
    /// the current one and the time `stamp`.
    pub fn shunt_pointer(
        &self,
        topic: &str,
        path_rel: &str,
        summary: &str,
        existing: Option<&str>,
        stamp: &str,
    ) -> (r: String)
        requires
            can_truncate(pointer_line(path_rel@, summary@), self.index.line_limit()),
        ensures
            r@ == render_index(
                stamp@,
                upserted_topics(opt_text(existing), topic@, path_rel@, summary@, self.index.line_limit()),
                self.index.line_budget(),
            ),
            r@ == upsert_result(self.index, opt_text(existing), topic@, path_rel@, summary@, stamp@),
    {
        self.index.upsert_pointer(existing, topic, path_rel, summary, stamp)
    }
}

/// Shunting a pointer into the shared index is filing it there with
/// `upsert_pointer`, so it reads back as that index's own pointers do: the
/// shared index then lists the pointer under its topic (the pointer a single
/// trimmed line that needs no cut, and the index with room for it).
pub proof fn lemma_shunt_reads_back(
    store: GlobalMemoryStore,
    existing: Option<Seq<char>>,
    topic: Seq<char>,
    path: Seq<char>,
    summary: Seq<char>,
    stamp: Seq<char>,
)
    requires
        !stamp.contains('\n'),
        !topic.contains('\n'),
        topic.len() > 0,
        trim(topic) == topic,
        !path.contains('\n'),
        trim(path) == path,
        !path.contains('\u{2014}'),
        !summary.contains('\n'),
        summary.len() > 0,
        trim(summary) == summary,
        utf8_len(pointer_line(path, summary)) <= store.index.line_limit(),
        index_size(upserted_topics(existing, topic, path, summary, store.index.line_limit()))
            <= store.index.line_budget(),
    ensures
        parse_index(upsert_result(store.index, existing, topic, path, summary, stamp)).contains(
            EntryView { topic: topic, subtopic: subtopic_of(path), file_path: path, description: summary },
        ),
{
    lemma_upsert_read_back(
        existing,
        topic,
        path,
        summary,
        stamp,
        store.index.line_limit(),
        store.index.line_budget(),
    );
}

} // verus!
