//! The unified three-layer memory of a repository.
//!
//! Layer 1, the index: pointers, always loaded.  Layer 2, topic files: loaded
//! on demand.  Layer 3, transcripts: archived turns, never loaded directly.
use vstd::prelude::*;
use crate::memory::index::MemoryIndex;
use crate::memory::loader::MemoryLoader;
use crate::memory::search::MemorySearch;
use crate::memory::topics::{verified_marker, TopicStore};
use crate::memory::transcripts::TranscriptStore;
use crate::memory::writer::MemoryWriter;
use crate::text::{concat2, contains, copy_str};

verus! {

/// The memory of one repository.
#[derive(Debug)]
pub struct MemorySystem {
    pub index: MemoryIndex,
    pub topics: TopicStore,
    pub transcripts: TranscriptStore,
    pub writer: MemoryWriter,
    pub search: MemorySearch,
    pub loader: MemoryLoader,
    memory_dir: String,
}

/// How a knowledge conflict is settled.
#[derive(Debug, Clone, Copy, PartialEq, Eq, Structural)]
pub enum ConflictResolution {
    AcceptProposed,
    KeepExisting,
    Archive,
}

/// A topic file as the decay pass sees it: its path, seconds since it
/// changed, and its text.
pub type DecayView = (Seq<char>, u64, Seq<char>);

/// The files that decay, in order: older than `days` days and not verified.
pub open spec fn decaying(files: Seq<(Seq<char>, u64, Seq<char>)>, days: nat) -> Seq<Seq<char>>
    decreases files.len(),
{
    if files.len() == 0 {
        Seq::empty()
    } else {
        let rest = decaying(files.drop_last(), days);
        let f = files.last();
        if f.1 > days * 86400 && !contains(f.2, verified_marker()) {
            rest.push(f.0)
        } else {
            rest
        }
    }
}

/// The decay rule for one topic file (what `TopicStore::decays` reports):
/// untouched for more than `days` days and not marked verified.
pub open spec fn decays_file(f: (Seq<char>, u64, Seq<char>), days: nat) -> bool {
    f.1 > days * 86400 && !contains(f.2, verified_marker())
}

/// The decay pass is the topic store's rule applied to every topic file:
/// the files that decay are exactly those the rule picks, in their order.
pub proof fn lemma_decay_applies_the_rule(files: Seq<(Seq<char>, u64, Seq<char>)>, days: nat)
    ensures
        decaying(files, days) == files.filter(|f: (Seq<char>, u64, Seq<char>)| decays_file(f, days)).map_values(
            |f: (Seq<char>, u64, Seq<char>)| f.0,
        ),
    decreases files.len(),
{
    reveal(Seq::filter);
    let p = |f: (Seq<char>, u64, Seq<char>)| decays_file(f, days);
    if files.len() == 0 {
        assert(files.filter(p) =~= Seq::<(Seq<char>, u64, Seq<char>)>::empty());
        assert(files.filter(p).map_values(|f: (Seq<char>, u64, Seq<char>)| f.0) =~= Seq::<Seq<char>>::empty());
    } else {
        lemma_decay_applies_the_rule(files.drop_last(), days);
        let sub = files.drop_last().filter(p);
        if p(files.last()) {
            assert(files.filter(p) == sub.push(files.last()));
            assert(sub.push(files.last()).map_values(|f: (Seq<char>, u64, Seq<char>)| f.0) =~= sub.map_values(
                |f: (Seq<char>, u64, Seq<char>)| f.0,
            ).push(files.last().0));
        } else {
            assert(files.filter(p) == sub);
        }
    }
}

impl MemorySystem {
    pub closed spec fn dir_view(&self) -> Seq<char> {
        self.memory_dir@
    }

    /// Where the index is stored.
    pub closed spec fn index_path_view(&self) -> Seq<char> {
        self.index.path_view()
    }

    /// The directory of the topic files.
    pub closed spec fn topics_dir_view(&self) -> Seq<char> {
        self.topics.base_view()
    }

    /// The directory of the transcripts.
    pub closed spec fn transcripts_dir_view(&self) -> Seq<char> {
        self.transcripts.base_view()
    }

    /// The memory under `memory_dir`: `MEMORY.md`, `topics`, `transcripts`.
    pub fn new(memory_dir: &str) -> (r: Self)
        ensures
            r.dir_view() == memory_dir@,
            r.index_path_view() == memory_dir@ + "/MEMORY.md"@,
            r.topics_dir_view() == memory_dir@ + "/topics"@,
            r.transcripts_dir_view() == memory_dir@ + "/transcripts"@,
    {
        let index_path = concat2(memory_dir, "/MEMORY.md");
        let topics_dir = concat2(memory_dir, "/topics");
        let archive_dir = concat2(memory_dir, "/archive");
        MemorySystem {
            index: MemoryIndex::new(copy_str(index_path.as_str())),
            topics: TopicStore::new(copy_str(topics_dir.as_str()), copy_str(archive_dir.as_str())),
            transcripts: TranscriptStore::new(concat2(memory_dir, "/transcripts")),
            writer: MemoryWriter::new(index_path, topics_dir, archive_dir),
            search: MemorySearch::new(memory_dir),
            loader: MemoryLoader::new(memory_dir),
            memory_dir: copy_str(memory_dir),
        }
    }

    /// The topic files that decay (to be moved to the archive): those older
    /// than `older_than_days` days that are not marked verified.  `files` holds
    /// each topic file's path, age in seconds and text.  The choice is the
    /// one `TopicStore::decays` makes for each file, kept in the files' order.
    pub fn manage_decay(&self, files: &Vec<(String, u64, String)>, older_than_days: u64) -> (r: Vec<String>)
        requires
            older_than_days * 86400 <= u64::MAX,
        ensures
            r.deep_view() == decaying(
                files@.map_values(|f: (String, u64, String)| (f.0@, f.1, f.2@)),
                older_than_days as nat,
            ),
            r.deep_view() == files@.map_values(|f: (String, u64, String)| (f.0@, f.1, f.2@)).filter(
                |f: (Seq<char>, u64, Seq<char>)| decays_file(f, older_than_days as nat),
            ).map_values(|f: (Seq<char>, u64, Seq<char>)| f.0),
    {
        let ghost fv = files@.map_values(|f: (String, u64, String)| (f.0@, f.1, f.2@));
        let mut r: Vec<String> = Vec::new();
        let mut k: usize = 0;
        while k < files.len()
            invariant
                older_than_days * 86400 <= u64::MAX,
                fv == files@.map_values(|f: (String, u64, String)| (f.0@, f.1, f.2@)),
                k <= files.len(),
                r.deep_view() == decaying(fv.take(k as int), older_than_days as nat),
            decreases files.len() - k,
        {
            let f = &files[k];
            proof {
                assert(fv.take(k + 1).drop_last() =~= fv.take(k as int));
                assert(fv.take(k + 1).last() == fv[k as int]);
            }
            if TopicStore::decays(f.1, older_than_days, f.2.as_str()) {
                let ghost before = r.deep_view();
                r.push(copy_str(f.0.as_str()));
                proof {
                    assert(r.deep_view() =~= before.push(f.0@));
                }
            }
            k = k + 1;
        }
        assert(fv.take(k as int) =~= fv);
        proof {
            lemma_decay_applies_the_rule(fv, older_than_days as nat);
        }
        r
    }

    /// The directory of this memory.
    pub fn memory_dir(&self) -> (r: &String)
        ensures
            r@ == self.dir_view(),
    {
        &self.memory_dir
    }
}

} // verus!
