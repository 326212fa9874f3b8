//! The dream cycle: applying a plan to the memory and accounting for it.
//!
//! The engine decides, for each planned operation, what is written where
//! (`DreamEngine::apply_step`); the caller performs the writes and reports
//! back, and the tally counts what was applied, collects the failures, and
//! calls for a rollback once more than ten have occurred.
use vstd::prelude::*;
use vstd::utf8::encode_utf8;
use crate::dream::types::{MemoryOperation, OperationKind, PruneReason};
use crate::hashing::{sha256, sha256_of};
use crate::memory::topics::Confidence;
use crate::text::{
    byte_len, byte_prefix, copy_str, copy_strings, decimal, fits, is_boundary, lowercase,
    prefix_bytes, push_char, push_decimal, push_str, str_eq, to_lowercase, utf8_len, chars_of,
};

verus! {

/// Runs dream cycles over one project's memory.
#[derive(Debug)]
pub struct DreamEngine {
    working_dir: String,
    daemon_state_dir: String,
}

/// What applying one planned operation writes.
#[derive(Debug)]
pub enum ApplyStep {
    /// Store an entry through the memory writer.
    Store {
        topic: String,
        subtopic: String,
        content: String,
        source: String,
        confidence: Confidence,
    },
    /// Append to a topic file; when `pointer` holds a topic and a summary,
    /// point the index at the file under that topic.
    Append {
        path: String,
        text: String,
        source: String,
        confidence: Confidence,
        pointer: Option<(String, String)>,
    },
    /// Store the merged entry, then delete each source file and its pointer.
    Merge {
        topic: String,
        subtopic: String,
        content: String,
        source: String,
        remove: Vec<String>,
    },
    /// Delete a topic file and its pointer.
    Prune { path: String },
    /// Write a conflict ticket under the memory's `conflicts` directory.
    Ticket { file_name: String, content: String },
    /// Nothing is written.
    Skip,
}

/// What a dream cycle has applied so far, and what failed.
#[derive(Debug)]
pub struct DreamTally {
    pub applied: usize,
    pub merged: usize,
    pub created: usize,
    pub pruned: usize,
    pub confirmed: usize,
    pub contradictions: usize,
    pub errors: Vec<String>,
}

/// The outcome of a dream cycle (its times and cost are kept by the caller).
#[derive(Debug)]
pub struct DreamReport {
    pub duration_secs: u64,
    pub observations_collected: usize,
    pub operations_planned: usize,
    pub operations_applied: usize,
    pub entries_merged: usize,
    pub entries_created: usize,
    pub entries_pruned: usize,
    pub entries_confirmed: usize,
    pub contradictions_resolved: usize,
    pub tokens_consumed: u64,
    pub memory_before_hash: String,
    pub memory_after_hash: String,
    pub errors: Vec<String>,
}

/// A name as a path segment: lower case, spaces as dashes.
pub open spec fn slug(s: Seq<char>) -> Seq<char> {
    lowercase(s).map_values(|c: char| if c == ' ' { '-' } else { c })
}

/// The topic file of `topic` / `subtopic`, as the engine names it.
pub open spec fn engine_path(topic: Seq<char>, subtopic: Seq<char>) -> Seq<char> {
    slug(topic) + "/"@ + slug(subtopic) + ".md"@
}

/// The first `n` bytes of `s`, or all of it when it is shorter.
pub open spec fn head_bytes(s: Seq<char>, n: nat) -> Seq<char> {
    if utf8_len(s) <= n {
        s
    } else {
        byte_prefix(s, n as int)
    }
}

/// The file name of the conflict ticket raised at `now` on `topic`.
pub open spec fn ticket_file(now: nat, topic: Seq<char>) -> Seq<char> {
    "conflict_"@ + decimal(now) + "_"@ + topic + ".md"@
}

/// The text of a conflict ticket.
pub open spec fn ticket_text(
    topic: Seq<char>,
    subtopic: Seq<char>,
    reasoning: Seq<char>,
    existing: Seq<char>,
    new: Seq<char>,
) -> Seq<char> {
    "# Knowledge Conflict: "@ + topic + "/"@ + subtopic + "\n\n## Reason\n"@ + reasoning
        + "\n\n## Existing Knowledge\n"@ + existing + "\n\n## New Contradicting Observation\n"@
        + new + "\n\n---\nStatus: Pending Mediation\nGenerated by: autoDream"@
}

/// Applying `op` can be planned without panicking: an update's content is cut
/// for the index on a character boundary.
pub open spec fn can_plan(op: MemoryOperation) -> bool {
    &&& fits(op.content@)
    &&& (op.kind is Update && utf8_len(op.content@) > 120) ==> is_boundary(op.content@, 120)
}

/// The index pointer holds `topic` and `summary`.
pub open spec fn points_to(pointer: Option<(String, String)>, topic: Seq<char>, summary: Seq<char>) -> bool {
    match pointer {
        Some(p) => p.0@ == topic && p.1@ == summary,
        None => false,
    }
}

/// `step` is what applying `op` writes, an entry being created at confidence
/// `create_confidence`, at time `now`.
pub open spec fn is_step_for(step: ApplyStep, op: MemoryOperation, create_confidence: Confidence, now: nat) -> bool {
    match op.kind {
        OperationKind::Create => step matches ApplyStep::Store { topic, subtopic, content, source, confidence }
            && topic@ == op.topic@ && subtopic@ == op.subtopic@ && content@ == op.content@
            && source@ == "autoDream"@ && confidence == create_confidence,
        OperationKind::Update { existing_path } => step matches ApplyStep::Append { path, text, source, confidence, pointer }
            && path@ == existing_path@ && text@ == "[autoDream update] "@ + op.content@
            && source@ == "autoDream consolidation"@ && confidence == Confidence::Observed
            && points_to(pointer, op.topic@, head_bytes(op.content@, 120)),
        OperationKind::Merge { source_entries } => step matches ApplyStep::Merge { topic, subtopic, content, source, remove }
            && topic@ == op.topic@ && subtopic@ == op.subtopic@
            && content@ == "[Merged by autoDream] "@ + op.content@ && source@ == "autoDream merge"@
            && remove.deep_view() == source_entries.deep_view(),
        OperationKind::Prune { .. } => step matches ApplyStep::Prune { path }
            && path@ == engine_path(op.topic@, op.subtopic@),
        OperationKind::Confirm { to_confidence, .. } => step matches ApplyStep::Append { path, text, source, confidence, pointer }
            && path@ == engine_path(op.topic@, op.subtopic@)
            && text@ == "[autoDream confirmed] "@ + op.content@
            && source@ == "autoDream confirmation"@
            && confidence == (if to_confidence@ == "verified"@ { Confidence::Verified } else { Confidence::Observed })
            && pointer is None,
        OperationKind::Conflict { existing_data, new_data } => step matches ApplyStep::Ticket { file_name, content }
            && file_name@ == ticket_file(now, op.topic@)
            && content@ == ticket_text(op.topic@, op.subtopic@, op.reasoning@, existing_data@, new_data@),
        _ => step is Skip,
    }
}

/// The tally's counters stay within what it has applied.
pub open spec fn tally_wf(t: DreamTally) -> bool {
    &&& t.merged <= t.applied
    &&& t.created <= t.applied
    &&& t.pruned <= t.applied
    &&& t.confirmed <= t.applied
    &&& t.contradictions <= t.applied
}

/// Counting one more applied operation of kind `k`: `after` is `before` with
/// the applied count and the counter of its kind raised.
pub open spec fn counted(before: DreamTally, after: DreamTally, k: OperationKind) -> bool {
    &&& after.applied == before.applied + 1
    &&& after.merged == before.merged + if k is Merge { 1int } else { 0int }
    &&& after.created == before.created + if k is Create { 1int } else { 0int }
    &&& after.pruned == before.pruned + if k is Prune { 1int } else { 0int }
    &&& after.confirmed == before.confirmed + if k is Confirm { 1int } else { 0int }
    &&& after.contradictions == before.contradictions + if k is Conflict || k == (
        OperationKind::Prune { reason: PruneReason::Contradicted }) {
        1int
    } else {
        0int
    }
    &&& after.errors.deep_view() == before.errors.deep_view()
}

/// A lower-case hexadecimal digit.
pub open spec fn hex_digit(n: nat) -> char {
    if n < 10 {
        (48 + n) as char
    } else {
        (87 + n) as char
    }
}

/// Bytes in lower-case hexadecimal, two digits each (the `{:x}` form of a digest).
pub open spec fn hex_of(b: Seq<u8>) -> Seq<char>
    decreases b.len(),
{
    if b.len() == 0 {
        Seq::empty()
    } else {
        hex_of(b.drop_last()) + seq![hex_digit((b.last() / 16) as nat), hex_digit((b.last() % 16) as nat)]
    }
}

/// The bytes a memory state is hashed over after its index: each topic file
/// that could be read, its path then its content.
pub open spec fn topic_bytes(topics: Seq<(String, Option<String>)>) -> Seq<u8>
    decreases topics.len(),
{
    if topics.len() == 0 {
        Seq::empty()
    } else {
        topic_bytes(topics.drop_last()) + match topics.last().1 {
            Some(c) => encode_utf8(topics.last().0@) + encode_utf8(c@),
            None => Seq::empty(),
        }
    }
}

/// The hash of a memory state: the SHA-256 digest of the index's bytes and
/// then of each readable topic file's path and content, in hexadecimal.
pub open spec fn memory_hash(index_raw: Seq<char>, topics: Seq<(String, Option<String>)>) -> Seq<char> {
    hex_of(sha256_of(encode_utf8(index_raw) + topic_bytes(topics)))
}

fn slug_exec(s: &str) -> (r: String)
    ensures
        r@ == slug(s@),
{
    let low = to_lowercase(s);
    let v = chars_of(low.as_str());
    let mut r = String::new();
    let mut i: usize = 0;
    while i < v.len()
        invariant
            i <= v.len(),
            v@ == lowercase(s@),
            r@ == v@.take(i as int).map_values(|c: char| if c == ' ' { '-' } else { c }),
        decreases v.len() - i,
    {
        let c = if v[i] == ' ' {
            '-'
        } else {
            v[i]
        };
        push_char(&mut r, c);
        proof {
            assert(v@.take(i + 1) =~= v@.take(i as int).push(v@[i as int]));
            assert(v@.take(i + 1).map_values(|c: char| if c == ' ' { '-' } else { c })
                =~= v@.take(i as int).map_values(|c: char| if c == ' ' { '-' } else { c }).push(c));
        }
        i = i + 1;
    }
    assert(v@.take(v.len() as int) =~= v@);
    r
}

fn engine_path_exec(topic: &str, subtopic: &str) -> (r: String)
    ensures
        r@ == engine_path(topic@, subtopic@),
{
    let mut r = slug_exec(topic);
    push_str(&mut r, "/");
    let s = slug_exec(subtopic);
    push_str(&mut r, s.as_str());
    push_str(&mut r, ".md");
    r
}

fn hex_char(n: u8) -> (c: char)
    requires
        n < 16,
    ensures
        c == hex_digit(n as nat),
{
    if n < 10 {
        (48 + n) as char
    } else {
        (87 + n) as char
    }
}

/// Appends the UTF-8 bytes of `s`.
fn append_bytes(data: &mut Vec<u8>, s: &str)
    ensures
        final(data)@ == old(data)@ + encode_utf8(s@),
{
    let b = s.as_bytes();
    data.extend_from_slice(b);
    assert(final(data)@ =~= old(data)@ + encode_utf8(s@));
}

impl DreamTally {
    /// Nothing applied, nothing failed.
    pub fn new() -> (r: Self)
        ensures
            r.applied == 0 && r.merged == 0 && r.created == 0 && r.pruned == 0 && r.confirmed == 0
                && r.contradictions == 0 && r.errors@.len() == 0,
            tally_wf(r),
    {
        DreamTally {
            applied: 0,
            merged: 0,
            created: 0,
            pruned: 0,
            confirmed: 0,
            contradictions: 0,
            errors: Vec::new(),
        }
    }

    /// Counts an operation of kind `kind` that was applied: merges,
    /// creations, prunes and confirmations by kind; contradictions for
    /// conflicts and for prunes of contradicted entries.
    pub fn record(&mut self, kind: &OperationKind)
        requires
            tally_wf(*old(self)),
            old(self).applied < usize::MAX,
        ensures
            tally_wf(*final(self)),
            counted(*old(self), *final(self), *kind),
    {
        self.applied = self.applied + 1;
        match kind {
            OperationKind::Merge { .. } => {
                self.merged = self.merged + 1;
            },
            OperationKind::Create => {
                self.created = self.created + 1;
            },
            OperationKind::Prune { reason } => {
                self.pruned = self.pruned + 1;
                if *reason == PruneReason::Contradicted {
                    self.contradictions = self.contradictions + 1;
                }
            },
            OperationKind::Confirm { .. } => {
                self.confirmed = self.confirmed + 1;
            },
            OperationKind::Conflict { .. } => {
                self.contradictions = self.contradictions + 1;
            },
            _ => {},
        }
    }

    /// Records a failure; returns whether the cycle must now roll back (more
    /// than ten failures).
    pub fn record_failure(&mut self, message: String) -> (rollback: bool)
        ensures
            final(self).errors.deep_view() == old(self).errors.deep_view().push(message@),
            rollback == (final(self).errors.len() > 10),
            final(self).applied == old(self).applied && final(self).merged == old(self).merged
                && final(self).created == old(self).created && final(self).pruned == old(self).pruned
                && final(self).confirmed == old(self).confirmed && final(self).contradictions
                == old(self).contradictions,
    {
        let ghost before = self.errors.deep_view();
        self.errors.push(message);
        assert(self.errors.deep_view() =~= before.push(message@));
        self.errors.len() > 10
    }

    /// Notes that the memory was rolled back.
    pub fn note_rollback(&mut self)
        ensures
            final(self).errors.deep_view() == old(self).errors.deep_view().push(
                "Rolled back due to excessive errors"@,
            ),
            final(self).applied == old(self).applied && final(self).merged == old(self).merged
                && final(self).created == old(self).created && final(self).pruned == old(self).pruned
                && final(self).confirmed == old(self).confirmed && final(self).contradictions
                == old(self).contradictions,
    {
        let ghost before = self.errors.deep_view();
        let note = copy_str("Rolled back due to excessive errors");
        self.errors.push(note);
        assert(self.errors.deep_view() =~= before.push(note@));
    }

    /// The report of a cycle that ends with this tally.
    pub fn into_report(
        self,
        duration_secs: u64,
        observations_collected: usize,
        operations_planned: usize,
        tokens_consumed: u64,
        memory_before_hash: String,
        memory_after_hash: String,
    ) -> (r: DreamReport)
        ensures
            r.duration_secs == duration_secs,
            r.observations_collected == observations_collected,
            r.operations_planned == operations_planned,
            r.operations_applied == self.applied,
            r.entries_merged == self.merged,
            r.entries_created == self.created,
            r.entries_pruned == self.pruned,
            r.entries_confirmed == self.confirmed,
            r.contradictions_resolved == self.contradictions,
            r.tokens_consumed == tokens_consumed,
            r.memory_before_hash@ == memory_before_hash@,
            r.memory_after_hash@ == memory_after_hash@,
            r.errors.deep_view() == self.errors.deep_view(),
    {
        DreamReport {
            duration_secs,
            observations_collected,
            operations_planned,
            operations_applied: self.applied,
            entries_merged: self.merged,
            entries_created: self.created,
            entries_pruned: self.pruned,
            entries_confirmed: self.confirmed,
            contradictions_resolved: self.contradictions,
            tokens_consumed,
            memory_before_hash,
            memory_after_hash,
            errors: self.errors,
        }
    }
}

impl DreamEngine {
    pub closed spec fn working_dir_view(&self) -> Seq<char> {
        self.working_dir@
    }

    pub closed spec fn state_dir_view(&self) -> Seq<char> {
        self.daemon_state_dir@
    }

    /// An engine for the project at `working_dir`, with the daemon state
    /// under `daemon_state_dir`.
    pub fn new(working_dir: String, daemon_state_dir: String) -> (r: Self)
        ensures
            r.working_dir_view() == working_dir@,
            r.state_dir_view() == daemon_state_dir@,
    {
        DreamEngine { working_dir, daemon_state_dir }
    }

    /// The project directory.
    pub fn working_dir(&self) -> (r: &String)
        ensures
            r@ == self.working_dir_view(),
    {
        &self.working_dir
    }

    /// The daemon state directory.
    pub fn daemon_state_dir(&self) -> (r: &String)
        ensures
            r@ == self.state_dir_view(),
    {
        &self.daemon_state_dir
    }

    /// What applying `op` writes: a creation is stored at `create_confidence`
    /// (the caller grades the operation's confidence: verified from 0.8,
    /// observed from 0.5, else inferred); an update is appended to its file
    /// and the index pointed at it with the first 120 bytes of its content; a
    /// merge is stored as verified and its sources deleted; a prune deletes
    /// the entry's file; a confirmation is appended to it; a conflict raises a
    /// ticket stamped `now` (seconds since the epoch); the swarm's own
    /// operations write nothing here.
    pub fn apply_step(op: &MemoryOperation, create_confidence: Confidence, now: u64) -> (r: ApplyStep)
        requires
            can_plan(*op),
        ensures
            is_step_for(r, *op, create_confidence, now as nat),
    {
        match &op.kind {
            OperationKind::Create => ApplyStep::Store {
                topic: copy_str(op.topic.as_str()),
                subtopic: copy_str(op.subtopic.as_str()),
                content: copy_str(op.content.as_str()),
                source: copy_str("autoDream"),
                confidence: create_confidence,
            },
            OperationKind::Update { existing_path } => {
                let mut text = copy_str("[autoDream update] ");
                push_str(&mut text, op.content.as_str());
                let summary = if byte_len(op.content.as_str()) <= 120 {
                    copy_str(op.content.as_str())
                } else {
                    prefix_bytes(op.content.as_str(), 120)
                };
                ApplyStep::Append {
                    path: copy_str(existing_path.as_str()),
                    text,
                    source: copy_str("autoDream consolidation"),
                    confidence: Confidence::Observed,
                    pointer: Some((copy_str(op.topic.as_str()), summary)),
                }
            },
            OperationKind::Merge { source_entries } => {
                let mut content = copy_str("[Merged by autoDream] ");
                push_str(&mut content, op.content.as_str());
                ApplyStep::Merge {
                    topic: copy_str(op.topic.as_str()),
                    subtopic: copy_str(op.subtopic.as_str()),
                    content,
                    source: copy_str("autoDream merge"),
                    remove: copy_strings(source_entries),
                }
            },
            OperationKind::Prune { .. } => ApplyStep::Prune {
                path: engine_path_exec(op.topic.as_str(), op.subtopic.as_str()),
            },
            OperationKind::Confirm { to_confidence, .. } => {
                let confidence = if str_eq(to_confidence.as_str(), "verified") {
                    Confidence::Verified
                } else {
                    Confidence::Observed
                };
                let mut text = copy_str("[autoDream confirmed] ");
                push_str(&mut text, op.content.as_str());
                ApplyStep::Append {
                    path: engine_path_exec(op.topic.as_str(), op.subtopic.as_str()),
                    text,
                    source: copy_str("autoDream confirmation"),
                    confidence,
                    pointer: None,
                }
            },
            OperationKind::Conflict { existing_data, new_data } => {
                let mut file_name = copy_str("conflict_");
                push_decimal(&mut file_name, now);
                push_str(&mut file_name, "_");
                push_str(&mut file_name, op.topic.as_str());
                push_str(&mut file_name, ".md");
                let mut content = copy_str("# Knowledge Conflict: ");
                push_str(&mut content, op.topic.as_str());
                push_str(&mut content, "/");
                push_str(&mut content, op.subtopic.as_str());
                push_str(&mut content, "\n\n## Reason\n");
                push_str(&mut content, op.reasoning.as_str());
                push_str(&mut content, "\n\n## Existing Knowledge\n");
                push_str(&mut content, existing_data.as_str());
                push_str(&mut content, "\n\n## New Contradicting Observation\n");
                push_str(&mut content, new_data.as_str());
                push_str(&mut content, "\n\n---\nStatus: Pending Mediation\nGenerated by: autoDream");
                ApplyStep::Ticket { file_name, content }
            },
            _ => ApplyStep::Skip,
        }
    }

    /// The hash of a memory state: the index's raw text, then each topic file
    /// (in the order listed) with the content that could be read of it.
    pub fn hash_memory_state(index_raw: &str, topics: &Vec<(String, Option<String>)>) -> (r: String)
        ensures
            r@ == memory_hash(index_raw@, topics@),
    {
        let mut data: Vec<u8> = Vec::new();
        append_bytes(&mut data, index_raw);
        let mut i: usize = 0;
        while i < topics.len()
            invariant
                i <= topics.len(),
                data@ == encode_utf8(index_raw@) + topic_bytes(topics@.take(i as int)),
            decreases topics.len() - i,
        {
            proof {
                assert(topics@.take(i + 1).drop_last() =~= topics@.take(i as int));
            }
            match &topics[i].1 {
                Some(c) => {
                    append_bytes(&mut data, topics[i].0.as_str());
                    append_bytes(&mut data, c.as_str());
                },
                None => {},
            }
            assert(data@ =~= encode_utf8(index_raw@) + topic_bytes(topics@.take(i + 1)));
            i = i + 1;
        }
        assert(topics@.take(topics.len() as int) =~= topics@);
        let digest = sha256(data.as_slice());
        let mut r = String::new();
        let mut k: usize = 0;
        while k < digest.len()
            invariant
                k <= digest.len(),
                r@ == hex_of(digest@.take(k as int)),
            decreases digest.len() - k,
        {
            let b = digest[k];
            push_char(&mut r, hex_char(b / 16));
            push_char(&mut r, hex_char(b % 16));
            proof {
                assert(digest@.take(k + 1).drop_last() =~= digest@.take(k as int));
                assert(r@ =~= hex_of(digest@.take(k + 1)));
            }
            k = k + 1;
        }
        assert(digest@.take(digest.len() as int) =~= digest@);
        r
    }

    /// The report of a cycle that found nothing to consolidate.
    pub fn empty_report(hash: &str) -> (r: DreamReport)
        ensures
            r.duration_secs == 0 && r.observations_collected == 0 && r.operations_planned == 0
                && r.operations_applied == 0 && r.entries_merged == 0 && r.entries_created == 0
                && r.entries_pruned == 0 && r.entries_confirmed == 0 && r.contradictions_resolved
                == 0 && r.tokens_consumed == 0,
            r.memory_before_hash@ == hash@,
            r.memory_after_hash@ == hash@,
            r.errors@.len() == 0,
    {
        DreamReport {
            duration_secs: 0,
            observations_collected: 0,
            operations_planned: 0,
            operations_applied: 0,
            entries_merged: 0,
            entries_created: 0,
            entries_pruned: 0,
            entries_confirmed: 0,
            contradictions_resolved: 0,
            tokens_consumed: 0,
            memory_before_hash: copy_str(hash),
            memory_after_hash: copy_str(hash),
            errors: Vec::new(),
        }
    }
}

} // verus!
