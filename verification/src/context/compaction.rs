//! Reports of the compaction stages, and the running count of what they saved.
use vstd::prelude::*;

verus! {

/// Which stage brought the context back under its threshold (`NoStage`: none ran).
#[derive(Debug, Clone, Copy, PartialEq, Eq, Structural)]
pub enum CompactionStage {
    NoStage,
    MicroCompact,
    AutoCompact,
    FullCompact,
    ReactiveCompact,
}

/// What one compaction did.
#[derive(Debug, Clone, Copy, PartialEq, Eq, Structural)]
pub struct CompactionReport {
    pub stage_fired: CompactionStage,
    pub tokens_before: usize,
    pub tokens_after: usize,
    pub tokens_saved: usize,
}

/// How many compactions ran and how many tokens they saved in all.
#[derive(Debug, Clone, Copy, PartialEq, Eq, Structural)]
pub struct CompactionLedger {
    pub compaction_events: u32,
    pub total_tokens_saved: usize,
}

impl CompactionLedger {
    /// Nothing compacted yet.
    pub fn new() -> (r: Self)
        ensures
            r.compaction_events == 0,
            r.total_tokens_saved == 0,
    {
        CompactionLedger { compaction_events: 0, total_tokens_saved: 0 }
    }

    /// Records a compaction by `stage` from `tokens_before` down to
    /// `tokens_after`, and reports it.
    pub fn record(&mut self, stage: CompactionStage, tokens_before: usize, tokens_after: usize) -> (r: CompactionReport)
        requires
            tokens_after <= tokens_before,
            old(self).compaction_events < u32::MAX,
            old(self).total_tokens_saved + (tokens_before - tokens_after) <= usize::MAX,
        ensures
            final(self).compaction_events == old(self).compaction_events + 1,
            final(self).total_tokens_saved == old(self).total_tokens_saved + (tokens_before - tokens_after),
            r == (CompactionReport {
                stage_fired: stage,
                tokens_before,
                tokens_after,
                tokens_saved: (tokens_before - tokens_after) as usize,
            }),
    {
        let saved = tokens_before - tokens_after;
        self.compaction_events = self.compaction_events + 1;
        self.total_tokens_saved = self.total_tokens_saved + saved;
        CompactionReport { stage_fired: stage, tokens_before, tokens_after, tokens_saved: saved }
    }
}

} // verus!
