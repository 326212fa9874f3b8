//! The context manager: the compaction stages in order, as a state machine.
//!
//! The caller measures the conversation and compares its size with the
//! window's thresholds (fractions it keeps); each step here decides what runs
//! next and keeps the count of compactions and of the tokens they saved.
//! MicroCompact runs first; when the conversation is still over the
//! AutoCompact threshold, AutoCompact summarises it (unless its breaker is
//! open); when that fails or leaves it over the FullCompact threshold,
//! FullCompact runs.
use vstd::prelude::*;
use crate::context::auto_compact::{AutoCompact, CompactionSummary};
use crate::context::compaction::{CompactionLedger, CompactionReport, CompactionStage};
use crate::context::full_compact::FullCompact;
use crate::context::messages::{copy_message, messages_view, Content, ContentView, Message};
use crate::context::micro_compact::MicroCompact;
use crate::text::{copy_str, decimal, push_decimal, push_str};

verus! {

/// The conversation's context window and its compaction stages.
pub struct ContextManager {
    pub max_context_tokens: usize,
    pub micro_compact: MicroCompact,
    pub auto_compact: AutoCompact,
    pub full_compact: FullCompact,
    pub ledger: CompactionLedger,
}

/// What comes next in a compaction.
#[derive(Debug, Clone, Copy, PartialEq, Eq, Structural)]
pub enum CompactionStep {
    /// The compaction is over, with this report.
    Done(CompactionReport),
    /// Summarise with AutoCompact.
    RunAuto,
    /// Compact everything with FullCompact.
    RunFull,
}

/// The message that stands for the summarised turns.
pub open spec fn summary_text(turns: nat, summary: Seq<char>) -> Seq<char> {
    "[CONVERSATION SUMMARY - "@ + decimal(turns) + " turns compressed]\n\n"@ + summary
}

/// The assistant's acknowledgement of the summary.
pub open spec fn ack_text() -> Seq<char> {
    "I've reviewed the conversation summary and I'm ready to continue."@
}

/// The ledger records one more compaction from `before` down to `after`.
pub open spec fn recorded(old_l: CompactionLedger, new_l: CompactionLedger, before: nat, after: nat) -> bool {
    &&& new_l.compaction_events == old_l.compaction_events + 1
    &&& new_l.total_tokens_saved == old_l.total_tokens_saved + (before - after)
}

/// The ledger can record one more compaction saving `saved` tokens.
pub open spec fn can_record(l: CompactionLedger, saved: int) -> bool {
    l.compaction_events < u32::MAX && l.total_tokens_saved + saved <= usize::MAX
}

impl ContextManager {
    /// A window of `max_context_tokens` tokens, with the stages at their
    /// defaults and nothing compacted yet.
    pub fn new(max_context_tokens: usize) -> (r: Self)
        ensures
            r.max_context_tokens == max_context_tokens,
            r.ledger.compaction_events == 0,
            r.ledger.total_tokens_saved == 0,
            r.auto_compact.consecutive_failures == 0,
            r.auto_compact.max_failures == 3,
            r.auto_compact.preserve_recent_turns == 3,
    {
        ContextManager {
            max_context_tokens,
            micro_compact: MicroCompact::new(),
            auto_compact: AutoCompact::new(),
            full_compact: FullCompact::new(),
            ledger: CompactionLedger::new(),
        }
    }

    /// After MicroCompact took the conversation from `tokens_before` to
    /// `after_micro` tokens: done when it is now under the AutoCompact
    /// threshold; else AutoCompact, or FullCompact when AutoCompact's breaker
    /// is open.
    pub fn after_micro(&mut self, tokens_before: usize, after_micro: usize, under_auto_threshold: bool) -> (r: CompactionStep)
        requires
            after_micro <= tokens_before,
            can_record(old(self).ledger, tokens_before - after_micro),
        ensures
            under_auto_threshold ==> r == CompactionStep::Done(CompactionReport {
                stage_fired: CompactionStage::MicroCompact,
                tokens_before,
                tokens_after: after_micro,
                tokens_saved: (tokens_before - after_micro) as usize,
            }) && recorded(old(self).ledger, final(self).ledger, tokens_before as nat, after_micro as nat),
            !under_auto_threshold ==> final(self).ledger == old(self).ledger && r == if old(self).auto_compact.consecutive_failures
                >= old(self).auto_compact.max_failures {
                CompactionStep::RunFull
            } else {
                CompactionStep::RunAuto
            },
            final(self).auto_compact == old(self).auto_compact,
            final(self).max_context_tokens == old(self).max_context_tokens,
    {
        if under_auto_threshold {
            let report = self.ledger.record(CompactionStage::MicroCompact, tokens_before, after_micro);
            CompactionStep::Done(report)
        } else if self.auto_compact.is_disabled() {
            CompactionStep::RunFull
        } else {
            CompactionStep::RunAuto
        }
    }

    /// After AutoCompact ran: when it summarised the conversation down to
    /// `after_auto` tokens, under the FullCompact threshold, done; otherwise
    /// FullCompact.
    pub fn after_auto(&mut self, summarised: bool, tokens_before: usize, after_auto: usize, under_full_threshold: bool) -> (r: CompactionStep)
        requires
            summarised && under_full_threshold ==> after_auto <= tokens_before && can_record(
                old(self).ledger,
                tokens_before - after_auto,
            ),
        ensures
            summarised && under_full_threshold ==> r == CompactionStep::Done(CompactionReport {
                stage_fired: CompactionStage::AutoCompact,
                tokens_before,
                tokens_after: after_auto,
                tokens_saved: (tokens_before - after_auto) as usize,
            }) && recorded(old(self).ledger, final(self).ledger, tokens_before as nat, after_auto as nat),
            !(summarised && under_full_threshold) ==> r == CompactionStep::RunFull && final(self).ledger == old(self).ledger,
            final(self).auto_compact == old(self).auto_compact,
            final(self).max_context_tokens == old(self).max_context_tokens,
    {
        if summarised && under_full_threshold {
            let report = self.ledger.record(CompactionStage::AutoCompact, tokens_before, after_auto);
            CompactionStep::Done(report)
        } else {
            CompactionStep::RunFull
        }
    }

    /// After FullCompact (on its own, or reacting to a request the API
    /// refused as too large) took the conversation from `tokens_before` to
    /// `tokens_after` tokens.
    pub fn after_full(&mut self, reactive: bool, tokens_before: usize, tokens_after: usize) -> (r: CompactionReport)
        requires
            tokens_after <= tokens_before,
            can_record(old(self).ledger, tokens_before - tokens_after),
        ensures
            r == (CompactionReport {
                stage_fired: if reactive { CompactionStage::ReactiveCompact } else { CompactionStage::FullCompact },
                tokens_before,
                tokens_after,
                tokens_saved: (tokens_before - tokens_after) as usize,
            }),
            recorded(old(self).ledger, final(self).ledger, tokens_before as nat, tokens_after as nat),
            final(self).auto_compact == old(self).auto_compact,
            final(self).max_context_tokens == old(self).max_context_tokens,
    {
        let stage = if reactive {
            CompactionStage::ReactiveCompact
        } else {
            CompactionStage::FullCompact
        };
        self.ledger.record(stage, tokens_before, tokens_after)
    }

    /// The conversation after an AutoCompact summary: the summary as a user
    /// message, the assistant's acknowledgement, then the last
    /// `turns_preserved` messages (all of them when there are fewer).
    pub fn summarised_messages(messages: &Vec<Message>, summary: &CompactionSummary) -> (r: Vec<Message>)
        ensures
            r.len() >= 2,
            r@[0]@ == (Some("user"@), ContentView::Text(summary_text(summary.turns_compressed as nat, summary.summary_text@))),
            r@[1]@ == (Some("assistant"@), ContentView::Text(ack_text())),
            messages_view(r@.skip(2)) == messages_view(messages@).skip(
                if summary.turns_preserved <= messages.len() { messages.len() - summary.turns_preserved } else { 0 },
            ),
    {
        let mut text = copy_str("[CONVERSATION SUMMARY - ");
        push_decimal(&mut text, summary.turns_compressed as u64);
        push_str(&mut text, " turns compressed]\n\n");
        push_str(&mut text, summary.summary_text.as_str());
        let mut out: Vec<Message> = Vec::new();
        out.push(Message { role: Some(copy_str("user")), content: Content::Text(text) });
        out.push(
            Message {
                role: Some(copy_str("assistant")),
                content: Content::Text(copy_str("I've reviewed the conversation summary and I'm ready to continue.")),
            },
        );
        let start: usize = if summary.turns_preserved <= messages.len() {
            messages.len() - summary.turns_preserved
        } else {
            0
        };
        let ghost mv = messages_view(messages@);
        let mut k = start;
        while k < messages.len()
            invariant
                start <= k <= messages.len(),
                mv == messages_view(messages@),
                out.len() == 2 + (k - start),
                out@[0]@ == (Some("user"@), ContentView::Text(summary_text(summary.turns_compressed as nat, summary.summary_text@))),
                out@[1]@ == (Some("assistant"@), ContentView::Text(ack_text())),
                messages_view(out@.skip(2)) == mv.subrange(start as int, k as int),
            decreases messages.len() - k,
        {
            let m = copy_message(&messages[k]);
            let ghost before = out@;
            out.push(m);
            proof {
                assert(out@.skip(2) =~= before.skip(2).push(m));
                assert(messages_view(out@.skip(2)) =~= messages_view(before.skip(2)).push(m@));
                assert(mv.subrange(start as int, k + 1) =~= mv.subrange(start as int, k as int).push(mv[k as int]));
            }
            k = k + 1;
        }
        assert(mv.subrange(start as int, messages.len() as int) =~= mv.skip(start as int));
        out
    }
}

} // verus!
