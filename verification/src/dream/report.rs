//! The text of a dream report, in full and on one line.
use vstd::prelude::*;
use crate::dream::engine::DreamReport;
use crate::text::{byte_prefix, copy_str, decimal, fits, is_boundary, prefix_bytes, push_decimal, push_str, utf8_len};

verus! {

/// Formats dream reports; the cost is handed in already formatted with four
/// decimals.
pub struct DreamReporter;

/// The block listing the errors, one per line.
pub open spec fn error_lines(errors: Seq<Seq<char>>) -> Seq<char>
    decreases errors.len(),
{
    if errors.len() == 0 {
        Seq::empty()
    } else {
        error_lines(errors.drop_last()) + " - "@ + errors.last() + "\n"@
    }
}

/// The full report.
pub open spec fn report_text(r: DreamReport, cost: Seq<char>) -> Seq<char> {
    "\u{2554}\u{2550}\u{2550}\u{2550}\u{2550}\u{2550}\u{2550}\u{2550}\u{2550}\u{2550}\u{2550}\u{2550}\u{2550}\u{2550}\u{2550}\u{2550}\u{2550}\u{2550}\u{2550}\u{2550}\u{2550}\u{2550}\u{2550}\u{2550}\u{2550}\u{2550}\u{2550}\u{2550}\u{2550}\u{2550}\u{2550}\u{2550}\u{2550}\u{2550}\u{2550}\u{2550}\u{2550}\u{2550}\u{2550}\u{2550}\u{2550}\u{2550}\u{2550}\u{2557}\n"@
        + "\u{2551} autoDream Report                         \u{2551}\n"@
        + "\u{255a}\u{2550}\u{2550}\u{2550}\u{2550}\u{2550}\u{2550}\u{2550}\u{2550}\u{2550}\u{2550}\u{2550}\u{2550}\u{2550}\u{2550}\u{2550}\u{2550}\u{2550}\u{2550}\u{2550}\u{2550}\u{2550}\u{2550}\u{2550}\u{2550}\u{2550}\u{2550}\u{2550}\u{2550}\u{2550}\u{2550}\u{2550}\u{2550}\u{2550}\u{2550}\u{2550}\u{2550}\u{2550}\u{2550}\u{2550}\u{2550}\u{2550}\u{2550}\u{255d}\n\n"@
        + "Duration: "@ + decimal(r.duration_secs as nat) + "s\nTokens: "@ + decimal(r.tokens_consumed as nat)
        + " | Cost: $"@ + cost + "\n\n"@
        + "Observations: "@ + decimal(r.observations_collected as nat) + "\nOperations Applied: "@
        + decimal(r.operations_applied as nat) + "\n\n"@
        + "\u{1f500} Merged: "@ + decimal(r.entries_merged as nat) + "\n\u{2795} Created: "@
        + decimal(r.entries_created as nat) + "\n\u{1f5d1} Pruned: "@ + decimal(r.entries_pruned as nat)
        + "\n\u{2705} Confirmed: "@ + decimal(r.entries_confirmed as nat) + "\n"@
        + (if r.errors@.len() == 0 {
            Seq::empty()
        } else {
            "\n\u{26a0} Errors ("@ + decimal(r.errors@.len() as nat) + "):\n"@ + error_lines(r.errors.deep_view())
        })
        + "\nMemory: "@ + byte_prefix(r.memory_before_hash@, 8) + " \u{2192} "@
        + byte_prefix(r.memory_after_hash@, 8) + "\n"@
}

/// The one-line report.
pub open spec fn brief_text(r: DreamReport, cost: Seq<char>) -> Seq<char> {
    "autoDream: "@ + decimal(r.duration_secs as nat) + "s, "@ + decimal(r.observations_collected as nat)
        + " obs \u{2192} "@ + decimal(r.operations_applied as nat) + " ops ("@ + decimal(
        r.entries_merged as nat,
    ) + " merged, "@ + decimal(r.entries_created as nat) + " created, "@ + decimal(
        r.entries_pruned as nat,
    ) + " pruned, "@ + decimal(r.entries_confirmed as nat) + " confirmed, "@ + decimal(
        r.contradictions_resolved as nat,
    ) + " contradictions), "@ + decimal(r.tokens_consumed as nat) + " tokens, $"@ + cost
}

/// The hashes can be cut to their first eight bytes.
pub open spec fn hashes_cut(r: DreamReport) -> bool {
    &&& fits(r.memory_before_hash@) && utf8_len(r.memory_before_hash@) >= 8
    &&& is_boundary(r.memory_before_hash@, 8)
    &&& fits(r.memory_after_hash@) && utf8_len(r.memory_after_hash@) >= 8
    &&& is_boundary(r.memory_after_hash@, 8)
}

impl DreamReporter {
    /// The full report: a banner, the duration, tokens and cost, the counts,
    /// the errors when there are any, and the first eight characters of the
    /// memory hashes before and after.
    pub fn format(report: &DreamReport, cost: &str) -> (r: String)
        requires
            hashes_cut(*report),
        ensures
            r@ == report_text(*report, cost@),
    {
        let mut out = copy_str(
            "\u{2554}\u{2550}\u{2550}\u{2550}\u{2550}\u{2550}\u{2550}\u{2550}\u{2550}\u{2550}\u{2550}\u{2550}\u{2550}\u{2550}\u{2550}\u{2550}\u{2550}\u{2550}\u{2550}\u{2550}\u{2550}\u{2550}\u{2550}\u{2550}\u{2550}\u{2550}\u{2550}\u{2550}\u{2550}\u{2550}\u{2550}\u{2550}\u{2550}\u{2550}\u{2550}\u{2550}\u{2550}\u{2550}\u{2550}\u{2550}\u{2550}\u{2550}\u{2550}\u{2557}\n",
        );
        push_str(&mut out, "\u{2551} autoDream Report                         \u{2551}\n");
        push_str(
            &mut out,
            "\u{255a}\u{2550}\u{2550}\u{2550}\u{2550}\u{2550}\u{2550}\u{2550}\u{2550}\u{2550}\u{2550}\u{2550}\u{2550}\u{2550}\u{2550}\u{2550}\u{2550}\u{2550}\u{2550}\u{2550}\u{2550}\u{2550}\u{2550}\u{2550}\u{2550}\u{2550}\u{2550}\u{2550}\u{2550}\u{2550}\u{2550}\u{2550}\u{2550}\u{2550}\u{2550}\u{2550}\u{2550}\u{2550}\u{2550}\u{2550}\u{2550}\u{2550}\u{2550}\u{255d}\n\n",
        );
        push_str(&mut out, "Duration: ");
        push_decimal(&mut out, report.duration_secs);
        push_str(&mut out, "s\nTokens: ");
        push_decimal(&mut out, report.tokens_consumed);
        push_str(&mut out, " | Cost: $");
        push_str(&mut out, cost);
        push_str(&mut out, "\n\n");
        push_str(&mut out, "Observations: ");
        push_decimal(&mut out, report.observations_collected as u64);
        push_str(&mut out, "\nOperations Applied: ");
        push_decimal(&mut out, report.operations_applied as u64);
        push_str(&mut out, "\n\n");
        push_str(&mut out, "\u{1f500} Merged: ");
        push_decimal(&mut out, report.entries_merged as u64);
        push_str(&mut out, "\n\u{2795} Created: ");
        push_decimal(&mut out, report.entries_created as u64);
        push_str(&mut out, "\n\u{1f5d1} Pruned: ");
        push_decimal(&mut out, report.entries_pruned as u64);
        push_str(&mut out, "\n\u{2705} Confirmed: ");
        push_decimal(&mut out, report.entries_confirmed as u64);
        push_str(&mut out, "\n");
        let ghost head = out@;
        if report.errors.len() > 0 {
            push_str(&mut out, "\n\u{26a0} Errors (");
            push_decimal(&mut out, report.errors.len() as u64);
            push_str(&mut out, "):\n");
            let ghost mid = out@;
            let mut k: usize = 0;
            while k < report.errors.len()
                invariant
                    k <= report.errors.len(),
                    out@ == mid + error_lines(report.errors.deep_view().take(k as int)),
                decreases report.errors.len() - k,
            {
                push_str(&mut out, " - ");
                push_str(&mut out, report.errors[k].as_str());
                push_str(&mut out, "\n");
                proof {
                    let ds = report.errors.deep_view();
                    assert(ds.take(k + 1).drop_last() =~= ds.take(k as int));
                    assert(ds.take(k + 1).last() == report.errors@[k as int]@);
                }
                k = k + 1;
            }
            assert(report.errors.deep_view().take(k as int) =~= report.errors.deep_view());
        }
        push_str(&mut out, "\nMemory: ");
        let before = prefix_bytes(report.memory_before_hash.as_str(), 8);
        push_str(&mut out, before.as_str());
        push_str(&mut out, " \u{2192} ");
        let after = prefix_bytes(report.memory_after_hash.as_str(), 8);
        push_str(&mut out, after.as_str());
        push_str(&mut out, "\n");
        out
    }

    /// The report on one line.
    pub fn format_brief(report: &DreamReport, cost: &str) -> (r: String)
        ensures
            r@ == brief_text(*report, cost@),
    {
        let mut out = copy_str("autoDream: ");
        push_decimal(&mut out, report.duration_secs);
        push_str(&mut out, "s, ");
        push_decimal(&mut out, report.observations_collected as u64);
        push_str(&mut out, " obs \u{2192} ");
        push_decimal(&mut out, report.operations_applied as u64);
        push_str(&mut out, " ops (");
        push_decimal(&mut out, report.entries_merged as u64);
        push_str(&mut out, " merged, ");
        push_decimal(&mut out, report.entries_created as u64);
        push_str(&mut out, " created, ");
        push_decimal(&mut out, report.entries_pruned as u64);
        push_str(&mut out, " pruned, ");
        push_decimal(&mut out, report.entries_confirmed as u64);
        push_str(&mut out, " confirmed, ");
        push_decimal(&mut out, report.contradictions_resolved as u64);
        push_str(&mut out, " contradictions), ");
        push_decimal(&mut out, report.tokens_consumed);
        push_str(&mut out, " tokens, $");
        push_str(&mut out, cost);
        out
    }
}

} // verus!
