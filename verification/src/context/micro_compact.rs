//! MicroCompact: trimming tool output in place, without any model call.
use vstd::prelude::*;
use crate::context::messages::{copy_block, copy_opt, has_role, opt_is, Block, BlockView, Content, ContentView, Message};
use crate::text::{
    byte_len, byte_prefix, chars_of, contains, contains_vec, copy_str, decimal, fits, is_boundary,
    line_ranges, lines, prefix_bytes, push_decimal, push_str, string_from_range, utf8_len,
};
use crate::memory::search::join_with_newlines;

verus! {

/// Settings of MicroCompact.
#[derive(Debug)]
pub struct MicroCompact {
    /// Tool outputs older than this many turns are eligible for trimming.
    pub trim_after_turns: u64,
    /// Lines kept at each end of a trimmed tool output.
    pub max_trimmed_lines: usize,
    /// The largest tool output kept whole, in bytes.
    pub max_output_chars: usize,
}

/// A tool output cut down: its first and last `keep` lines around a note of
/// how many were omitted when it has more than `2 * keep` lines, else its
/// first `max` bytes and a truncation note.
pub open spec fn trimmed_output(content: Seq<char>, keep: nat, max: nat) -> Seq<char> {
    let ls = lines(content);
    if ls.len() > keep * 2 {
        join_with_newlines(ls.take(keep as int)) + "\n\n... ["@ + decimal((ls.len() - keep * 2) as nat)
            + " lines omitted] ...\n\n"@ + join_with_newlines(ls.skip(ls.len() - keep))
    } else {
        byte_prefix(content, max as int) + "\n... [truncated]"@
    }
}

/// A tool result in message `index` is old enough at turn `turn` to be
/// compacted: `trim_after_turns` turns or more lie between them.
pub open spec fn eligible(c: MicroCompact, index: nat, turn: u64) -> bool {
    index + c.trim_after_turns <= turn
}

/// What happens to a tool result's text, found in message `index` at turn
/// `turn`.  Only an output old enough is touched: a large one is trimmed;
/// an empty result ("No matches found", "(no output)") more than three
/// messages behind the turn is replaced by "[no results]"; anything else
/// stays.  `None` when it stays.
pub open spec fn compacted_result(c: MicroCompact, content: Seq<char>, index: nat, turn: u64) -> Option<Seq<char>> {
    if !eligible(c, index, turn) {
        None
    } else if utf8_len(content) > c.max_output_chars {
        Some(trimmed_output(content, c.max_trimmed_lines as nat, c.max_output_chars as nat))
    } else if (contains(content, "No matches found"@) || contains(content, "(no output)"@)) && index < (
    if turn as usize >= 3 {
        turn as usize - 3
    } else {
        0
    }) {
        Some("[no results]"@)
    } else {
        None
    }
}

/// Tokens saved by replacing `old` with `new`: their quarter-byte counts'
/// difference, not below zero.
pub open spec fn saved(old: Seq<char>, new: Seq<char>) -> nat {
    if utf8_len(old) / 4 >= utf8_len(new) / 4 {
        (utf8_len(old) / 4 - utf8_len(new) / 4) as nat
    } else {
        0
    }
}

/// Trimming a tool output does not split a character, and what it builds
/// has a byte length.
pub open spec fn trim_ok(c: MicroCompact, content: Seq<char>) -> bool {
    &&& fits(content)
    &&& utf8_len(content) > c.max_output_chars ==> {
        &&& fits(trimmed_output(content, c.max_trimmed_lines as nat, c.max_output_chars as nat))
        &&& (lines(content).len() <= c.max_trimmed_lines * 2 ==> is_boundary(content, c.max_output_chars as int))
        &&& c.max_trimmed_lines * 2 <= usize::MAX
    }
}

impl MicroCompact {
    /// Compact tool outputs 5 turns old or older, keep 20 lines at each end, keep
    /// outputs of at most 3000 bytes whole.
    pub fn new() -> (r: Self)
        ensures
            r.trim_after_turns == 5,
            r.max_trimmed_lines == 20,
            r.max_output_chars == 3000,
    {
        MicroCompact { trim_after_turns: 5, max_trimmed_lines: 20, max_output_chars: 3000 }
    }

    /// The new text of a tool result (in message `index`, at turn `turn`),
    /// and the tokens saved; `None` when it stays as it is.
    pub fn compact_tool_result(&self, content: &str, index: usize, turn: u64) -> (r: Option<(String, usize)>)
        requires
            eligible(*self, index as nat, turn) ==> trim_ok(*self, content@),
        ensures
            match compacted_result(*self, content@, index as nat, turn) {
                Some(t) => r matches Some((s, n)) && s@ == t && n == saved(content@, t),
                None => r is None,
            },
    {
        if (index as u128) + (self.trim_after_turns as u128) > (turn as u128) {
            return None;
        }
        let original_tokens = byte_len(content) / 4;
        if byte_len(content) > self.max_output_chars {
            let trimmed = self.trim_output(content);
            let new_tokens = byte_len(trimmed.as_str()) / 4;
            let n = original_tokens.saturating_sub(new_tokens);
            return Some((trimmed, n));
        }
        let v = chars_of(content);
        let a = chars_of("No matches found");
        let b = chars_of("(no output)");
        if contains_vec(&v, &a) || contains_vec(&v, &b) {
            let limit = (turn as usize).saturating_sub(3);
            if index < limit {
                let compressed = copy_str("[no results]");
                proof {
                    reveal_strlit("[no results]");
                    assert(utf8_len("[no results]"@) == 12) by {
                        reveal_with_fuel(crate::text::utf8_len, 13);
                    }
                }
                let new_tokens = byte_len(compressed.as_str()) / 4;
                let n = original_tokens.saturating_sub(new_tokens);
                return Some((compressed, n));
            }
        }
        None
    }

    /// A large tool output cut down.
    fn trim_output(&self, content: &str) -> (r: String)
        requires
            trim_ok(*self, content@),
            utf8_len(content@) > self.max_output_chars,
        ensures
            r@ == trimmed_output(content@, self.max_trimmed_lines as nat, self.max_output_chars as nat),
    {
        let v = chars_of(content);
        let ranges = line_ranges(&v);
        let ghost ls = lines(v@);
        let keep = self.max_trimmed_lines;
        if ranges.len() > keep * 2 {
            let first = join_ranges(&v, &ranges, 0, keep);
            let last = join_ranges(&v, &ranges, ranges.len() - keep, ranges.len());
            let mut r = first;
            push_str(&mut r, "\n\n... [");
            push_decimal(&mut r, (ranges.len() - keep * 2) as u64);
            push_str(&mut r, " lines omitted] ...\n\n");
            push_str(&mut r, last.as_str());
            proof {
                assert(ls.subrange(0, keep as int) =~= ls.take(keep as int));
                assert(ls.subrange(ranges.len() - keep, ranges.len() as int) =~= ls.skip(ls.len() - keep));
            }
            r
        } else {
            let mut r = prefix_bytes(content, self.max_output_chars);
            push_str(&mut r, "\n... [truncated]");
            r
        }
    }

    /// A user message's blocks after compaction (message `index`), with the
    /// tokens saved.
    fn compact_blocks(&self, bs: &Vec<Block>, index: usize, turn: u64) -> (r: (Vec<Block>, usize))
        requires
            forall|j: int| 0 <= j < bs.len() ==> block_ok(*self, #[trigger] bs@[j]@, index as nat, turn),
            blocks_saved(*self, bs@.map_values(|b: Block| b@), index as nat, turn) <= usize::MAX,
        ensures
            r.0@.map_values(|b: Block| b@) == compacted_blocks(*self, bs@.map_values(|b: Block| b@), index as nat, turn),
            r.1 == blocks_saved(*self, bs@.map_values(|b: Block| b@), index as nat, turn),
    {
        let ghost bv = bs@.map_values(|b: Block| b@);
        let mut out: Vec<Block> = Vec::new();
        let mut total: usize = 0;
        let mut k: usize = 0;
        while k < bs.len()
            invariant
                bv == bs@.map_values(|b: Block| b@),
                forall|j: int| 0 <= j < bs.len() ==> block_ok(*self, #[trigger] bs@[j]@, index as nat, turn),
                blocks_saved(*self, bv, index as nat, turn) <= usize::MAX,
                k <= bs.len(),
                out@.map_values(|b: Block| b@) == compacted_blocks(*self, bv.take(k as int), index as nat, turn),
                total == blocks_saved(*self, bv.take(k as int), index as nat, turn),
            decreases bs.len() - k,
        {
            proof {
                assert(bv.take(k + 1).drop_last() =~= bv.take(k as int));
                assert(bv.take(k + 1).last() == bv[k as int]);
                lemma_blocks_saved_prefix(*self, bv, k + 1, index as nat, turn);
            }
            let ghost before = out@.map_values(|b: Block| b@);
            let nb = match &bs[k] {
                Block::ToolResult { content: Some(c) } => {
                    proof {
                        assert(block_ok(*self, bs@[k as int]@, index as nat, turn));
                        assert(bs@[k as int]@ == BlockView::ToolResult(Some(c@)));
                    }
                    match self.compact_tool_result(c.as_str(), index, turn) {
                        Some((t, n)) => {
                            total = total + n;
                            Block::ToolResult { content: Some(t) }
                        },
                        None => copy_block(&bs[k]),
                    }
                },
                _ => copy_block(&bs[k]),
            };
            out.push(nb);
            proof {
                assert(out@.map_values(|b: Block| b@) =~= before.push(nb@));
            }
            k = k + 1;
        }
        assert(bv.take(k as int) =~= bv);
        (out, total)
    }

    /// Compacts the tool results of user messages in place; returns the
    /// tokens saved.
    pub fn compact(&self, messages: &mut Vec<Message>, current_turn: u64) -> (r: usize)
        requires
            forall|i: int|
                0 <= i < old(messages).len() ==> message_ok(*self, #[trigger] old(messages)@[i]@, i as nat, current_turn),
            messages_saved(*self, crate::context::messages::messages_view(old(messages)@), current_turn) <= usize::MAX,
        ensures
            crate::context::messages::messages_view(final(messages)@) == compacted_messages(
                *self,
                crate::context::messages::messages_view(old(messages)@),
                current_turn,
            ),
            r == messages_saved(*self, crate::context::messages::messages_view(old(messages)@), current_turn),
    {
        let ghost mv = crate::context::messages::messages_view(messages@);
        let mut total: usize = 0;
        let mut i: usize = 0;
        while i < messages.len()
            invariant
                mv.len() == messages.len(),
                forall|q: int| i <= q < messages.len() ==> message_ok(*self, #[trigger] mv[q], q as nat, current_turn),
                messages_saved(*self, mv, current_turn) <= usize::MAX,
                i <= messages.len(),
                forall|q: int| i <= q < messages.len() ==> #[trigger] messages@[q]@ == mv[q],
                forall|q: int| 0 <= q < i ==> #[trigger] messages@[q]@ == compacted_message(*self, mv[q], q as nat, current_turn),
                total == messages_saved(*self, mv.take(i as int), current_turn),
            decreases messages.len() - i,
        {
            proof {
                assert(mv.take(i + 1).drop_last() =~= mv.take(i as int));
                assert(mv.take(i + 1).last() == mv[i as int]);
                lemma_messages_saved_prefix(*self, mv, i + 1, current_turn);
            }
            let is_user = opt_is(&messages[i].role, "user");
            let ghost t_before = total;
            proof {
                assert(messages@[i as int]@ == mv[i as int]);
                assert(is_user == (mv[i as int].0 == Some("user"@)));
            }
            let replaced = match &messages[i].content {
                Content::Blocks(bs) => {
                    if is_user {
                        proof {
                            assert(messages@[i as int]@ == mv[i as int]);
                            assert(message_ok(*self, mv[i as int], i as nat, current_turn));
                            assert forall|j: int| 0 <= j < bs.len() implies block_ok(*self, #[trigger] bs@[j]@, i as nat, current_turn) by {
                                assert(mv[i as int].1 == ContentView::Blocks(bs@.map_values(|b: Block| b@)));
                                assert(bs@.map_values(|b: Block| b@)[j] == bs@[j]@);
                            }
                        }
                        let (nb, n) = self.compact_blocks(bs, i, current_turn);
                        total = total + n;
                        Some(Message { role: copy_opt(&messages[i].role), content: Content::Blocks(nb) })
                    } else {
                        None
                    }
                },
                _ => None,
            };
            proof {
                assert(total == t_before + message_saved(*self, mv[i as int], i as nat, current_turn));
            }
            match replaced {
                Some(m) => {
                    let ghost before = messages@;
                    messages.set(i, m);
                    proof {
                        assert forall|q: int| 0 <= q < messages.len() && q != i implies messages@[q] == before[q] by {}
                    }
                },
                None => {},
            }
            i = i + 1;
        }
        proof {
            assert(mv.take(i as int) =~= mv);
            assert(crate::context::messages::messages_view(messages@) =~= compacted_messages(*self, mv, current_turn));
        }
        total
    }
}

/// Compacting the block (in message `index`, at turn `turn`) does not panic.
pub open spec fn block_ok(c: MicroCompact, b: BlockView, index: nat, turn: u64) -> bool {
    match b {
        BlockView::ToolResult(Some(t)) => eligible(c, index, turn) ==> trim_ok(c, t),
        _ => true,
    }
}

/// Compacting the message (message `index`, at turn `turn`) does not panic.
pub open spec fn message_ok(c: MicroCompact, m: (Option<Seq<char>>, ContentView), index: nat, turn: u64) -> bool {
    match m.1 {
        ContentView::Blocks(bs) => m.0 == Some("user"@) ==> forall|j: int|
            0 <= j < bs.len() ==> block_ok(c, #[trigger] bs[j], index, turn),
        _ => true,
    }
}

/// A block after compaction (in message `index`).
pub open spec fn compacted_block(c: MicroCompact, b: BlockView, index: nat, turn: u64) -> BlockView {
    match b {
        BlockView::ToolResult(Some(t)) => match compacted_result(c, t, index, turn) {
            Some(n) => BlockView::ToolResult(Some(n)),
            None => b,
        },
        _ => b,
    }
}

/// Tokens saved on a block.
pub open spec fn block_saved(c: MicroCompact, b: BlockView, index: nat, turn: u64) -> nat {
    match b {
        BlockView::ToolResult(Some(t)) => match compacted_result(c, t, index, turn) {
            Some(n) => saved(t, n),
            None => 0,
        },
        _ => 0,
    }
}

/// Blocks after compaction.
pub open spec fn compacted_blocks(c: MicroCompact, bs: Seq<BlockView>, index: nat, turn: u64) -> Seq<BlockView> {
    bs.map_values(|b: BlockView| compacted_block(c, b, index, turn))
}

/// Tokens saved on blocks.
pub open spec fn blocks_saved(c: MicroCompact, bs: Seq<BlockView>, index: nat, turn: u64) -> nat
    decreases bs.len(),
{
    if bs.len() == 0 {
        0
    } else {
        blocks_saved(c, bs.drop_last(), index, turn) + block_saved(c, bs.last(), index, turn)
    }
}

/// A message after compaction: the tool results of a user message's blocks
/// compacted; anything else as it was.
pub open spec fn compacted_message(c: MicroCompact, m: (Option<Seq<char>>, ContentView), index: nat, turn: u64)
    -> (Option<Seq<char>>, ContentView) {
    match m.1 {
        ContentView::Blocks(bs) => if m.0 == Some("user"@) {
            (m.0, ContentView::Blocks(compacted_blocks(c, bs, index, turn)))
        } else {
            m
        },
        _ => m,
    }
}

/// Tokens saved on a message.
pub open spec fn message_saved(c: MicroCompact, m: (Option<Seq<char>>, ContentView), index: nat, turn: u64) -> nat {
    match m.1 {
        ContentView::Blocks(bs) => if m.0 == Some("user"@) {
            blocks_saved(c, bs, index, turn)
        } else {
            0
        },
        _ => 0,
    }
}

/// Messages after compaction.
pub open spec fn compacted_messages(c: MicroCompact, ms: Seq<(Option<Seq<char>>, ContentView)>, turn: u64)
    -> Seq<(Option<Seq<char>>, ContentView)> {
    Seq::new(ms.len(), |i: int| compacted_message(c, ms[i], i as nat, turn))
}

/// Tokens saved on messages.
pub open spec fn messages_saved(c: MicroCompact, ms: Seq<(Option<Seq<char>>, ContentView)>, turn: u64) -> nat
    decreases ms.len(),
{
    if ms.len() == 0 {
        0
    } else {
        messages_saved(c, ms.drop_last(), turn) + message_saved(c, ms.last(), (ms.len() - 1) as nat, turn)
    }
}

proof fn lemma_blocks_saved_prefix(c: MicroCompact, bs: Seq<BlockView>, k: int, index: nat, turn: u64)
    requires
        0 <= k <= bs.len(),
    ensures
        blocks_saved(c, bs.take(k), index, turn) <= blocks_saved(c, bs, index, turn),
    decreases bs.len(),
{
    if k < bs.len() {
        assert(bs.drop_last().take(k) =~= bs.take(k));
        lemma_blocks_saved_prefix(c, bs.drop_last(), k, index, turn);
    } else {
        assert(bs.take(k) =~= bs);
    }
}

proof fn lemma_messages_saved_prefix(c: MicroCompact, ms: Seq<(Option<Seq<char>>, ContentView)>, k: int, turn: u64)
    requires
        0 <= k <= ms.len(),
    ensures
        messages_saved(c, ms.take(k), turn) <= messages_saved(c, ms, turn),
    decreases ms.len(),
{
    if k < ms.len() {
        assert(ms.drop_last().take(k) =~= ms.take(k));
        lemma_messages_saved_prefix(c, ms.drop_last(), k, turn);
    } else {
        assert(ms.take(k) =~= ms);
    }
}

/// The lines `ranges[lo..hi]` of `v`, joined by line breaks.
fn join_ranges(v: &Vec<char>, ranges: &Vec<(usize, usize)>, lo: usize, hi: usize) -> (r: String)
    requires
        lo <= hi <= ranges.len(),
        crate::text::ranges_are_lines(v@, ranges@, lines(v@)),
    ensures
        r@ == join_with_newlines(lines(v@).subrange(lo as int, hi as int)),
{
    let ghost ls = lines(v@);
    let mut r = String::new();
    let mut k = lo;
    proof {
        assert(ls.subrange(lo as int, lo as int) =~= Seq::<Seq<char>>::empty());
    }
    while k < hi
        invariant
            lo <= k <= hi <= ranges.len(),
            ls == lines(v@),
            crate::text::ranges_are_lines(v@, ranges@, ls),
            r@ == join_with_newlines(ls.subrange(lo as int, k as int)),
        decreases hi - k,
    {
        let ghost before = r@;
        if k > lo {
            push_str(&mut r, "\n");
        }
        let (a, b) = ranges[k];
        let line = string_from_range(v, a, b);
        push_str(&mut r, line.as_str());
        proof {
            reveal_strlit("\n");
            let t = ls.subrange(lo as int, k + 1);
            assert(t.drop_last() =~= ls.subrange(lo as int, k as int));
            assert(t.last() == ls[k as int]);
            if k == lo {
                assert(t =~= seq![ls[k as int]]);
                assert(r@ =~= ls[k as int]);
            } else {
                assert(r@ =~= before + seq!['\n'] + ls[k as int]);
            }
        }
        k = k + 1;
    }
    r
}

} // verus!
