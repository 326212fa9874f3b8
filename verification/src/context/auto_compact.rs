//! AutoCompact: older turns summarised by the model, recent turns kept.
//!
//! A circuit breaker stops it after repeated failures.  The model call is the
//! caller's; this module decides what is summarised and builds the prompt.
use vstd::prelude::*;
use crate::context::messages::{
    messages_view, opt_is, preview, preview_exec, preview_ok, text_or, Block, BlockView, Content,
    ContentView, Message,
};
use crate::text::{byte_len, copy_str, decimal, fits, push_decimal, push_str, utf8_len};

verus! {

/// The AutoCompact stage and its circuit breaker.
#[derive(Debug)]
pub struct AutoCompact {
    pub reserved_buffer_tokens: usize,
    pub max_summary_tokens: usize,
    pub preserve_recent_turns: usize,
    pub consecutive_failures: u32,
    pub max_failures: u32,
}

/// What one AutoCompact run produced.
#[derive(Debug)]
pub struct CompactionSummary {
    pub summary_text: String,
    pub tokens_before: usize,
    pub tokens_after: usize,
    pub turns_compressed: usize,
    pub turns_preserved: usize,
}

/// Why AutoCompact does not run.
#[derive(Debug, Clone, Copy, PartialEq, Eq, Structural)]
pub enum AutoCompactError {
    /// The breaker is open after this many failures.
    CircuitOpen { failures: u32 },
    /// Too few messages would be summarised.
    NotEnoughMessages,
}

/// The view of a message.
pub type MessageView = (Option<Seq<char>>, ContentView);

/// An optional string, or `d`.
pub open spec fn or_text(o: Option<Seq<char>>, d: Seq<char>) -> Seq<char> {
    match o {
        Some(s) => s,
        None => d,
    }
}

/// A user message that is not only tool results: it starts a turn.
pub open spec fn starts_turn(m: MessageView) -> bool {
    &&& m.0 == Some("user"@)
    &&& !(m.1 matches ContentView::Blocks(bs) && forall|j: int| 0 <= j < bs.len() ==> #[trigger] bs[j] is ToolResult)
}

/// How many messages, from the end, hold the last `turns` turns (`seen`
/// turns already counted further on); all of them when there are fewer.
pub open spec fn recent_count(ms: Seq<MessageView>, turns: nat, seen: nat) -> nat
    decreases ms.len(),
{
    if ms.len() == 0 {
        0
    } else if starts_turn(ms.last()) && seen + 1 >= turns {
        1
    } else {
        1 + recent_count(ms.drop_last(), turns, if starts_turn(ms.last()) { seen + 1 } else { seen })
    }
}

/// How the messages kept for the last `turns` turns are counted, one message
/// at a time from the end (`seen` turns already counted): a user message with
/// text, with other content, or with a block that is not a tool result is a
/// turn, and the count ends at the `turns`-th; a user message made only of
/// tool results, like a message of any other role, is kept without being a
/// turn.
pub proof fn lemma_recent_count_steps(
    ms: Seq<MessageView>,
    turns: nat,
    seen: nat,
    text: Seq<char>,
    bs: Seq<BlockView>,
    role: Option<Seq<char>>,
    content: ContentView,
)
    ensures
        recent_count(Seq::empty(), turns, seen) == 0,
        recent_count(ms.push((Some("user"@), ContentView::Text(text))), turns, seen) == if seen + 1 >= turns {
            1
        } else {
            1 + recent_count(ms, turns, seen + 1)
        },
        recent_count(ms.push((Some("user"@), ContentView::Other)), turns, seen) == if seen + 1 >= turns {
            1
        } else {
            1 + recent_count(ms, turns, seen + 1)
        },
        (forall|j: int| 0 <= j < bs.len() ==> #[trigger] bs[j] is ToolResult) ==> recent_count(
            ms.push((Some("user"@), ContentView::Blocks(bs))),
            turns,
            seen,
        ) == 1 + recent_count(ms, turns, seen),
        (exists|j: int| 0 <= j < bs.len() && !(#[trigger] bs[j] is ToolResult)) ==> recent_count(
            ms.push((Some("user"@), ContentView::Blocks(bs))),
            turns,
            seen,
        ) == if seen + 1 >= turns {
            1
        } else {
            1 + recent_count(ms, turns, seen + 1)
        },
        role != Some("user"@) ==> recent_count(ms.push((role, content)), turns, seen) == 1 + recent_count(
            ms,
            turns,
            seen,
        ),
{
    let m1 = (Some("user"@), ContentView::Text(text));
    let m2 = (Some("user"@), ContentView::Other);
    let m3 = (Some("user"@), ContentView::Blocks(bs));
    let m4 = (role, content);
    assert(ms.push(m1).drop_last() =~= ms);
    assert(ms.push(m2).drop_last() =~= ms);
    assert(ms.push(m3).drop_last() =~= ms);
    assert(ms.push(m4).drop_last() =~= ms);
    assert(ms.push(m1).last() == m1);
    assert(ms.push(m2).last() == m2);
    assert(ms.push(m3).last() == m3);
    assert(ms.push(m4).last() == m4);
    if exists|j: int| 0 <= j < bs.len() && !(#[trigger] bs[j] is ToolResult) {
        let j = choose|j: int| 0 <= j < bs.len() && !(#[trigger] bs[j] is ToolResult);
        assert(!starts_turn(m3) ==> bs[j] is ToolResult);
    }
}

/// What a block contributes to the conversation text.
pub open spec fn block_text(role: Seq<char>, b: BlockView) -> Seq<char> {
    match b {
        BlockView::Text(Some(t)) => "["@ + role + "]: "@ + t + "\n\n"@,
        BlockView::ToolUse(name, _) => "[assistant called tool: "@ + or_text(name, "?"@) + "]\n\n"@,
        BlockView::ToolResult(c) => "[tool_result]: "@ + preview(or_text(c, Seq::empty()), 200) + "\n\n"@,
        _ => Seq::empty(),
    }
}

/// What blocks contribute.
pub open spec fn blocks_text(role: Seq<char>, bs: Seq<BlockView>) -> Seq<char>
    decreases bs.len(),
{
    if bs.len() == 0 {
        Seq::empty()
    } else {
        blocks_text(role, bs.drop_last()) + block_text(role, bs.last())
    }
}

/// What a message contributes.
pub open spec fn message_text(m: MessageView) -> Seq<char> {
    let role = or_text(m.0, "unknown"@);
    match m.1 {
        ContentView::Text(t) => "["@ + role + "]: "@ + t + "\n\n"@,
        ContentView::Blocks(bs) => blocks_text(role, bs),
        ContentView::Other => Seq::empty(),
    }
}

/// The conversation as the summariser reads it.
pub open spec fn conversation_text(ms: Seq<MessageView>) -> Seq<char>
    decreases ms.len(),
{
    if ms.len() == 0 {
        Seq::empty()
    } else {
        conversation_text(ms.drop_last()) + message_text(ms.last())
    }
}

/// The opening of the summary request.
pub open spec fn summary_request_head() -> Seq<char> {
    "Summarize the following conversation history into a structured summary.\nYour summary MUST preserve:\n1. **All file paths** mentioned or modified (exact paths)\n2. **All decisions made** and their rationale\n3. **All errors encountered** and how they were resolved\n4. **Current task status** \u{2014} what remains\n5. **Key code changes** \u{2014} what files were edited and what changed\n6. **Important discoveries** \u{2014} architecture insights, known issues found\n\nFormat your summary as:\n## Task\n## Progress\n## Files Modified\n## Errors & Resolutions\n## Open Items\n## Key Insights\n\nConversation to summarize:\n---\n"@
}

/// The close of the summary request.
pub open spec fn summary_request_tail() -> Seq<char> {
    "\n---\nProduce the structured summary now. Be concise but miss nothing important."@
}

/// The request sent to the summariser for the messages `ms`.
pub open spec fn summary_request(ms: Seq<MessageView>) -> Seq<char> {
    summary_request_head() + conversation_text(ms) + summary_request_tail()
}

/// Building the request does not split a character.
pub open spec fn messages_preview_ok(ms: Seq<MessageView>) -> bool {
    forall|i: int, j: int|
        #![trigger ms[i].1, ms[i].1->Blocks_0[j]]
        0 <= i < ms.len() && ms[i].1 is Blocks && 0 <= j < ms[i].1->Blocks_0.len()
            && ms[i].1->Blocks_0[j] is ToolResult ==> preview_ok(or_text(ms[i].1->Blocks_0[j]->ToolResult_0, Seq::empty()), 200)
}

/// The texts of the text blocks of a reply, joined by line breaks.
pub open spec fn reply_text(bs: Seq<BlockView>) -> Seq<char>
    decreases bs.len(),
{
    if bs.len() == 0 {
        Seq::empty()
    } else {
        let rest = reply_text(bs.drop_last());
        match bs.last() {
            BlockView::Text(Some(t)) => if has_text_block(bs.drop_last()) {
                rest + "\n"@ + t
            } else {
                t
            },
            _ => rest,
        }
    }
}

/// Some block holds text.
pub open spec fn has_text_block(bs: Seq<BlockView>) -> bool {
    exists|j: int| 0 <= j < bs.len() && #[trigger] bs[j] matches BlockView::Text(Some(_))
}

/// The token estimate of serialised messages: a quarter of each one's bytes, plus 4.
pub open spec fn serialized_tokens(lens: Seq<usize>) -> nat
    decreases lens.len(),
{
    if lens.len() == 0 {
        0
    } else {
        serialized_tokens(lens.drop_last()) + (lens.last() / 4) as nat + 4
    }
}

impl AutoCompact {
    /// 13000 tokens in reserve, summaries of at most 20000 tokens, the last 3
    /// turns kept; the breaker opens after 3 failures in a row.
    pub fn new() -> (r: Self)
        ensures
            r.reserved_buffer_tokens == 13_000,
            r.max_summary_tokens == 20_000,
            r.preserve_recent_turns == 3,
            r.consecutive_failures == 0,
            r.max_failures == 3,
    {
        AutoCompact {
            reserved_buffer_tokens: 13_000,
            max_summary_tokens: 20_000,
            preserve_recent_turns: 3,
            consecutive_failures: 0,
            max_failures: 3,
        }
    }

    /// The breaker is open: as many failures in a row as allowed.
    pub fn is_disabled(&self) -> (b: bool)
        ensures
            b == (self.consecutive_failures >= self.max_failures),
    {
        self.consecutive_failures >= self.max_failures
    }

    /// Closes the breaker.
    pub fn reset(&mut self)
        ensures
            final(self).consecutive_failures == 0,
            final(self).max_failures == old(self).max_failures,
            final(self).preserve_recent_turns == old(self).preserve_recent_turns,
            final(self).reserved_buffer_tokens == old(self).reserved_buffer_tokens,
            final(self).max_summary_tokens == old(self).max_summary_tokens,
    {
        self.consecutive_failures = 0;
    }

    /// Counts a failed summary.
    pub fn record_failure(&mut self)
        requires
            old(self).consecutive_failures < u32::MAX,
        ensures
            final(self).consecutive_failures == old(self).consecutive_failures + 1,
            final(self).max_failures == old(self).max_failures,
            final(self).preserve_recent_turns == old(self).preserve_recent_turns,
            final(self).reserved_buffer_tokens == old(self).reserved_buffer_tokens,
            final(self).max_summary_tokens == old(self).max_summary_tokens,
    {
        self.consecutive_failures = self.consecutive_failures + 1;
    }

    /// How many messages, from the end, hold the last `turns` turns.
    pub fn count_recent_turns(messages: &Vec<Message>, turns: usize) -> (r: usize)
        ensures
            r == recent_count(messages_view(messages@), turns as nat, 0),
    {
        let ghost mv = messages_view(messages@);
        let mut turn_count: usize = 0;
        let mut i = messages.len();
        proof {
            assert(mv.take(i as int) =~= mv);
        }
        while i > 0
            invariant
                mv == messages_view(messages@),
                i <= messages.len(),
                turn_count <= messages.len() - i,
                turn_count < turns || (turns == 0 && turn_count == 0),
                recent_count(mv, turns as nat, 0) == (messages.len() - i) + recent_count(mv.take(i as int), turns as nat, turn_count as nat),
            decreases i,
        {
            let m = &messages[i - 1];
            let starts = Self::starts_turn_exec(m);
            proof {
                let t = mv.take(i as int);
                assert(t.last() == mv[i - 1]);
                assert(mv[i - 1] == messages@[i - 1]@);
                assert(t.drop_last() =~= mv.take(i - 1));
            }
            if starts {
                if turn_count + 1 >= turns {
                    return messages.len() - i + 1;
                }
                turn_count = turn_count + 1;
            }
            i = i - 1;
        }
        proof {
            assert(mv.take(0) =~= Seq::<MessageView>::empty());
        }
        messages.len()
    }

    fn starts_turn_exec(m: &Message) -> (b: bool)
        ensures
            b == starts_turn(m@),
    {
        if !opt_is(&m.role, "user") {
            return false;
        }
        match &m.content {
            Content::Blocks(bs) => {
                let mut all = true;
                let mut j: usize = 0;
                while j < bs.len()
                    invariant
                        j <= bs.len(),
                        all == forall|q: int| 0 <= q < j ==> #[trigger] bs@[q]@ is ToolResult,
                    decreases bs.len() - j,
                {
                    let ghost was = all;
                    match &bs[j] {
                        Block::ToolResult { .. } => {
                            assert(bs@[j as int]@ is ToolResult);
                        },
                        _ => {
                            assert(!(bs@[j as int]@ is ToolResult));
                            all = false;
                        },
                    }
                    proof {
                        if all {
                            assert forall|q: int| 0 <= q < j + 1 implies #[trigger] bs@[q]@ is ToolResult by {
                                if q < j {
                                    assert(was);
                                }
                            }
                        } else if was {
                            assert(!(bs@[j as int]@ is ToolResult));
                        } else {
                            let q = choose|q: int| 0 <= q < j && !(#[trigger] bs@[q]@ is ToolResult);
                            assert(!(bs@[q]@ is ToolResult));
                        }
                    }
                    j = j + 1;
                }
                proof {
                    let v = bs@.map_values(|b: Block| b@);
                    assert(m@.1 == ContentView::Blocks(v));
                    assert(all == forall|q: int| 0 <= q < v.len() ==> #[trigger] v[q] is ToolResult) by {
                        if all {
                            assert forall|q: int| 0 <= q < v.len() implies #[trigger] v[q] is ToolResult by {
                                assert(v[q] == bs@[q]@);
                            }
                        } else {
                            let q = choose|q: int| 0 <= q < j && !(#[trigger] bs@[q]@ is ToolResult);
                            assert(v[q] == bs@[q]@);
                        }
                    }
                }
                !all
            },
            _ => true,
        }
    }

    /// Where to split: `(messages summarised, messages kept)`; refused when the
    /// breaker is open or no more than one message would be summarised.
    pub fn plan_split(&self, messages: &Vec<Message>) -> (r: Result<(usize, usize), AutoCompactError>)
        ensures
            self.consecutive_failures >= self.max_failures ==> r == Err::<(usize, usize), AutoCompactError>(
                AutoCompactError::CircuitOpen { failures: self.max_failures },
            ),
            self.consecutive_failures < self.max_failures ==> ({
                let keep = recent_count(messages_view(messages@), self.preserve_recent_turns as nat, 0);
                let split = if messages.len() >= keep { messages.len() - keep } else { 0 };
                if split <= 1 {
                    r == Err::<(usize, usize), AutoCompactError>(AutoCompactError::NotEnoughMessages)
                } else {
                    r == Ok::<(usize, usize), AutoCompactError>((split as usize, keep as usize))
                }
            }),
    {
        if self.is_disabled() {
            return Err(AutoCompactError::CircuitOpen { failures: self.max_failures });
        }
        let keep = Self::count_recent_turns(messages, self.preserve_recent_turns);
        let split = messages.len().saturating_sub(keep);
        if split <= 1 {
            return Err(AutoCompactError::NotEnoughMessages);
        }
        Ok((split, keep))
    }

    /// What a block adds to the conversation text.
    fn push_block(out: &mut String, role: &str, b: &Block)
        requires
            b@ is ToolResult ==> preview_ok(or_text(b@->ToolResult_0, Seq::empty()), 200),
        ensures
            final(out)@ == old(out)@ + block_text(role@, b@),
    {
        match b {
            Block::Text { text: Some(t) } => {
                push_str(out, "[");
                push_str(out, role);
                push_str(out, "]: ");
                push_str(out, t.as_str());
                push_str(out, "\n\n");
            },
            Block::ToolUse { name, .. } => {
                push_str(out, "[assistant called tool: ");
                match name {
                    Some(n) => push_str(out, n.as_str()),
                    None => push_str(out, "?"),
                }
                push_str(out, "]\n\n");
            },
            Block::ToolResult { content } => {
                push_str(out, "[tool_result]: ");
                let p = match content {
                    Some(c) => preview_exec(c.as_str(), 200),
                    None => {
                        proof {
                            assert(utf8_len(Seq::<char>::empty()) == 0);
                            assert(Seq::<char>::empty().take(0) =~= Seq::<char>::empty());
                        }
                        String::new()
                    },
                };
                push_str(out, p.as_str());
                push_str(out, "\n\n");
            },
            _ => {
                assert(old(out)@ + block_text(role@, b@) =~= old(out)@);
            },
        }
    }

    /// The summary request for the first `split` messages.
    pub fn build_summary_prompt(messages: &Vec<Message>, split: usize) -> (r: String)
        requires
            split <= messages.len(),
            messages_preview_ok(messages_view(messages@)),
        ensures
            r@ == summary_request(messages_view(messages@).take(split as int)),
    {
        let ghost mv = messages_view(messages@);
        let mut out = copy_str("Summarize the following conversation history into a structured summary.\nYour summary MUST preserve:\n1. **All file paths** mentioned or modified (exact paths)\n2. **All decisions made** and their rationale\n3. **All errors encountered** and how they were resolved\n4. **Current task status** \u{2014} what remains\n5. **Key code changes** \u{2014} what files were edited and what changed\n6. **Important discoveries** \u{2014} architecture insights, known issues found\n\nFormat your summary as:\n## Task\n## Progress\n## Files Modified\n## Errors & Resolutions\n## Open Items\n## Key Insights\n\nConversation to summarize:\n---\n");
        let ghost head = out@;
        let mut i: usize = 0;
        proof {
            assert(mv.take(0) =~= Seq::<MessageView>::empty());
            assert(out@ =~= head + conversation_text(mv.take(0)));
        }
        while i < split
            invariant
                mv == messages_view(messages@),
                split <= messages.len(),
                messages_preview_ok(mv),
                i <= split,
                out@ == head + conversation_text(mv.take(i as int)),
            decreases split - i,
        {
            let m = &messages[i];
            let ghost before = out@;
            let role: &str = match &m.role {
                Some(r) => r.as_str(),
                None => "unknown",
            };
            proof {
                assert(mv[i as int] == m@);
                assert(role@ == or_text(m@.0, "unknown"@));
            }
            match &m.content {
                Content::Text(t) => {
                    push_str(&mut out, "[");
                    push_str(&mut out, role);
                    push_str(&mut out, "]: ");
                    push_str(&mut out, t.as_str());
                    push_str(&mut out, "\n\n");
                },
                Content::Blocks(bs) => {
                    let ghost bv = bs@.map_values(|b: Block| b@);
                    let mut j: usize = 0;
                    proof {
                        assert(bv.take(0) =~= Seq::<BlockView>::empty());
                        assert(out@ =~= before + blocks_text(role@, bv.take(0)));
                    }
                    while j < bs.len()
                        invariant
                            bv == bs@.map_values(|b: Block| b@),
                            mv == messages_view(messages@),
                            i < messages.len(),
                            mv[i as int].1 == ContentView::Blocks(bv),
                            messages_preview_ok(mv),
                            j <= bs.len(),
                            out@ == before + blocks_text(role@, bv.take(j as int)),
                        decreases bs.len() - j,
                    {
                        proof {
                            assert(bv[j as int] == bs@[j as int]@);
                            if bv[j as int] is ToolResult {
                                assert(mv[i as int].1->Blocks_0[j as int] == bv[j as int]);
                            }
                            assert(bv.take(j + 1).drop_last() =~= bv.take(j as int));
                            assert(bv.take(j + 1).last() == bv[j as int]);
                        }
                        Self::push_block(&mut out, role, &bs[j]);
                        j = j + 1;
                    }
                    proof {
                        assert(bv.take(j as int) =~= bv);
                    }
                },
                Content::Other => {},
            }
            proof {
                assert(mv.take(i + 1).drop_last() =~= mv.take(i as int));
                assert(mv.take(i + 1).last() == mv[i as int]);
                assert(out@ =~= head + conversation_text(mv.take(i + 1)));
            }
            i = i + 1;
        }
        push_str(&mut out, "\n---\nProduce the structured summary now. Be concise but miss nothing important.");
        out
    }

    /// The text of a reply: its text blocks, joined by line breaks.
    pub fn extract_text(blocks: &Vec<Block>) -> (r: String)
        ensures
            r@ == reply_text(blocks@.map_values(|b: Block| b@)),
    {
        let ghost bv = blocks@.map_values(|b: Block| b@);
        let mut out = String::new();
        let mut any = false;
        let mut j: usize = 0;
        proof {
            assert(bv.take(0) =~= Seq::<BlockView>::empty());
        }
        while j < blocks.len()
            invariant
                bv == blocks@.map_values(|b: Block| b@),
                j <= blocks.len(),
                out@ == reply_text(bv.take(j as int)),
                any == has_text_block(bv.take(j as int)),
            decreases blocks.len() - j,
        {
            proof {
                assert(bv.take(j + 1).drop_last() =~= bv.take(j as int));
                assert(bv.take(j + 1).last() == bv[j as int]);
                assert(bv[j as int] == blocks@[j as int]@);
            }
            match &blocks[j] {
                Block::Text { text: Some(t) } => {
                    if any {
                        push_str(&mut out, "\n");
                    }
                    push_str(&mut out, t.as_str());
                    proof {
                        if !any {
                            lemma_no_text_block(bv.take(j as int));
                            assert(out@ =~= t@);
                        }
                        assert(has_text_block(bv.take(j + 1))) by {
                            assert(bv.take(j + 1)[j as int] == bv[j as int]);
                        }
                    }
                    any = true;
                },
                _ => {
                    proof {
                        if has_text_block(bv.take(j + 1)) {
                            let q = choose|q: int| 0 <= q < j + 1 && #[trigger] bv.take(j + 1)[q] matches BlockView::Text(Some(_));
                            assert(q < j);
                            assert(bv.take(j as int)[q] == bv.take(j + 1)[q]);
                        }
                        if has_text_block(bv.take(j as int)) {
                            let q = choose|q: int| 0 <= q < j && #[trigger] bv.take(j as int)[q] matches BlockView::Text(Some(_));
                            assert(bv.take(j + 1)[q] == bv.take(j as int)[q]);
                        }
                    }
                },
            }
            proof {
                if any && has_text_block(bv.take(j as int)) {
                }
            }
            j = j + 1;
        }
        proof {
            assert(bv.take(j as int) =~= bv);
        }
        out
    }

    /// The summary of a run: the model's text, the tokens before (given) and
    /// after (a quarter of the summary's bytes), and the split.
    pub fn summary(text: String, tokens_before: usize, split: usize, keep: usize) -> (r: CompactionSummary)
        requires
            fits(text@),
        ensures
            r.summary_text@ == text@,
            r.tokens_before == tokens_before,
            r.tokens_after == utf8_len(text@) / 4,
            r.turns_compressed == split,
            r.turns_preserved == keep,
    {
        let tokens_after = byte_len(text.as_str()) / 4;
        CompactionSummary {
            summary_text: text,
            tokens_before,
            tokens_after,
            turns_compressed: split,
            turns_preserved: keep,
        }
    }

    /// The token estimate of serialised messages: each one's bytes over 4, plus 4.
    pub fn estimate_tokens_array(lens: &Vec<usize>) -> (r: usize)
        requires
            serialized_tokens(lens@) <= usize::MAX,
        ensures
            r == serialized_tokens(lens@),
    {
        let mut total: usize = 0;
        let mut k: usize = 0;
        while k < lens.len()
            invariant
                k <= lens.len(),
                serialized_tokens(lens@) <= usize::MAX,
                total == serialized_tokens(lens@.take(k as int)),
            decreases lens.len() - k,
        {
            proof {
                assert(lens@.take(k + 1).drop_last() =~= lens@.take(k as int));
                lemma_serialized_prefix(lens@, k + 1);
            }
            total = total + lens[k] / 4 + 4;
            k = k + 1;
        }
        assert(lens@.take(k as int) =~= lens@);
        total
    }
}

/// Without text blocks a reply has no text.
proof fn lemma_no_text_block(bs: Seq<BlockView>)
    requires
        !has_text_block(bs),
    ensures
        reply_text(bs) == Seq::<char>::empty(),
    decreases bs.len(),
{
    if bs.len() > 0 {
        assert(!has_text_block(bs.drop_last())) by {
            if has_text_block(bs.drop_last()) {
                let q = choose|q: int| 0 <= q < bs.drop_last().len() && #[trigger] bs.drop_last()[q] matches BlockView::Text(Some(_));
                assert(bs[q] == bs.drop_last()[q]);
            }
        }
        lemma_no_text_block(bs.drop_last());
        assert(!(bs[bs.len() - 1] matches BlockView::Text(Some(_))));
    }
}

proof fn lemma_serialized_prefix(lens: Seq<usize>, k: int)
    requires
        0 <= k <= lens.len(),
    ensures
        serialized_tokens(lens.take(k)) <= serialized_tokens(lens),
    decreases lens.len(),
{
    if k < lens.len() {
        assert(lens.drop_last().take(k) =~= lens.take(k));
        lemma_serialized_prefix(lens.drop_last(), k);
    } else {
        assert(lens.take(k) =~= lens);
    }
}

impl AutoCompactError {
    /// The error's message.
    pub fn message(&self) -> (r: String)
        ensures
            r@ == match *self {
                AutoCompactError::CircuitOpen { failures } => "AutoCompact circuit breaker tripped after "@
                    + decimal(failures as nat) + " failures"@,
                AutoCompactError::NotEnoughMessages => "Not enough messages to compact"@,
            },
    {
        match self {
            AutoCompactError::CircuitOpen { failures } => {
                let mut r = copy_str("AutoCompact circuit breaker tripped after ");
                push_decimal(&mut r, *failures as u64);
                push_str(&mut r, " failures");
                r
            },
            AutoCompactError::NotEnoughMessages => copy_str("Not enough messages to compact"),
        }
    }
}

} // verus!
