//! FullCompact: the emergency stage — the whole conversation replaced by a
//! summary, with the files most recently read or written put back.
use vstd::prelude::*;
use crate::context::auto_compact::{or_text, MessageView};
use crate::context::messages::{
    messages_view, opt_is, preview, preview_exec, preview_ok, Block, BlockView, Content, ContentView,
    Message,
};
use crate::text::{
    byte_len, byte_prefix, copy_str, decimal, fits, is_boundary, prefix_bytes, push_decimal, push_str,
    str_eq, utf8_len,
};

verus! {

/// Settings of FullCompact.
#[derive(Debug)]
pub struct FullCompact {
    pub max_file_reinjection_tokens: usize,
    pub max_reinjected_files: usize,
    pub post_compact_budget_tokens: usize,
}

/// What a block contributes to the condensed conversation.
pub open spec fn condensed_block(role: Seq<char>, b: BlockView) -> Seq<char> {
    match b {
        BlockView::Text(t) => "["@ + role + "]: "@ + preview(or_text(t, Seq::empty()), 300) + "\n"@,
        BlockView::ToolUse(name, _) => "[tool_call: "@ + or_text(name, "?"@) + "]\n"@,
        BlockView::ToolResult(c) => "[tool_result]: "@ + preview(or_text(c, Seq::empty()), 100) + "\n"@,
        BlockView::Other => Seq::empty(),
    }
}

/// What blocks contribute.
pub open spec fn condensed_blocks(role: Seq<char>, bs: Seq<BlockView>) -> Seq<char>
    decreases bs.len(),
{
    if bs.len() == 0 {
        Seq::empty()
    } else {
        condensed_blocks(role, bs.drop_last()) + condensed_block(role, bs.last())
    }
}

/// What a message contributes.
pub open spec fn condensed_message(m: MessageView) -> Seq<char> {
    let role = or_text(m.0, "?"@);
    match m.1 {
        ContentView::Text(t) => "["@ + role + "]: "@ + preview(t, 500) + "\n"@,
        ContentView::Blocks(bs) => condensed_blocks(role, bs),
        ContentView::Other => Seq::empty(),
    }
}

/// The condensed conversation.
pub open spec fn condensed(ms: Seq<MessageView>) -> Seq<char>
    decreases ms.len(),
{
    if ms.len() == 0 {
        Seq::empty()
    } else {
        condensed(ms.drop_last()) + condensed_message(ms.last())
    }
}

/// The emergency summary request.
pub open spec fn emergency_request(ms: Seq<MessageView>) -> Seq<char> {
    "Perform EMERGENCY context compression. Produce a comprehensive summary that preserves ALL critical info.\nInclude:\n1. Original user request\n2. Every file path read/written\n3. All code changes made\n4. All errors and resolutions\n5. Current task status\n\nConversation: --- "@
        + condensed(ms) + " ---\nProduce the emergency summary now:"@
}

/// Condensing a block does not split a character.
pub open spec fn condensed_block_ok(b: BlockView) -> bool {
    match b {
        BlockView::Text(t) => preview_ok(or_text(t, Seq::empty()), 300),
        BlockView::ToolResult(c) => preview_ok(or_text(c, Seq::empty()), 100),
        _ => true,
    }
}

/// Condensing a message does not split a character.
pub open spec fn condensed_message_ok(m: MessageView) -> bool {
    match m.1 {
        ContentView::Text(t) => preview_ok(t, 500),
        ContentView::Blocks(bs) => forall|j: int| 0 <= j < bs.len() ==> condensed_block_ok(#[trigger] bs[j]),
        ContentView::Other => true,
    }
}

/// The files a message read or wrote, in block order.
pub open spec fn touched_files(m: MessageView) -> Seq<Seq<char>> {
    match m.1 {
        ContentView::Blocks(bs) => touched_in_blocks(bs),
        _ => Seq::empty(),
    }
}

/// The files read or written by the tool calls among the blocks.
pub open spec fn touched_in_blocks(bs: Seq<BlockView>) -> Seq<Seq<char>>
    decreases bs.len(),
{
    if bs.len() == 0 {
        Seq::empty()
    } else {
        touched_in_blocks(bs.drop_last()) + match bs.last() {
            BlockView::ToolUse(Some(n), Some(p)) => if n == "FileRead"@ || n == "FileWrite"@ {
                seq![p]
            } else {
                Seq::empty()
            },
            _ => Seq::empty(),
        }
    }
}

/// The files touched, newest message first.
pub open spec fn touched_newest_first(ms: Seq<MessageView>) -> Seq<Seq<char>>
    decreases ms.len(),
{
    if ms.len() == 0 {
        Seq::empty()
    } else {
        touched_files(ms.last()) + touched_newest_first(ms.drop_last())
    }
}

/// Each element once, at its first place.
pub open spec fn first_occurrences(s: Seq<Seq<char>>) -> Seq<Seq<char>>
    decreases s.len(),
{
    if s.len() == 0 {
        Seq::empty()
    } else if s.drop_last().contains(s.last()) {
        first_occurrences(s.drop_last())
    } else {
        first_occurrences(s.drop_last()).push(s.last())
    }
}

/// The text put back for a file: the file, cut to the token budget when over it.
pub open spec fn reinjected_text(path: Seq<char>, content: Seq<char>, max_tokens: nat) -> Seq<char> {
    "[Re-injected file: "@ + path + "]\n\n"@ + if utf8_len(content) / 4 > max_tokens {
        byte_prefix(content, (max_tokens * 4) as int) + "\n... [truncated at "@ + decimal(max_tokens)
            + " tokens]"@
    } else {
        content
    }
}

/// The compaction header put before the summary.
pub open spec fn compaction_header(summary: Seq<char>) -> Seq<char> {
    "[CONTEXT COMPACTION: The conversation history has been compressed. Below is a structured summary of everything that happened.]\n\n"@
        + summary
}

/// The acknowledgement after the compaction header.
pub open spec fn resume_text() -> Seq<char> {
    "I understand. I've reviewed the compressed context and I'm ready to continue where we left off."@
}

/// The tokens counted for a re-injected file: its bytes over four, at most
/// the per-file budget.
pub open spec fn counted_tokens(content: Seq<char>, max_tokens: nat) -> nat {
    if utf8_len(content) / 4 < max_tokens {
        utf8_len(content) / 4
    } else {
        max_tokens
    }
}

/// Re-injecting the first `n` of the candidate files (each with its content
/// when it could be read): the messages added, the files put back, and the
/// tokens counted. A file is put back while fewer tokens than the whole
/// budget (per-file budget times the number of files) have been counted.
pub open spec fn reinjected(files: Seq<(Seq<char>, Option<Seq<char>>)>, n: int, max_tokens: nat, max_files: nat)
    -> (Seq<(Option<Seq<char>>, ContentView)>, Seq<Seq<char>>, nat)
    decreases n,
{
    if n <= 0 {
        (Seq::empty(), Seq::empty(), 0)
    } else {
        let (ms, fs, t) = reinjected(files, n - 1, max_tokens, max_files);
        let (path, content) = files[n - 1];
        match content {
            Some(c) => if t < max_tokens * max_files {
                (
                    ms.push((Some("user"@), ContentView::Text(reinjected_text(path, c, max_tokens)))).push(
                        (Some("assistant"@), ContentView::Text("Noted: I've re-read "@ + path + "."@)),
                    ),
                    fs.push(path),
                    t + counted_tokens(c, max_tokens),
                )
            } else {
                (ms, fs, t)
            },
            None => (ms, fs, t),
        }
    }
}

/// The view of a candidate file.
pub open spec fn file_view(f: (String, Option<String>)) -> (Seq<char>, Option<Seq<char>>) {
    (f.0@, match f.1 {
        Some(c) => Some(c@),
        None => None,
    })
}

/// Every readable candidate can be cut at the per-file budget.
pub open spec fn files_cut_ok(files: Seq<(String, Option<String>)>, max_tokens: nat) -> bool {
    forall|k: int|
        0 <= k < files.len() ==> match (#[trigger] files[k]).1 {
            Some(c) => fits(c@) && (utf8_len(c@) / 4 > max_tokens ==> is_boundary(c@, (max_tokens * 4) as int)),
            None => true,
        }
}

proof fn lemma_reinjected_tokens(files: Seq<(Seq<char>, Option<Seq<char>>)>, n: int, max_tokens: nat, max_files: nat)
    ensures
        reinjected(files, n, max_tokens, max_files).2 <= max_tokens * max_files + max_tokens,
    decreases n,
{
    if n > 0 {
        lemma_reinjected_tokens(files, n - 1, max_tokens, max_files);
    }
}

/// The tokens a compaction counts for serialized messages: a quarter of each
/// message's bytes, rounded down, plus four.
pub open spec fn compaction_tokens(ms: Seq<Seq<char>>) -> nat
    decreases ms.len(),
{
    if ms.len() == 0 {
        0
    } else {
        compaction_tokens(ms.drop_last()) + utf8_len(ms.last()) / 4 + 4
    }
}

proof fn lemma_compaction_tokens_prefix(ms: Seq<Seq<char>>, k: int)
    requires
        0 <= k <= ms.len(),
    ensures
        compaction_tokens(ms.take(k)) <= compaction_tokens(ms),
    decreases ms.len() - k,
{
    if k < ms.len() {
        lemma_compaction_tokens_prefix(ms, k + 1);
        assert(ms.take(k + 1).drop_last() =~= ms.take(k));
    } else {
        assert(ms.take(k) =~= ms);
    }
}

impl FullCompact {
    /// The tokens of serialized messages as a compaction counts them (its
    /// tokens before, over the conversation, and after, over the compacted
    /// one): a quarter of each message's bytes plus four.
    pub fn message_tokens(serialized: &Vec<String>) -> (r: usize)
        requires
            forall|k: int| 0 <= k < serialized.len() ==> fits(#[trigger] serialized@[k]@),
            compaction_tokens(serialized.deep_view()) <= usize::MAX,
        ensures
            r == compaction_tokens(serialized.deep_view()),
    {
        let mut total: usize = 0;
        let mut i: usize = 0;
        while i < serialized.len()
            invariant
                i <= serialized.len(),
                forall|k: int| 0 <= k < serialized.len() ==> fits(#[trigger] serialized@[k]@),
                compaction_tokens(serialized.deep_view()) <= usize::MAX,
                total == compaction_tokens(serialized.deep_view().take(i as int)),
            decreases serialized.len() - i,
        {
            proof {
                assert(serialized.deep_view().take(i + 1).drop_last() =~= serialized.deep_view().take(i as int));
                lemma_compaction_tokens_prefix(serialized.deep_view(), i + 1);
            }
            let n = byte_len(serialized[i].as_str());
            total = total + n / 4 + 4;
            i = i + 1;
        }
        assert(serialized.deep_view().take(i as int) =~= serialized.deep_view());
        total
    }

    /// Up to 5 files put back, of at most 5000 tokens each, within a 50000-token budget.
    pub fn new() -> (r: Self)
        ensures
            r.max_file_reinjection_tokens == 5_000,
            r.max_reinjected_files == 5,
            r.post_compact_budget_tokens == 50_000,
    {
        FullCompact { max_file_reinjection_tokens: 5_000, max_reinjected_files: 5, post_compact_budget_tokens: 50_000 }
    }

    fn push_condensed_block(out: &mut String, role: &str, b: &Block)
        requires
            condensed_block_ok(b@),
        ensures
            final(out)@ == old(out)@ + condensed_block(role@, b@),
    {
        proof {
            assert(utf8_len(Seq::<char>::empty()) == 0);
        }
        match b {
            Block::Text { text } => {
                push_str(out, "[");
                push_str(out, role);
                push_str(out, "]: ");
                let p = match text {
                    Some(t) => preview_exec(t.as_str(), 300),
                    None => String::new(),
                };
                push_str(out, p.as_str());
                push_str(out, "\n");
            },
            Block::ToolUse { name, .. } => {
                push_str(out, "[tool_call: ");
                match name {
                    Some(n) => push_str(out, n.as_str()),
                    None => push_str(out, "?"),
                }
                push_str(out, "]\n");
            },
            Block::ToolResult { content } => {
                push_str(out, "[tool_result]: ");
                let p = match content {
                    Some(c) => preview_exec(c.as_str(), 100),
                    None => String::new(),
                };
                push_str(out, p.as_str());
                push_str(out, "\n");
            },
            Block::Other => {
                assert(old(out)@ + condensed_block(role@, b@) =~= old(out)@);
            },
        }
    }

    /// The emergency summary request for the whole conversation.
    pub fn build_emergency_prompt(messages: &Vec<Message>) -> (r: String)
        requires
            forall|i: int| 0 <= i < messages.len() ==> condensed_message_ok(#[trigger] messages@[i]@),
        ensures
            r@ == emergency_request(messages_view(messages@)),
    {
        let ghost mv = messages_view(messages@);
        let mut out = copy_str("Perform EMERGENCY context compression. Produce a comprehensive summary that preserves ALL critical info.\nInclude:\n1. Original user request\n2. Every file path read/written\n3. All code changes made\n4. All errors and resolutions\n5. Current task status\n\nConversation: --- ");
        let ghost head = out@;
        let mut i: usize = 0;
        proof {
            assert(mv.take(0) =~= Seq::<MessageView>::empty());
            assert(out@ =~= head + condensed(mv.take(0)));
        }
        while i < messages.len()
            invariant
                mv == messages_view(messages@),
                forall|q: int| 0 <= q < messages.len() ==> condensed_message_ok(#[trigger] messages@[q]@),
                i <= messages.len(),
                out@ == head + condensed(mv.take(i as int)),
            decreases messages.len() - i,
        {
            let m = &messages[i];
            let ghost before = out@;
            let role: &str = match &m.role {
                Some(r) => r.as_str(),
                None => "?",
            };
            proof {
                assert(mv[i as int] == m@);
                assert(condensed_message_ok(m@));
            }
            match &m.content {
                Content::Text(t) => {
                    push_str(&mut out, "[");
                    push_str(&mut out, role);
                    push_str(&mut out, "]: ");
                    let p = preview_exec(t.as_str(), 500);
                    push_str(&mut out, p.as_str());
                    push_str(&mut out, "\n");
                },
                Content::Blocks(bs) => {
                    let ghost bv = bs@.map_values(|b: Block| b@);
                    let mut j: usize = 0;
                    proof {
                        assert(bv.take(0) =~= Seq::<BlockView>::empty());
                        assert(out@ =~= before + condensed_blocks(role@, bv.take(0)));
                        assert(m@.1 == ContentView::Blocks(bv));
                        assert(condensed_message_ok(m@));
                        let bs_v = m@.1->Blocks_0;
                        assert(bs_v == bv);
                        assert(forall|q: int| 0 <= q < bs_v.len() ==> condensed_block_ok(#[trigger] bs_v[q]));
                    }
                    while j < bs.len()
                        invariant
                            bv == bs@.map_values(|b: Block| b@),
                            forall|q: int| 0 <= q < bv.len() ==> condensed_block_ok(#[trigger] bv[q]),
                            j <= bs.len(),
                            out@ == before + condensed_blocks(role@, bv.take(j as int)),
                        decreases bs.len() - j,
                    {
                        proof {
                            assert(bv[j as int] == bs@[j as int]@);
                            assert(condensed_block_ok(bv[j as int]));
                            assert(bv.take(j + 1).drop_last() =~= bv.take(j as int));
                            assert(bv.take(j + 1).last() == bv[j as int]);
                        }
                        Self::push_condensed_block(&mut out, role, &bs[j]);
                        j = j + 1;
                    }
                    proof {
                        assert(bv.take(j as int) =~= bv);
                    }
                },
                Content::Other => {},
            }
            proof {
                assert(mv.take(i + 1).drop_last() =~= mv.take(i as int));
                assert(mv.take(i + 1).last() == mv[i as int]);
                assert(out@ =~= head + condensed(mv.take(i + 1)));
            }
            i = i + 1;
        }
        push_str(&mut out, " ---\nProduce the emergency summary now:");
        proof {
            assert(mv.take(i as int) =~= mv);
        }
        out
    }

    /// The files read or written in the conversation, newest first, each once.
    pub fn extract_recent_files(messages: &Vec<Message>) -> (r: Vec<String>)
        ensures
            r.deep_view() == first_occurrences(touched_newest_first(messages_view(messages@))),
    {
        let ghost mv = messages_view(messages@);
        let mut out: Vec<String> = Vec::new();
        let ghost mut cands: Seq<Seq<char>> = Seq::empty();
        let mut i = messages.len();
        proof {
            assert(mv.take(i as int) =~= mv);
        }
        while i > 0
            invariant
                mv == messages_view(messages@),
                i <= messages.len(),
                cands + touched_newest_first(mv.take(i as int)) == touched_newest_first(mv),
                out.deep_view() == first_occurrences(cands),
            decreases i,
        {
            let m = &messages[i - 1];
            proof {
                assert(mv[i - 1] == m@);
                let t = mv.take(i as int);
                assert(t.last() == mv[i - 1]);
                assert(t.drop_last() =~= mv.take(i - 1));
            }
            match &m.content {
                Content::Blocks(bs) => {
                    let ghost bv = bs@.map_values(|b: Block| b@);
                    let ghost start = cands;
                    let mut j: usize = 0;
                    proof {
                        assert(bv.take(0) =~= Seq::<BlockView>::empty());
                        assert(start + touched_in_blocks(bv.take(0)) =~= start);
                    }
                    while j < bs.len()
                        invariant
                            bv == bs@.map_values(|b: Block| b@),
                            j <= bs.len(),
                            cands == start + touched_in_blocks(bv.take(j as int)),
                            out.deep_view() == first_occurrences(cands),
                        decreases bs.len() - j,
                    {
                        proof {
                            assert(bv[j as int] == bs@[j as int]@);
                            assert(bv.take(j + 1).drop_last() =~= bv.take(j as int));
                            assert(bv.take(j + 1).last() == bv[j as int]);
                        }
                        match &bs[j] {
                            Block::ToolUse { name: Some(n), path: Some(p) } => {
                                if str_eq(n.as_str(), "FileRead") || str_eq(n.as_str(), "FileWrite") {
                                    let seen = contains_string(&out, p);
                                    proof {
                                        lemma_first_occurrences_set(cands);
                                    }
                                    let ghost before = cands;
                                    proof {
                                        cands = cands.push(p@);
                                        assert(cands.drop_last() =~= before);
                                        assert(start + touched_in_blocks(bv.take(j + 1)) =~= cands);
                                    }
                                    if !seen {
                                        let ghost ob = out.deep_view();
                                        let c = copy_str(p.as_str());
                                        out.push(c);
                                        proof {
                                            assert(out.deep_view() =~= ob.push(c@));
                                        }
                                    }
                                } else {
                                    proof {
                                        assert(start + touched_in_blocks(bv.take(j + 1)) =~= cands);
                                    }
                                }
                            },
                            _ => {
                                proof {
                                    assert(start + touched_in_blocks(bv.take(j + 1)) =~= cands);
                                }
                            },
                        }
                        j = j + 1;
                    }
                    proof {
                        assert(bv.take(j as int) =~= bv);
                        assert(touched_files(mv[i - 1]) == touched_in_blocks(bv));
                    }
                },
                _ => {
                    proof {
                        assert(touched_files(mv[i - 1]) =~= Seq::<Seq<char>>::empty());
                    }
                },
            }
            proof {
                assert(cands + touched_newest_first(mv.take(i - 1)) =~= touched_newest_first(mv)) by {
                    let prev = cands.subrange(0, cands.len() - touched_files(mv[i - 1]).len());
                    assert(touched_newest_first(mv.take(i as int)) == touched_files(mv[i - 1]) + touched_newest_first(mv.take(i - 1)));
                }
            }
            i = i - 1;
        }
        proof {
            assert(mv.take(0) =~= Seq::<MessageView>::empty());
            assert(cands + Seq::<Seq<char>>::empty() =~= cands);
        }
        out
    }

    /// The message that puts a file back, and the tokens counted for it (at
    /// most the per-file budget).
    pub fn reinjection(&self, path: &str, content: &str) -> (r: (String, usize))
        requires
            fits(content@),
            self.max_file_reinjection_tokens * 4 <= usize::MAX,
            utf8_len(content@) / 4 > self.max_file_reinjection_tokens ==> is_boundary(
                content@,
                (self.max_file_reinjection_tokens * 4) as int,
            ),
        ensures
            r.0@ == reinjected_text(path@, content@, self.max_file_reinjection_tokens as nat),
            r.1 == if utf8_len(content@) / 4 < self.max_file_reinjection_tokens {
                utf8_len(content@) / 4
            } else {
                self.max_file_reinjection_tokens as nat
            },
    {
        let tokens = byte_len(content) / 4;
        let mut r = copy_str("[Re-injected file: ");
        push_str(&mut r, path);
        push_str(&mut r, "]\n\n");
        if tokens > self.max_file_reinjection_tokens {
            let p = prefix_bytes(content, self.max_file_reinjection_tokens * 4);
            push_str(&mut r, p.as_str());
            push_str(&mut r, "\n... [truncated at ");
            push_decimal(&mut r, self.max_file_reinjection_tokens as u64);
            push_str(&mut r, " tokens]");
        } else {
            push_str(&mut r, content);
        }
        let counted = if tokens < self.max_file_reinjection_tokens {
            tokens
        } else {
            self.max_file_reinjection_tokens
        };
        (r, counted)
    }

    /// The conversation after compaction: the summary under its header, the
    /// acknowledgement, then each recent file put back (a message with its
    /// content, cut at the per-file budget, and an acknowledgement), among the
    /// first `max_reinjected_files` candidates, while the budget allows; and
    /// the files put back.
    pub fn assemble(&self, summary: &str, files: &Vec<(String, Option<String>)>) -> (r: (Vec<Message>, Vec<String>))
        requires
            files_cut_ok(files@, self.max_file_reinjection_tokens as nat),
            self.max_file_reinjection_tokens * (self.max_reinjected_files + 1) <= usize::MAX,
            self.max_file_reinjection_tokens * 4 <= usize::MAX,
        ensures
            ({
                let n = if files.len() <= self.max_reinjected_files { files.len() as int } else { self.max_reinjected_files as int };
                let re = reinjected(
                    files@.map_values(|f: (String, Option<String>)| file_view(f)),
                    n,
                    self.max_file_reinjection_tokens as nat,
                    self.max_reinjected_files as nat,
                );
                &&& messages_view(r.0@) == seq![
                    (Some("user"@), ContentView::Text(compaction_header(summary@))),
                    (Some("assistant"@), ContentView::Text(resume_text())),
                ] + re.0
                &&& r.1.deep_view() == re.1
            }),
    {
        let ghost fv = files@.map_values(|f: (String, Option<String>)| file_view(f));
        let ghost mt = self.max_file_reinjection_tokens as nat;
        let ghost mf = self.max_reinjected_files as nat;
        let mut out: Vec<Message> = Vec::new();
        out.push(Message { role: Some(copy_str("user")), content: Content::Text(Self::compaction_message(summary)) });
        out.push(
            Message {
                role: Some(copy_str("assistant")),
                content: Content::Text(
                    copy_str("I understand. I've reviewed the compressed context and I'm ready to continue where we left off."),
                ),
            },
        );
        let ghost head = seq![
            (Some("user"@), ContentView::Text(compaction_header(summary@))),
            (Some("assistant"@), ContentView::Text(resume_text())),
        ];
        assert(messages_view(out@) =~= head);
        assert(self.max_file_reinjection_tokens * self.max_reinjected_files <= self.max_file_reinjection_tokens * (
            self.max_reinjected_files + 1)) by (nonlinear_arith);
        let budget = self.max_file_reinjection_tokens * self.max_reinjected_files;
        let n: usize = if files.len() <= self.max_reinjected_files {
            files.len()
        } else {
            self.max_reinjected_files
        };
        let mut put_back: Vec<String> = Vec::new();
        let mut tokens: usize = 0;
        let mut k: usize = 0;
        while k < n
            invariant
                k <= n <= files.len(),
                fv == files@.map_values(|f: (String, Option<String>)| file_view(f)),
                mt == self.max_file_reinjection_tokens,
                mf == self.max_reinjected_files,
                budget == mt * mf,
                files_cut_ok(files@, mt),
                self.max_file_reinjection_tokens * (self.max_reinjected_files + 1) <= usize::MAX,
                self.max_file_reinjection_tokens * 4 <= usize::MAX,
                messages_view(out@) == head + reinjected(fv, k as int, mt, mf).0,
                put_back.deep_view() == reinjected(fv, k as int, mt, mf).1,
                tokens == reinjected(fv, k as int, mt, mf).2,
            decreases n - k,
        {
            proof {
                lemma_reinjected_tokens(fv, k as int, mt, mf);
                assert(fv[k as int] == file_view(files@[k as int]));
                assert(files_cut_ok(files@, mt));
                let _ = files@[k as int];
            }
            let (path, content) = (&files[k].0, &files[k].1);
            match content {
                Some(c) => {
                    if tokens < budget {
                        proof {
                            assert(match (files@[k as int]).1 {
                                Some(c) => fits(c@) && (utf8_len(c@) / 4 > mt ==> is_boundary(c@, (mt * 4) as int)),
                                None => true,
                            });
                        }
                        let (text, counted) = self.reinjection(path.as_str(), c.as_str());
                        let ghost before = messages_view(out@);
                        out.push(Message { role: Some(copy_str("user")), content: Content::Text(text) });
                        let mut ack = copy_str("Noted: I've re-read ");
                        push_str(&mut ack, path.as_str());
                        push_str(&mut ack, ".");
                        out.push(Message { role: Some(copy_str("assistant")), content: Content::Text(ack) });
                        let ghost pb = put_back.deep_view();
                        put_back.push(copy_str(path.as_str()));
                        proof {
                            assert(put_back.deep_view() =~= pb.push(path@));
                            assert(messages_view(out@) =~= before.push(
                                (Some("user"@), ContentView::Text(reinjected_text(path@, c@, mt))),
                            ).push((Some("assistant"@), ContentView::Text("Noted: I've re-read "@ + path@ + "."@))));
                            assert(counted == counted_tokens(c@, mt));
                            assert(tokens + counted <= mt * mf + mt);
                            assert(mt * mf + mt == mt * (mf + 1)) by (nonlinear_arith);
                        }
                        tokens = tokens + counted;
                    }
                },
                None => {},
            }
            k = k + 1;
        }
        (out, put_back)
    }

    /// The first message after compaction: the header and the summary.
    pub fn compaction_message(summary: &str) -> (r: String)
        ensures
            r@ == compaction_header(summary@),
    {
        let mut r = copy_str("[CONTEXT COMPACTION: The conversation history has been compressed. Below is a structured summary of everything that happened.]\n\n");
        push_str(&mut r, summary);
        r
    }
}

/// Whether `v` holds `s`.
fn contains_string(v: &Vec<String>, s: &String) -> (b: bool)
    ensures
        b == v.deep_view().contains(s@),
{
    let mut k: usize = 0;
    while k < v.len()
        invariant
            k <= v.len(),
            forall|q: int| 0 <= q < k ==> v.deep_view()[q] != s@,
        decreases v.len() - k,
    {
        if str_eq(v[k].as_str(), s.as_str()) {
            assert(v.deep_view()[k as int] == s@);
            return true;
        }
        k = k + 1;
    }
    false
}

/// The first occurrences hold what the sequence holds.
proof fn lemma_first_occurrences_set(s: Seq<Seq<char>>)
    ensures
        forall|x: Seq<char>| first_occurrences(s).contains(x) <==> s.contains(x),
    decreases s.len(),
{
    if s.len() > 0 {
        let t = s.drop_last();
        lemma_first_occurrences_set(t);
        let f = first_occurrences(s);
        let d = first_occurrences(t);
        assert forall|x: Seq<char>| f.contains(x) <==> s.contains(x) by {
            assert(d.contains(x) <==> t.contains(x));
            if s.contains(x) {
                let k = choose|k: int| 0 <= k < s.len() && s[k] == x;
                if k < s.len() - 1 {
                    assert(t[k] == x);
                    assert(t.contains(x));
                    let q = choose|q: int| 0 <= q < d.len() && d[q] == x;
                    if t.contains(s.last()) {
                        assert(f == d);
                    } else {
                        assert(f == d.push(s.last()));
                        assert(f[q] == x);
                    }
                } else if t.contains(s.last()) {
                    assert(x == s.last());
                    assert(f == d);
                    assert(d.contains(x));
                } else {
                    assert(f == d.push(s.last()));
                    assert(f[f.len() - 1] == x);
                }
            }
            if f.contains(x) {
                let q = choose|q: int| 0 <= q < f.len() && f[q] == x;
                if t.contains(s.last()) {
                    assert(f == d);
                    assert(d.contains(x));
                    assert(t.contains(x));
                    let k = choose|k: int| 0 <= k < t.len() && t[k] == x;
                    assert(s[k] == x);
                } else if q < d.len() {
                    assert(f == d.push(s.last()));
                    assert(d[q] == x);
                    assert(d.contains(x));
                    assert(t.contains(x));
                    let k = choose|k: int| 0 <= k < t.len() && t[k] == x;
                    assert(s[k] == x);
                } else {
                    assert(f == d.push(s.last()));
                    assert(x == s.last());
                    assert(s[s.len() - 1] == x);
                }
            }
        }
    }
}

} // verus!
