//! Conversation messages as the compaction stages read them.
//!
//! A message has a role and either text or a list of content blocks; each
//! block is text, a tool call or a tool result.  What a stage does not read is
//! not kept here.
use vstd::prelude::*;
use crate::text::{byte_len, byte_prefix, copy_str, fits, is_boundary, prefix_bytes, push_str, utf8_len};

verus! {

/// One content block.
#[derive(Debug)]
pub enum Block {
    /// A text block (`None` when it holds no text string).
    Text { text: Option<String> },
    /// A tool call: the tool's name and the `path` of its input, when present.
    ToolUse { name: Option<String>, path: Option<String> },
    /// A tool's result (`None` when it holds no text string).
    ToolResult { content: Option<String> },
    /// Any other block.
    Other,
}

/// What a message holds.
#[derive(Debug)]
pub enum Content {
    Text(String),
    Blocks(Vec<Block>),
    Other,
}

/// A conversation message.
#[derive(Debug)]
pub struct Message {
    pub role: Option<String>,
    pub content: Content,
}

/// What a block holds.
pub enum BlockView {
    Text(Option<Seq<char>>),
    ToolUse(Option<Seq<char>>, Option<Seq<char>>),
    ToolResult(Option<Seq<char>>),
    Other,
}

/// What a message's content holds.
pub enum ContentView {
    Text(Seq<char>),
    Blocks(Seq<BlockView>),
    Other,
}

/// The view of an optional string.
pub open spec fn opt_view(o: Option<String>) -> Option<Seq<char>> {
    match o {
        Some(s) => Some(s@),
        None => None,
    }
}

impl View for Block {
    type V = BlockView;

    open spec fn view(&self) -> BlockView {
        match self {
            Block::Text { text } => BlockView::Text(opt_view(*text)),
            Block::ToolUse { name, path } => BlockView::ToolUse(opt_view(*name), opt_view(*path)),
            Block::ToolResult { content } => BlockView::ToolResult(opt_view(*content)),
            Block::Other => BlockView::Other,
        }
    }
}

impl View for Content {
    type V = ContentView;

    open spec fn view(&self) -> ContentView {
        match self {
            Content::Text(t) => ContentView::Text(t@),
            Content::Blocks(bs) => ContentView::Blocks(bs@.map_values(|b: Block| b@)),
            Content::Other => ContentView::Other,
        }
    }
}

impl View for Message {
    type V = (Option<Seq<char>>, ContentView);

    open spec fn view(&self) -> (Option<Seq<char>>, ContentView) {
        (opt_view(self.role), self.content@)
    }
}

/// The views of messages.
pub open spec fn messages_view(ms: Seq<Message>) -> Seq<(Option<Seq<char>>, ContentView)> {
    ms.map_values(|m: Message| m@)
}

/// A copy of a block.
pub fn copy_block(b: &Block) -> (r: Block)
    ensures
        r@ == b@,
{
    match b {
        Block::Text { text } => Block::Text { text: copy_opt(text) },
        Block::ToolUse { name, path } => Block::ToolUse { name: copy_opt(name), path: copy_opt(path) },
        Block::ToolResult { content } => Block::ToolResult { content: copy_opt(content) },
        Block::Other => Block::Other,
    }
}

/// A copy of a message.
pub fn copy_message(m: &Message) -> (r: Message)
    ensures
        r@ == m@,
{
    let content = match &m.content {
        Content::Text(t) => Content::Text(copy_str(t.as_str())),
        Content::Blocks(bs) => {
            let mut out: Vec<Block> = Vec::new();
            let mut k: usize = 0;
            while k < bs.len()
                invariant
                    k <= bs.len(),
                    out@.map_values(|b: Block| b@) == bs@.take(k as int).map_values(|b: Block| b@),
                decreases bs.len() - k,
            {
                let b = copy_block(&bs[k]);
                let ghost before = out@.map_values(|b: Block| b@);
                out.push(b);
                proof {
                    assert(out@.map_values(|b: Block| b@) =~= before.push(bs@[k as int]@));
                    assert(bs@.take(k + 1).map_values(|b: Block| b@) =~= bs@.take(k as int).map_values(|b: Block| b@).push(bs@[k as int]@));
                }
                k = k + 1;
            }
            assert(bs@.take(k as int) =~= bs@);
            Content::Blocks(out)
        },
        Content::Other => Content::Other,
    };
    Message { role: copy_opt(&m.role), content }
}

/// A string, or `d` when absent.
pub open spec fn text_or(o: Option<String>, d: Seq<char>) -> Seq<char> {
    match o {
        Some(s) => s@,
        None => d,
    }
}

/// The role is `r`.
pub open spec fn has_role(m: Message, r: Seq<char>) -> bool {
    m.role matches Some(x) && x@ == r
}

/// The first `n` bytes of `s` and "..." when `s` is longer, else `s`.
pub open spec fn preview(s: Seq<char>, n: nat) -> Seq<char> {
    if utf8_len(s) > n {
        byte_prefix(s, n as int) + "..."@
    } else {
        s
    }
}

/// Cutting `s` at `n` bytes does not split a character.
pub open spec fn preview_ok(s: Seq<char>, n: nat) -> bool {
    fits(s) && (utf8_len(s) > n ==> is_boundary(s, n as int))
}

/// `preview(s, n)`.
pub fn preview_exec(s: &str, n: usize) -> (r: String)
    requires
        preview_ok(s@, n as nat),
    ensures
        r@ == preview(s@, n as nat),
{
    if byte_len(s) > n {
        let mut r = prefix_bytes(s, n);
        push_str(&mut r, "...");
        r
    } else {
        copy_str(s)
    }
}

/// A copy of an optional string.
pub fn copy_opt(o: &Option<String>) -> (r: Option<String>)
    ensures
        opt_view(r) == opt_view(*o),
{
    match o {
        Some(s) => Some(copy_str(s.as_str())),
        None => None,
    }
}

/// `o` is `Some(t)`.
pub fn opt_is(o: &Option<String>, t: &str) -> (b: bool)
    ensures
        b == (o matches Some(s) && s@ == t@),
{
    match o {
        Some(s) => crate::text::str_eq(s.as_str(), t),
        None => false,
    }
}

} // verus!
