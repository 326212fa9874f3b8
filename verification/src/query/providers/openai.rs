//! The OpenAI provider: Anthropic-style conversations in OpenAI's chat format,
//! and OpenAI's replies back in the Anthropic-style form.
//!
//! JSON values the conversion only moves are kept as their JSON text (`null`
//! for a missing field); the caller encodes and decodes them.
use vstd::prelude::*;
use crate::text::{concat2, contains, contains_vec, chars_of, copy_str, str_eq};

verus! {

/// An OpenAI-compatible endpoint and the model asked.
#[derive(Debug)]
pub struct OpenAIProvider {
    api_key: String,
    model: String,
    base_url: String,
}

/// One content block of an Anthropic-style message.
#[derive(Debug)]
pub struct ChatBlock {
    /// `type`, when it is a string.
    pub block_type: Option<String>,
    /// The JSON text of `text`, `id`, `name`, `input`, `tool_use_id` and
    /// `content`.
    pub text: String,
    pub id: String,
    pub name: String,
    pub input: String,
    pub tool_use_id: String,
    pub content: String,
}

/// What an Anthropic-style message holds.
#[derive(Debug)]
pub enum ChatContent {
    Text(String),
    Blocks(Vec<ChatBlock>),
    Other,
}

/// An Anthropic-style message.
#[derive(Debug)]
pub struct ChatMessage {
    /// `role`, when it is a string.
    pub role: Option<String>,
    pub content: ChatContent,
}

/// The content of an OpenAI chat message: a string, or a JSON value given by
/// its text.
#[derive(Debug)]
pub enum OaiContent {
    Str(String),
    Json(String),
}

/// One OpenAI chat message.
#[derive(Debug)]
pub enum OaiMessage {
    /// `{"role": role, "content": content}`.
    Chat { role: String, content: OaiContent },
    /// `{"role": "assistant", "tool_calls": [{"id": id, "type": "function",
    /// "function": {"name": name, "arguments": arguments}}]}`.
    ToolCall { id: String, name: String, arguments: String },
    /// `{"role": "tool", "tool_call_id": tool_call_id, "content": content}`.
    ToolResult { tool_call_id: String, content: String },
}

/// What a chat message is, by its parts.
pub enum OaiView {
    Chat(Seq<char>, bool, Seq<char>),
    ToolCall(Seq<char>, Seq<char>, Seq<char>),
    ToolResult(Seq<char>, Seq<char>),
}

pub open spec fn oai_view(m: OaiMessage) -> OaiView {
    match m {
        OaiMessage::Chat { role, content } => match content {
            OaiContent::Str(s) => OaiView::Chat(role@, true, s@),
            OaiContent::Json(j) => OaiView::Chat(role@, false, j@),
        },
        OaiMessage::ToolCall { id, name, arguments } => OaiView::ToolCall(id@, name@, arguments@),
        OaiMessage::ToolResult { tool_call_id, content } => OaiView::ToolResult(tool_call_id@, content@),
    }
}

/// The role a message speaks with ("user" when it names none).
pub open spec fn role_of(m: ChatMessage) -> Seq<char> {
    match m.role {
        Some(r) => r@,
        None => "user"@,
    }
}

/// The chat message a block becomes: text in the message's role, a tool call
/// by the assistant (its input as JSON text), a tool's result; nothing for
/// other blocks.
pub open spec fn block_oai(role: Seq<char>, b: ChatBlock) -> Seq<OaiView> {
    match b.block_type {
        Some(t) => if t@ == "text"@ {
            seq![OaiView::Chat(role, false, b.text@)]
        } else if t@ == "tool_use"@ {
            seq![OaiView::ToolCall(b.id@, b.name@, b.input@)]
        } else if t@ == "tool_result"@ {
            seq![OaiView::ToolResult(b.tool_use_id@, b.content@)]
        } else {
            Seq::empty()
        },
        None => Seq::empty(),
    }
}

/// The chat messages the blocks become, in order.
pub open spec fn blocks_oai(role: Seq<char>, bs: Seq<ChatBlock>) -> Seq<OaiView>
    decreases bs.len(),
{
    if bs.len() == 0 {
        Seq::empty()
    } else {
        blocks_oai(role, bs.drop_last()) + block_oai(role, bs.last())
    }
}

/// The chat messages a message becomes.
pub open spec fn message_oai(m: ChatMessage) -> Seq<OaiView> {
    match m.content {
        ChatContent::Text(t) => seq![OaiView::Chat(role_of(m), true, t@)],
        ChatContent::Blocks(bs) => blocks_oai(role_of(m), bs@),
        ChatContent::Other => Seq::empty(),
    }
}

/// The chat messages a conversation becomes, after the system message.
pub open spec fn messages_oai(ms: Seq<ChatMessage>) -> Seq<OaiView>
    decreases ms.len(),
{
    if ms.len() == 0 {
        Seq::empty()
    } else {
        messages_oai(ms.drop_last()) + message_oai(ms.last())
    }
}

/// The pricing a model is billed at.
#[derive(Debug, Clone, Copy, PartialEq, Eq, Structural)]
pub enum PriceTier {
    Gpt4oMini,
    Gpt4o,
    Gpt4Turbo,
    Reasoning,
    Default,
}

/// The pricing of a model, by what its name contains (the first match of
/// gpt-4o-mini, gpt-4o, gpt-4-turbo, o1 or o3).
pub open spec fn price_tier(model: Seq<char>) -> PriceTier {
    if contains(model, "gpt-4o-mini"@) {
        PriceTier::Gpt4oMini
    } else if contains(model, "gpt-4o"@) {
        PriceTier::Gpt4o
    } else if contains(model, "gpt-4-turbo"@) {
        PriceTier::Gpt4Turbo
    } else if contains(model, "o1"@) || contains(model, "o3"@) {
        PriceTier::Reasoning
    } else {
        PriceTier::Default
    }
}

/// One tool call of a reply.
#[derive(Debug)]
pub struct RawToolCall {
    /// `id`, when it is a string.
    pub id: Option<String>,
    /// The JSON text of `function.name`.
    pub name: String,
    /// `function.arguments`, when it is a string.
    pub arguments: Option<String>,
}

/// What the conversion reads of a reply.
#[derive(Debug)]
pub struct RawCompletion {
    /// `choices[0].message.content`, when it is a string.
    pub content: Option<String>,
    /// `choices[0].message.tool_calls`, when it is an array.
    pub tool_calls: Option<Vec<RawToolCall>>,
    /// `usage.prompt_tokens` and `usage.completion_tokens`, when numbers.
    pub prompt_tokens: Option<u64>,
    pub completion_tokens: Option<u64>,
    /// `choices[0].finish_reason`, when it is a string.
    pub finish_reason: Option<String>,
}

/// One block of the converted reply.
#[derive(Debug)]
pub enum ReplyBlock {
    Text(String),
    /// A tool call: its id (a fresh random one when the reply gave none),
    /// the JSON text of its name, and its arguments as JSON text to decode
    /// (`{}` when missing; an object when they do not decode).
    ToolUse { id: String, name: String, arguments: String },
}

/// The converted reply.
#[derive(Debug)]
pub struct Reply {
    pub content: Vec<ReplyBlock>,
    pub input_tokens: u64,
    pub output_tokens: u64,
    pub total_tokens: u64,
    pub stop_reason: String,
    /// The model that was asked.
    pub model: String,
}

/// `uuid::Uuid::new_v4` in its text form: a random version-4 UUID, written
/// hyphenated in lower-case hex.  Only its length is stated; the crate
/// panics, as the original did, when the operating system gives no random
/// bytes.
#[verifier::external_body]
fn fresh_call_id() -> (r: String)
    ensures
        r@.len() == 36,
{
    uuid::Uuid::new_v4().to_string()
}

pub open spec fn or_zero(o: Option<u64>) -> nat {
    match o {
        Some(n) => n as nat,
        None => 0,
    }
}

/// The reply converts without overflow: its token counts add up in 64 bits.
pub open spec fn tokens_fit(raw: RawCompletion) -> bool {
    or_zero(raw.prompt_tokens) + or_zero(raw.completion_tokens) <= u64::MAX
}

/// The blocks of a converted reply: the text when there is some, then each
/// tool call.
pub open spec fn reply_blocks_ok(content: Seq<ReplyBlock>, raw: RawCompletion) -> bool {
    let has_text = match raw.content {
        Some(t) => t@.len() > 0,
        None => false,
    };
    let calls: Seq<RawToolCall> = match raw.tool_calls {
        Some(v) => v@,
        None => Seq::empty(),
    };
    let off: int = if has_text { 1 } else { 0 };
    &&& content.len() == off + calls.len()
    &&& has_text ==> text_block_is(content[0], raw.content)
    &&& forall|k: int| 0 <= k < calls.len() ==> call_converted(#[trigger] content[off + k], calls[k])
}

/// The block holds the reply's text.
pub open spec fn text_block_is(b: ReplyBlock, text: Option<String>) -> bool {
    match (b, text) {
        (ReplyBlock::Text(t), Some(c)) => t@ == c@,
        _ => false,
    }
}

/// A tool call as converted.
pub open spec fn call_converted(b: ReplyBlock, c: RawToolCall) -> bool {
    match b {
        ReplyBlock::ToolUse { id, name, arguments } => (match c.id {
            Some(y) => id@ == y@,
            None => id@.len() == 36,
        }) && name@ == c.name@ && arguments@ == match c.arguments {
            Some(a) => a@,
            None => "{}"@,
        },
        _ => false,
    }
}

fn block_messages(role: &str, b: &ChatBlock, out: &mut Vec<OaiMessage>)
    ensures
        final(out)@.map_values(|m: OaiMessage| oai_view(m)) == old(out)@.map_values(|m: OaiMessage| oai_view(m)) + block_oai(role@, *b),
{
    let ghost before = out@.map_values(|m: OaiMessage| oai_view(m));
    match &b.block_type {
        Some(t) => {
            if str_eq(t.as_str(), "text") {
                out.push(OaiMessage::Chat { role: copy_str(role), content: OaiContent::Json(copy_str(b.text.as_str())) });
            } else if str_eq(t.as_str(), "tool_use") {
                out.push(OaiMessage::ToolCall {
                    id: copy_str(b.id.as_str()),
                    name: copy_str(b.name.as_str()),
                    arguments: copy_str(b.input.as_str()),
                });
            } else if str_eq(t.as_str(), "tool_result") {
                out.push(OaiMessage::ToolResult {
                    tool_call_id: copy_str(b.tool_use_id.as_str()),
                    content: copy_str(b.content.as_str()),
                });
            }
        },
        None => {},
    }
    assert(out@.map_values(|m: OaiMessage| oai_view(m)) =~= before + block_oai(role@, *b));
}

/// A tool as the conversation describes it: its name, description and input
/// schema, each as JSON text.
#[derive(Debug)]
pub struct ToolSpec {
    pub name: String,
    pub description: String,
    pub input_schema: String,
}

/// The same tool as OpenAI takes it: `{"type": "function", "function":
/// {"name": name, "description": description, "parameters": parameters}}`.
#[derive(Debug)]
pub struct OaiTool {
    pub name: String,
    pub description: String,
    pub parameters: String,
}

/// The tool as OpenAI takes it carries the tool's parts.
pub open spec fn tool_converted(t: OaiTool, s: ToolSpec) -> bool {
    t.name@ == s.name@ && t.description@ == s.description@ && t.parameters@ == s.input_schema@
}

/// The body of a chat completion request: `{"model": model, "messages":
/// messages, "max_tokens": max_tokens}`, with `"tools"` and `"tool_choice"`
/// when tools are given.
#[derive(Debug)]
pub struct OaiRequest {
    pub model: String,
    pub messages: Vec<OaiMessage>,
    pub max_tokens: u32,
    pub tools: Option<Vec<OaiTool>>,
    pub tool_choice: Option<String>,
}

impl OpenAIProvider {
    /// The tools as OpenAI functions: same name and description, the input
    /// schema as the parameters.
    pub fn convert_tools(tools: &Vec<ToolSpec>) -> (r: Vec<OaiTool>)
        ensures
            r.len() == tools.len(),
            forall|i: int|
                0 <= i < tools.len() ==> #[trigger] r@[i].name@ == tools@[i].name@ && r@[i].description@
                    == tools@[i].description@ && r@[i].parameters@ == tools@[i].input_schema@,
    {
        let mut r: Vec<OaiTool> = Vec::new();
        let mut k: usize = 0;
        while k < tools.len()
            invariant
                k <= tools.len(),
                r.len() == k,
                forall|i: int|
                    0 <= i < k ==> #[trigger] r@[i].name@ == tools@[i].name@ && r@[i].description@
                        == tools@[i].description@ && r@[i].parameters@ == tools@[i].input_schema@,
            decreases tools.len() - k,
        {
            let t = &tools[k];
            r.push(
                OaiTool {
                    name: copy_str(t.name.as_str()),
                    description: copy_str(t.description.as_str()),
                    parameters: copy_str(t.input_schema.as_str()),
                },
            );
            k = k + 1;
        }
        r
    }

    pub closed spec fn model_view(&self) -> Seq<char> {
        self.model@
    }

    pub closed spec fn key_view(&self) -> Seq<char> {
        self.api_key@
    }

    pub closed spec fn base_view(&self) -> Seq<char> {
        self.base_url@
    }

    /// A provider for `model`, given the API key and base URL the
    /// environment holds: refused without a key; the base URL defaults to
    /// OpenAI's.
    pub fn new(model: &str, api_key: Option<String>, base_url: Option<String>) -> (r: Result<Self, String>)
        ensures
            match r {
                Ok(p) => api_key is Some && p.key_view() == api_key.unwrap()@ && p.model_view() == model@
                    && p.base_view() == match base_url {
                        Some(b) => b@,
                        None => "https://api.openai.com/v1"@,
                    },
                Err(e) => api_key is None && e@ == "OPENAI_API_KEY not set. Export it: export OPENAI_API_KEY=sk-..."@,
            },
    {
        match api_key {
            None => Err(copy_str("OPENAI_API_KEY not set. Export it: export OPENAI_API_KEY=sk-...")),
            Some(key) => Ok(
                OpenAIProvider {
                    api_key: key,
                    model: copy_str(model),
                    base_url: match base_url {
                        Some(b) => b,
                        None => copy_str("https://api.openai.com/v1"),
                    },
                },
            ),
        }
    }

    /// The model asked.
    pub fn model_name(&self) -> (r: &String)
        ensures
            r@ == self.model_view(),
    {
        &self.model
    }

    /// Where completions are requested.
    pub fn endpoint(&self) -> (r: String)
        ensures
            r@ == self.base_view() + "/chat/completions"@,
    {
        concat2(self.base_url.as_str(), "/chat/completions")
    }

    /// The authorization header's value.
    pub fn auth_header(&self) -> (r: String)
        ensures
            r@ == "Bearer "@ + self.key_view(),
    {
        concat2("Bearer ", self.api_key.as_str())
    }

    /// The pricing the model is billed at.
    pub fn price_tier(&self) -> (r: PriceTier)
        ensures
            r == price_tier(self.model_view()),
    {
        let m = chars_of(self.model.as_str());
        if contains_vec(&m, &chars_of("gpt-4o-mini")) {
            PriceTier::Gpt4oMini
        } else if contains_vec(&m, &chars_of("gpt-4o")) {
            PriceTier::Gpt4o
        } else if contains_vec(&m, &chars_of("gpt-4-turbo")) {
            PriceTier::Gpt4Turbo
        } else if contains_vec(&m, &chars_of("o1")) || contains_vec(&m, &chars_of("o3")) {
            PriceTier::Reasoning
        } else {
            PriceTier::Default
        }
    }

    /// The chat messages of a request: the system prompt, then each message
    /// of the conversation (a message of blocks becomes one chat message per
    /// text, tool call or tool result block).
    pub fn convert_messages(system_prompt: &str, messages: &Vec<ChatMessage>) -> (r: Vec<OaiMessage>)
        ensures
            r@.map_values(|m: OaiMessage| oai_view(m)) == seq![OaiView::Chat("system"@, true, system_prompt@)]
                + messages_oai(messages@),
    {
        let mut out: Vec<OaiMessage> = Vec::new();
        out.push(OaiMessage::Chat { role: copy_str("system"), content: OaiContent::Str(copy_str(system_prompt)) });
        let ghost head = seq![OaiView::Chat("system"@, true, system_prompt@)];
        assert(out@.map_values(|m: OaiMessage| oai_view(m)) =~= head + messages_oai(messages@.take(0)));
        let mut i: usize = 0;
        while i < messages.len()
            invariant
                i <= messages.len(),
                head == seq![OaiView::Chat("system"@, true, system_prompt@)],
                out@.map_values(|m: OaiMessage| oai_view(m)) == head + messages_oai(messages@.take(i as int)),
            decreases messages.len() - i,
        {
            let m = &messages[i];
            let role = match &m.role {
                Some(r) => copy_str(r.as_str()),
                None => copy_str("user"),
            };
            let ghost before = out@.map_values(|m: OaiMessage| oai_view(m));
            match &m.content {
                ChatContent::Text(t) => {
                    out.push(OaiMessage::Chat { role, content: OaiContent::Str(copy_str(t.as_str())) });
                    assert(out@.map_values(|m: OaiMessage| oai_view(m)) =~= before + message_oai(*m));
                },
                ChatContent::Blocks(bs) => {
                    let mut k: usize = 0;
                    while k < bs.len()
                        invariant
                            k <= bs.len(),
                            role@ == role_of(*m),
                            m.content == ChatContent::Blocks(*bs),
                            out@.map_values(|m: OaiMessage| oai_view(m)) == before + blocks_oai(role@, bs@.take(k as int)),
                        decreases bs.len() - k,
                    {
                        block_messages(role.as_str(), &bs[k], &mut out);
                        proof {
                            assert(bs@.take(k + 1).drop_last() =~= bs@.take(k as int));
                            assert(blocks_oai(role@, bs@.take(k + 1)) == blocks_oai(role@, bs@.take(k as int)) + block_oai(role@, bs@[k as int]));
                        }
                        k = k + 1;
                    }
                    assert(bs@.take(k as int) =~= bs@);
                },
                ChatContent::Other => {},
            }
            proof {
                assert(messages@.take(i + 1).drop_last() =~= messages@.take(i as int));
            }
            i = i + 1;
        }
        assert(messages@.take(i as int) =~= messages@);
        out
    }

    /// The body of the request for a completion of `messages` under
    /// `system_prompt`: this provider's model, at most 8096 tokens, the
    /// converted messages, and the converted tools with the choice left to
    /// the model ("auto") exactly when there are tools.
    pub fn request_body(&self, system_prompt: &str, messages: &Vec<ChatMessage>, tools: &Vec<ToolSpec>) -> (r: OaiRequest)
        ensures
            r.model@ == self.model_view(),
            r.max_tokens == 8096,
            r.messages@.map_values(|m: OaiMessage| oai_view(m)) == seq![OaiView::Chat("system"@, true, system_prompt@)]
                + messages_oai(messages@),
            tools.len() == 0 ==> r.tools is None && r.tool_choice is None,
            tools.len() > 0 ==> {
                &&& r.tools matches Some(ts) && ts.len() == tools.len() && forall|i: int|
                    0 <= i < tools.len() ==> #[trigger] tool_converted(ts@[i], tools@[i])
                &&& r.tool_choice matches Some(c) && c@ == "auto"@
            },
    {
        let converted = Self::convert_messages(system_prompt, messages);
        let (ts, choice) = if tools.len() > 0 {
            let ts = Self::convert_tools(tools);
            assert forall|i: int| 0 <= i < tools.len() implies #[trigger] tool_converted(ts@[i], tools@[i]) by {
                assert(ts@[i].name@ == tools@[i].name@);
            }
            (Some(ts), Some(copy_str("auto")))
        } else {
            (None, None)
        };
        OaiRequest { model: copy_str(self.model.as_str()), messages: converted, max_tokens: 8096, tools: ts, tool_choice: choice }
    }

    /// A reply in the Anthropic-style form: its text when not empty, then
    /// each tool call (with a fresh id where the reply gave none); the token
    /// counts (0 when missing) and their sum; the finish reason ("stop" when
    /// missing); this provider's model.
    pub fn convert_response(&self, raw: &RawCompletion) -> (r: Reply)
        requires
            tokens_fit(*raw),
        ensures
            reply_blocks_ok(r.content@, *raw),
            r.input_tokens == or_zero(raw.prompt_tokens),
            r.output_tokens == or_zero(raw.completion_tokens),
            r.total_tokens == r.input_tokens + r.output_tokens,
            r.stop_reason@ == match raw.finish_reason {
                Some(f) => f@,
                None => "stop"@,
            },
            r.model@ == self.model_view(),
    {
        let mut content: Vec<ReplyBlock> = Vec::new();
        let mut has_text = false;
        proof {
            reveal_strlit("");
        }
        match &raw.content {
            Some(t) => {
                assert(t@.len() == 0 ==> t@ =~= ""@);
                if !str_eq(t.as_str(), "") {
                    content.push(ReplyBlock::Text(copy_str(t.as_str())));
                    has_text = true;
                }
            },
            None => {},
        }
        assert(has_text == match raw.content {
            Some(t) => t@.len() > 0,
            None => false,
        });
        assert(has_text ==> text_block_is(content@[0], raw.content));
        let ghost off: int = if has_text { 1 } else { 0 };
        match &raw.tool_calls {
            Some(calls) => {
                let mut k: usize = 0;
                while k < calls.len()
                    invariant
                        k <= calls.len(),
                        raw.tool_calls == Some(*calls),
                        off == if has_text { 1int } else { 0int },
                        has_text ==> content.len() >= 1,
                        content.len() == off + k,
                        has_text ==> text_block_is(content@[0], raw.content),
                        forall|q: int| 0 <= q < k ==> call_converted(#[trigger] content@[off + q], calls@[q]),
                    decreases calls.len() - k,
                {
                    let c = &calls[k];
                    let id = match &c.id {
                        Some(x) => copy_str(x.as_str()),
                        None => fresh_call_id(),
                    };
                    let arguments = match &c.arguments {
                        Some(a) => copy_str(a.as_str()),
                        None => copy_str("{}"),
                    };
                    let ghost before = content@;
                    content.push(ReplyBlock::ToolUse { id, name: copy_str(c.name.as_str()), arguments });
                    proof {
                        assert(content@[0] == before[0] || !has_text);
                        assert forall|q: int| 0 <= q < k + 1 implies call_converted(#[trigger] content@[off + q], calls@[q]) by {
                            if q < k {
                                assert(content@[off + q] == before[off + q]);
                            }
                        }
                    }
                    k = k + 1;
                }
            },
            None => {},
        }
        let input_tokens = match raw.prompt_tokens {
            Some(n) => n,
            None => 0,
        };
        let output_tokens = match raw.completion_tokens {
            Some(n) => n,
            None => 0,
        };
        Reply {
            content,
            input_tokens,
            output_tokens,
            total_tokens: input_tokens + output_tokens,
            stop_reason: match &raw.finish_reason {
                Some(f) => copy_str(f.as_str()),
                None => copy_str("stop"),
            },
            model: copy_str(self.model.as_str()),
        }
    }
}

} // verus!
