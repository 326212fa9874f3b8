//! Providers that speak a plain chat format: DeepSeek and Featherless
//! (OpenAI-compatible, text only), Ollama (its native chat endpoint), and
//! Anthropic (the conversation passed through as it is).
//!
//! Requests are the system prompt followed by the conversation; what each
//! provider decides is its endpoint, its authorization, and how its reply is
//! read back.
use vstd::prelude::*;
use crate::text::{chars_of, concat2, contains, contains_vec, copy_str, str_eq, string_from_range};

verus! {

/// What the conversion reads of an OpenAI-compatible reply.
#[derive(Debug)]
pub struct CompatRaw {
    /// `choices[0].message.content`, when it is a string.
    pub content: Option<String>,
    /// `usage.prompt_tokens`, `usage.completion_tokens`, and the cache
    /// counts (`prompt_cache_hit_tokens`, `prompt_cache_miss_tokens`), when
    /// numbers.
    pub prompt_tokens: Option<u64>,
    pub completion_tokens: Option<u64>,
    pub cache_hit_tokens: Option<u64>,
    pub cache_miss_tokens: Option<u64>,
    /// `choices[0].finish_reason`, when it is a string.
    pub finish_reason: Option<String>,
}

/// A reply read back: its text (when there is some), token counts, and why
/// it stopped.
#[derive(Debug)]
pub struct TextReply {
    pub text: Option<String>,
    pub input_tokens: u64,
    pub output_tokens: u64,
    pub total_tokens: u64,
    pub cache_read_tokens: u64,
    pub cache_creation_tokens: u64,
    pub stop_reason: String,
    /// The model that was asked.
    pub model: String,
}

/// DeepSeek.
#[derive(Debug)]
pub struct DeepSeekProvider {
    api_key: String,
    model: String,
    base_url: String,
}

/// Featherless.
#[derive(Debug)]
pub struct FeatherlessProvider {
    api_key: String,
    model: String,
    base_url: String,
}

/// A local Ollama server.
#[derive(Debug)]
pub struct OllamaProvider {
    endpoint: String,
    model: String,
}

/// What the conversion reads of an Ollama reply.
#[derive(Debug)]
pub struct OllamaRaw {
    /// `message.content`, when it is a string.
    pub content: Option<String>,
    /// `prompt_eval_count` and `eval_count`, when numbers.
    pub prompt_eval_count: Option<u64>,
    pub eval_count: Option<u64>,
}

/// Anthropic.
#[derive(Debug)]
pub struct AnthropicProvider {
    api_key: String,
    model: String,
    base_url: String,
}

/// What the conversion reads of an Anthropic reply (its content blocks pass
/// through untouched).
#[derive(Debug)]
pub struct AnthropicRaw {
    pub input_tokens: Option<u64>,
    pub output_tokens: Option<u64>,
    pub cache_read_input_tokens: Option<u64>,
    pub cache_creation_input_tokens: Option<u64>,
    pub stop_reason: Option<String>,
    pub model: Option<String>,
}

/// Anthropic's usage and stop, read back.
#[derive(Debug)]
pub struct AnthropicReply {
    pub input_tokens: u64,
    pub output_tokens: u64,
    pub total_tokens: u64,
    pub cache_read_tokens: u64,
    pub cache_creation_tokens: u64,
    pub stop_reason: String,
    pub model: String,
}

/// Anthropic's pricing tiers.
#[derive(Debug, Clone, Copy, PartialEq, Eq, Structural)]
pub enum AnthropicTier {
    Opus,
    Sonnet,
    Haiku,
    Default,
}

pub open spec fn zero_if_none(o: Option<u64>) -> nat {
    match o {
        Some(n) => n as nat,
        None => 0,
    }
}

pub open spec fn text_or(o: Option<String>, d: Seq<char>) -> Seq<char> {
    match o {
        Some(s) => s@,
        None => d,
    }
}

/// The text kept of a reply: the content when it is a non-empty string.
pub open spec fn kept_text(content: Option<String>) -> Option<Seq<char>> {
    match content {
        Some(t) => if t@.len() > 0 {
            Some(t@)
        } else {
            None
        },
        None => None,
    }
}

pub open spec fn opt_seq(o: Option<String>) -> Option<Seq<char>> {
    match o {
        Some(s) => Some(s@),
        None => None,
    }
}

/// An OpenAI-compatible reply read back, the cache counts kept or not.
pub open spec fn compat_reply_ok(r: TextReply, raw: CompatRaw, with_cache: bool, model: Seq<char>) -> bool {
    &&& opt_seq(r.text) == kept_text(raw.content)
    &&& r.input_tokens == zero_if_none(raw.prompt_tokens)
    &&& r.output_tokens == zero_if_none(raw.completion_tokens)
    &&& r.total_tokens == r.input_tokens + r.output_tokens
    &&& r.cache_read_tokens == if with_cache { zero_if_none(raw.cache_hit_tokens) } else { 0 }
    &&& r.cache_creation_tokens == if with_cache { zero_if_none(raw.cache_miss_tokens) } else { 0 }
    &&& r.stop_reason@ == text_or(raw.finish_reason, "stop"@)
    &&& r.model@ == model
}

/// The endpoint without its trailing slashes.
pub open spec fn strip_slashes(s: Seq<char>) -> Seq<char>
    decreases s.len(),
{
    if s.len() > 0 && s.last() == '/' {
        strip_slashes(s.drop_last())
    } else {
        s
    }
}

/// The pricing tier of an Anthropic model, by what its name contains.
pub open spec fn anthropic_tier(model: Seq<char>) -> AnthropicTier {
    if contains(model, "opus"@) {
        AnthropicTier::Opus
    } else if contains(model, "sonnet"@) {
        AnthropicTier::Sonnet
    } else if contains(model, "haiku"@) {
        AnthropicTier::Haiku
    } else {
        AnthropicTier::Default
    }
}

fn or_zero(o: Option<u64>) -> (r: u64)
    ensures
        r == zero_if_none(o),
{
    match o {
        Some(n) => n,
        None => 0,
    }
}

fn or_text(o: &Option<String>, d: &str) -> (r: String)
    ensures
        r@ == text_or(*o, d@),
{
    match o {
        Some(s) => copy_str(s.as_str()),
        None => copy_str(d),
    }
}

/// An OpenAI-compatible reply read back.
fn compat_reply(raw: &CompatRaw, with_cache: bool, model: &str) -> (r: TextReply)
    requires
        zero_if_none(raw.prompt_tokens) + zero_if_none(raw.completion_tokens) <= u64::MAX,
    ensures
        compat_reply_ok(r, *raw, with_cache, model@),
{
    proof {
        reveal_strlit("");
    }
    let text = match &raw.content {
        Some(t) => {
            assert(t@.len() == 0 ==> t@ =~= ""@);
            if str_eq(t.as_str(), "") {
                None
            } else {
                Some(copy_str(t.as_str()))
            }
        },
        None => None,
    };
    let input_tokens = or_zero(raw.prompt_tokens);
    let output_tokens = or_zero(raw.completion_tokens);
    TextReply {
        text,
        input_tokens,
        output_tokens,
        total_tokens: input_tokens + output_tokens,
        cache_read_tokens: if with_cache { or_zero(raw.cache_hit_tokens) } else { 0 },
        cache_creation_tokens: if with_cache { or_zero(raw.cache_miss_tokens) } else { 0 },
        stop_reason: or_text(&raw.finish_reason, "stop"),
        model: copy_str(model),
    }
}

impl DeepSeekProvider {
    pub closed spec fn view_parts(&self) -> (Seq<char>, Seq<char>, Seq<char>) {
        (self.api_key@, self.model@, self.base_url@)
    }

    /// DeepSeek for `model`, with the key given, else the one the
    /// environment holds; refused without one.
    pub fn new(model: &str, api_key: Option<String>, env_key: Option<String>) -> (r: Result<Self, String>)
        ensures
            match r {
                Ok(p) => p.view_parts() == (match api_key {
                    Some(k) => k@,
                    None => env_key.unwrap()@,
                }, model@, "https://api.deepseek.com/v1"@) && (api_key is Some || env_key is Some),
                Err(e) => api_key is None && env_key is None && e@ == "DEEPSEEK_API_KEY not set"@,
            },
    {
        let key = match api_key {
            Some(k) => k,
            None => match env_key {
                Some(k) => k,
                None => {
                    return Err(copy_str("DEEPSEEK_API_KEY not set"));
                },
            },
        };
        Ok(DeepSeekProvider { api_key: key, model: copy_str(model), base_url: copy_str("https://api.deepseek.com/v1") })
    }

    /// The model asked.
    pub fn model_name(&self) -> (r: &String)
        ensures
            r@ == self.view_parts().1,
    {
        &self.model
    }

    /// Where completions are requested.
    pub fn endpoint(&self) -> (r: String)
        ensures
            r@ == self.view_parts().2 + "/chat/completions"@,
    {
        concat2(self.base_url.as_str(), "/chat/completions")
    }

    /// The authorization header's value.
    pub fn auth_header(&self) -> (r: String)
        ensures
            r@ == "Bearer "@ + self.view_parts().0,
    {
        concat2("Bearer ", self.api_key.as_str())
    }

    /// A reply read back, with the cache counts and this provider's model.
    pub fn convert_response(&self, raw: &CompatRaw) -> (r: TextReply)
        requires
            zero_if_none(raw.prompt_tokens) + zero_if_none(raw.completion_tokens) <= u64::MAX,
        ensures
            compat_reply_ok(r, *raw, true, self.view_parts().1),
    {
        compat_reply(raw, true, self.model.as_str())
    }
}

impl FeatherlessProvider {
    pub closed spec fn view_parts(&self) -> (Seq<char>, Seq<char>, Seq<char>) {
        (self.api_key@, self.model@, self.base_url@)
    }

    /// Featherless for `model`, with the key the environment holds; refused
    /// without one.
    pub fn new(model: &str, env_key: Option<String>) -> (r: Result<Self, String>)
        ensures
            match r {
                Ok(p) => env_key is Some && p.view_parts() == (env_key.unwrap()@, model@, "https://api.featherless.ai/v1"@),
                Err(e) => env_key is None && e@ == "FEATHERLESS_API_KEY not set. Export it: export FEATHERLESS_API_KEY=..."@,
            },
    {
        match env_key {
            Some(k) => Ok(FeatherlessProvider { api_key: k, model: copy_str(model), base_url: copy_str("https://api.featherless.ai/v1") }),
            None => Err(copy_str("FEATHERLESS_API_KEY not set. Export it: export FEATHERLESS_API_KEY=...")),
        }
    }

    /// The model asked.
    pub fn model_name(&self) -> (r: &String)
        ensures
            r@ == self.view_parts().1,
    {
        &self.model
    }

    /// Where completions are requested.
    pub fn endpoint(&self) -> (r: String)
        ensures
            r@ == self.view_parts().2 + "/chat/completions"@,
    {
        concat2(self.base_url.as_str(), "/chat/completions")
    }

    /// The authorization header's value.
    pub fn auth_header(&self) -> (r: String)
        ensures
            r@ == "Bearer "@ + self.view_parts().0,
    {
        concat2("Bearer ", self.api_key.as_str())
    }

    /// A reply read back (no cache counts), with this provider's model.
    pub fn convert_response(&self, raw: &CompatRaw) -> (r: TextReply)
        requires
            zero_if_none(raw.prompt_tokens) + zero_if_none(raw.completion_tokens) <= u64::MAX,
        ensures
            compat_reply_ok(r, *raw, false, self.view_parts().1),
    {
        compat_reply(raw, false, self.model.as_str())
    }
}

impl OllamaProvider {
    pub closed spec fn view_parts(&self) -> (Seq<char>, Seq<char>) {
        (self.endpoint@, self.model@)
    }

    /// The server at `endpoint` (trailing slashes dropped) running `model`.
    pub fn new(endpoint: &str, model: &str) -> (r: Self)
        ensures
            r.view_parts() == (strip_slashes(endpoint@), model@),
    {
        let v = chars_of(endpoint);
        let mut end = v.len();
        assert(v@.take(end as int) =~= v@);
        while end > 0 && v[end - 1] == '/'
            invariant
                end <= v.len(),
                v@ == endpoint@,
                strip_slashes(v@.take(end as int)) == strip_slashes(v@),
            decreases end,
        {
            assert(v@.take(end as int).drop_last() =~= v@.take(end - 1));
            end = end - 1;
        }
        assert(strip_slashes(v@.take(end as int)) == v@.take(end as int));
        let e = string_from_range(&v, 0, end);
        assert(v@.subrange(0, end as int) =~= v@.take(end as int));
        OllamaProvider { endpoint: e, model: copy_str(model) }
    }

    /// The model asked.
    pub fn model_name(&self) -> (r: &String)
        ensures
            r@ == self.view_parts().1,
    {
        &self.model
    }

    /// Where chats are posted.
    pub fn chat_url(&self) -> (r: String)
        ensures
            r@ == self.view_parts().0 + "/api/chat"@,
    {
        concat2(self.endpoint.as_str(), "/api/chat")
    }

    /// A reply read back: its text when there is any, the evaluation counts,
    /// no total, stopped as done, this provider's model.
    pub fn convert_response(&self, raw: &OllamaRaw) -> (r: TextReply)
        ensures
            opt_seq(r.text) == opt_seq(raw.content),
            r.input_tokens == zero_if_none(raw.prompt_eval_count),
            r.output_tokens == zero_if_none(raw.eval_count),
            r.total_tokens == 0,
            r.cache_read_tokens == 0,
            r.cache_creation_tokens == 0,
            r.stop_reason@ == "done"@,
            r.model@ == self.view_parts().1,
    {
        TextReply {
            text: match &raw.content {
                Some(t) => Some(copy_str(t.as_str())),
                None => None,
            },
            input_tokens: or_zero(raw.prompt_eval_count),
            output_tokens: or_zero(raw.eval_count),
            total_tokens: 0,
            cache_read_tokens: 0,
            cache_creation_tokens: 0,
            stop_reason: copy_str("done"),
            model: copy_str(self.model.as_str()),
        }
    }
}

impl AnthropicProvider {
    pub closed spec fn view_parts(&self) -> (Seq<char>, Seq<char>, Seq<char>) {
        (self.api_key@, self.model@, self.base_url@)
    }

    /// Anthropic for `model`, with the key and base URL the environment
    /// holds; refused without a key; the base URL defaults to Anthropic's.
    pub fn new(model: &str, env_key: Option<String>, env_base: Option<String>) -> (r: Result<Self, String>)
        ensures
            match r {
                Ok(p) => env_key is Some && p.view_parts() == (env_key.unwrap()@, model@, match env_base {
                    Some(b) => b@,
                    None => "https://api.anthropic.com"@,
                }),
                Err(e) => env_key is None && e@ == "ANTHROPIC_API_KEY not set. Export it: export ANTHROPIC_API_KEY=sk-ant-..."@,
            },
    {
        match env_key {
            None => Err(copy_str("ANTHROPIC_API_KEY not set. Export it: export ANTHROPIC_API_KEY=sk-ant-...")),
            Some(k) => Ok(
                AnthropicProvider {
                    api_key: k,
                    model: copy_str(model),
                    base_url: match env_base {
                        Some(b) => b,
                        None => copy_str("https://api.anthropic.com"),
                    },
                },
            ),
        }
    }

    /// The model asked.
    pub fn model_name(&self) -> (r: &String)
        ensures
            r@ == self.view_parts().1,
    {
        &self.model
    }

    /// The API key, sent as `x-api-key`.
    pub fn api_key(&self) -> (r: &String)
        ensures
            r@ == self.view_parts().0,
    {
        &self.api_key
    }

    /// Where messages are posted.
    pub fn messages_url(&self) -> (r: String)
        ensures
            r@ == self.view_parts().2 + "/v1/messages"@,
    {
        concat2(self.base_url.as_str(), "/v1/messages")
    }

    /// The pricing tier of the model.
    pub fn tier(&self) -> (r: AnthropicTier)
        ensures
            r == anthropic_tier(self.view_parts().1),
    {
        let m = chars_of(self.model.as_str());
        if contains_vec(&m, &chars_of("opus")) {
            AnthropicTier::Opus
        } else if contains_vec(&m, &chars_of("sonnet")) {
            AnthropicTier::Sonnet
        } else if contains_vec(&m, &chars_of("haiku")) {
            AnthropicTier::Haiku
        } else {
            AnthropicTier::Default
        }
    }

    /// The usage and stop of a reply: counts 0 when missing, their sum,
    /// "end_turn" and this provider's model when the reply names none.
    pub fn convert_response(&self, raw: &AnthropicRaw) -> (r: AnthropicReply)
        requires
            zero_if_none(raw.input_tokens) + zero_if_none(raw.output_tokens) <= u64::MAX,
        ensures
            r.input_tokens == zero_if_none(raw.input_tokens),
            r.output_tokens == zero_if_none(raw.output_tokens),
            r.total_tokens == r.input_tokens + r.output_tokens,
            r.cache_read_tokens == zero_if_none(raw.cache_read_input_tokens),
            r.cache_creation_tokens == zero_if_none(raw.cache_creation_input_tokens),
            r.stop_reason@ == text_or(raw.stop_reason, "end_turn"@),
            r.model@ == text_or(raw.model, self.view_parts().1),
    {
        let input_tokens = or_zero(raw.input_tokens);
        let output_tokens = or_zero(raw.output_tokens);
        AnthropicReply {
            input_tokens,
            output_tokens,
            total_tokens: input_tokens + output_tokens,
            cache_read_tokens: or_zero(raw.cache_read_input_tokens),
            cache_creation_tokens: or_zero(raw.cache_creation_input_tokens),
            stop_reason: or_text(&raw.stop_reason, "end_turn"),
            model: or_text(&raw.model, self.model.as_str()),
        }
    }
}

} // verus!
