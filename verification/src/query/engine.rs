//! Choosing the model provider, and the offline mock provider's replies.
use vstd::prelude::*;
use crate::text::{chars_of, concat2, contains, contains_vec, copy_str, lowercase, push_str, str_eq, to_lowercase};

verus! {

/// The providers a query engine can use.
#[derive(Debug, Clone, Copy, PartialEq, Eq, Structural)]
pub enum ProviderKind {
    /// The router over all configured providers.
    Router,
    Anthropic,
    OpenAI,
    Mock,
}

/// The provider a name selects ("galactic" and "router" both name the router).
pub open spec fn provider_named(name: Seq<char>) -> Option<ProviderKind> {
    if name == "galactic"@ || name == "router"@ {
        Some(ProviderKind::Router)
    } else if name == "anthropic"@ {
        Some(ProviderKind::Anthropic)
    } else if name == "openai"@ {
        Some(ProviderKind::OpenAI)
    } else if name == "mock"@ {
        Some(ProviderKind::Mock)
    } else {
        None
    }
}

/// A provider that answers locally, without an API key.
#[derive(Debug)]
pub struct MockProvider {
    model: String,
}

/// What the mock answers.
#[derive(Debug)]
pub enum MockReply {
    /// A text reply.
    Text(String),
    /// A call of the shell tool.
    ToolUse { id: String, name: String, command: String },
}

/// A mock completion: the reply, why it stopped, and the model.
#[derive(Debug)]
pub struct MockCompletion {
    pub reply: MockReply,
    pub stop_reason: String,
    pub model: String,
}

/// The mock's reply after a tool ran.
pub open spec fn after_tool_text() -> Seq<char> {
    "I've successfully executed the Bash command! The directory listing shows multiple files including Cargo.toml, src/, and tests/. How else can I assist with your DreamSwarm project?"@
}

/// The mock's introduction.
pub open spec fn intro_text() -> Seq<char> {
    "I am a Mock Agent. I am running locally without an API key. Try saying 'run command' to see me execute a tool!"@
}

/// The mock's completion, given the type and text of the first block of the
/// last message: after a tool result it reports the run; asked to "run
/// command" (in any case) it calls the shell tool with `ls -F`; otherwise it
/// introduces itself.
pub open spec fn mock_answers(c: MockCompletion, model: Seq<char>, last_type: Seq<char>, last_text: Seq<char>) -> bool {
    &&& c.model@ == model
    &&& if last_type == "tool_result"@ {
        c.reply matches MockReply::Text(t) && t@ == after_tool_text() && c.stop_reason@ == "end_turn"@
    } else if contains(lowercase(last_text), "run command"@) {
        c.reply matches MockReply::ToolUse { id, name, command } && id@ == "mock-tool-123"@ && name@
            == "Bash"@ && command@ == "ls -F"@ && c.stop_reason@ == "tool_use"@
    } else {
        c.reply matches MockReply::Text(t) && t@ == intro_text() && c.stop_reason@ == "end_turn"@
    }
}

/// The provider a name selects; an unknown name is refused with the names
/// that are supported.
pub fn provider_kind(name: &str) -> (r: Result<ProviderKind, String>)
    ensures
        match r {
            Ok(k) => provider_named(name@) == Some(k),
            Err(e) => provider_named(name@) is None && e@ == "Unknown provider: "@ + name@
                + ". Supported: galactic, anthropic, openai, mock"@,
        },
{
    if str_eq(name, "galactic") || str_eq(name, "router") {
        Ok(ProviderKind::Router)
    } else if str_eq(name, "anthropic") {
        Ok(ProviderKind::Anthropic)
    } else if str_eq(name, "openai") {
        Ok(ProviderKind::OpenAI)
    } else if str_eq(name, "mock") {
        Ok(ProviderKind::Mock)
    } else {
        let mut e = concat2("Unknown provider: ", name);
        push_str(&mut e, ". Supported: galactic, anthropic, openai, mock");
        Err(e)
    }
}

impl MockProvider {
    pub closed spec fn model_view(&self) -> Seq<char> {
        self.model@
    }

    /// A mock answering as `model`.
    pub fn new(model: String) -> (r: Self)
        ensures
            r.model_view() == model@,
    {
        MockProvider { model }
    }

    /// The model it answers as.
    pub fn model_name(&self) -> (r: &String)
        ensures
            r@ == self.model_view(),
    {
        &self.model
    }

    /// The completion for a conversation whose last message's first block
    /// has the given type and text ("" for what it lacks).
    pub fn complete(&self, last_type: &str, last_text: &str) -> (r: MockCompletion)
        ensures
            mock_answers(r, self.model_view(), last_type@, last_text@),
    {
        let model = copy_str(self.model.as_str());
        if str_eq(last_type, "tool_result") {
            return MockCompletion {
                reply: MockReply::Text(
                    copy_str(
                        "I've successfully executed the Bash command! The directory listing shows multiple files including Cargo.toml, src/, and tests/. How else can I assist with your DreamSwarm project?",
                    ),
                ),
                stop_reason: copy_str("end_turn"),
                model,
            };
        }
        let low = to_lowercase(last_text);
        let v = chars_of(low.as_str());
        let p = chars_of("run command");
        if contains_vec(&v, &p) {
            return MockCompletion {
                reply: MockReply::ToolUse {
                    id: copy_str("mock-tool-123"),
                    name: copy_str("Bash"),
                    command: copy_str("ls -F"),
                },
                stop_reason: copy_str("tool_use"),
                model,
            };
        }
        MockCompletion {
            reply: MockReply::Text(
                copy_str(
                    "I am a Mock Agent. I am running locally without an API key. Try saying 'run command' to see me execute a tool!",
                ),
            ),
            stop_reason: copy_str("end_turn"),
            model,
        }
    }
}

} // verus!
