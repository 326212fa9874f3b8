use dreamswarm::query::providers::openai::{OpenAIProvider, ToolSpec};
use dreamswarm::query::providers::compat::{
    AnthropicProvider, AnthropicRaw, AnthropicTier, CompatRaw, DeepSeekProvider, FeatherlessProvider, OllamaProvider, OllamaRaw,
};
use dreamswarm::query::router::{Complexity, ModelRouter, RoutingPolicy};

#[test]
fn complexity_by_keywords_in_any_case() {
    assert_eq!(ModelRouter::estimate_complexity("Please REFACTOR this module"), Complexity::High);
    assert_eq!(ModelRouter::estimate_complexity("run a Security Audit"), Complexity::High);
    assert_eq!(ModelRouter::estimate_complexity("the Architecture of it"), Complexity::High);
    assert_eq!(ModelRouter::estimate_complexity("Summarize the log"), Complexity::Low);
    assert_eq!(ModelRouter::estimate_complexity("code cleanup"), Complexity::Low);
    assert_eq!(ModelRouter::estimate_complexity("fix the FORMATTING"), Complexity::Low);
    assert_eq!(ModelRouter::estimate_complexity("write a parser"), Complexity::Medium);
    // high wins over low when both occur
    assert_eq!(ModelRouter::estimate_complexity("summarize the refactor"), Complexity::High);
}

#[test]
fn cost_policy_sends_light_work_to_deepseek() {
    let cost = ModelRouter::new(RoutingPolicy::Cost);
    assert_eq!(cost.select_provider(Complexity::Low), "deepseek");
    assert_eq!(cost.select_provider(Complexity::Medium), "anthropic");
    assert_eq!(cost.select_provider(Complexity::High), "anthropic");
    let perf = ModelRouter::new(RoutingPolicy::Performance);
    assert_eq!(perf.select_provider(Complexity::Low), "anthropic");
    let default = ModelRouter::new(RoutingPolicy::Default);
    assert_eq!(default.select_provider(Complexity::Low), "anthropic");
    assert_eq!(cost.model_name(), "galactic-router");
}

#[test]
fn fallback_goes_down_the_hierarchy() {
    assert_eq!(ModelRouter::fallback_order("anthropic"), vec!["anthropic", "openai", "deepseek", "ollama"]);
    assert_eq!(ModelRouter::fallback_order("deepseek"), vec!["deepseek", "ollama"]);
    assert_eq!(ModelRouter::fallback_order("ollama"), vec!["ollama"]);
    assert_eq!(ModelRouter::fallback_order("mystery"), vec!["anthropic", "openai", "deepseek", "ollama"]);
    assert_eq!(ModelRouter::exhausted_message(), "Galactic Router: All cognitive providers exhausted hierarchy.");
}

fn compat_raw() -> CompatRaw {
    CompatRaw {
        content: Some("hello".to_string()),
        prompt_tokens: Some(10),
        completion_tokens: Some(5),
        cache_hit_tokens: Some(3),
        cache_miss_tokens: Some(7),
        finish_reason: None,
    }
}

#[test]
fn deepseek_setup_and_replies() {
    let err = DeepSeekProvider::new("deepseek-chat", None, None).unwrap_err();
    assert_eq!(err, "DEEPSEEK_API_KEY not set");
    let p = DeepSeekProvider::new("deepseek-chat", Some("k1".to_string()), Some("k2".to_string())).unwrap();
    assert_eq!(p.auth_header(), "Bearer k1");
    let q = DeepSeekProvider::new("deepseek-chat", None, Some("k2".to_string())).unwrap();
    assert_eq!(q.auth_header(), "Bearer k2");
    assert_eq!(q.endpoint(), "https://api.deepseek.com/v1/chat/completions");
    assert_eq!(q.model_name(), "deepseek-chat");
    let r = q.convert_response(&compat_raw());
    assert_eq!(r.text.as_deref(), Some("hello"));
    assert_eq!((r.input_tokens, r.output_tokens, r.total_tokens), (10, 5, 15));
    assert_eq!((r.cache_read_tokens, r.cache_creation_tokens), (3, 7));
    assert_eq!(r.stop_reason, "stop");
    assert_eq!(r.model, "deepseek-chat");
}

#[test]
fn featherless_setup_and_replies() {
    let err = FeatherlessProvider::new("m", None).unwrap_err();
    assert_eq!(err, "FEATHERLESS_API_KEY not set. Export it: export FEATHERLESS_API_KEY=...");
    let p = FeatherlessProvider::new("m", Some("key".to_string())).unwrap();
    assert_eq!(p.endpoint(), "https://api.featherless.ai/v1/chat/completions");
    assert_eq!(p.auth_header(), "Bearer key");
    let mut raw = compat_raw();
    raw.finish_reason = Some("length".to_string());
    let r = p.convert_response(&raw);
    assert_eq!((r.cache_read_tokens, r.cache_creation_tokens), (0, 0));
    assert_eq!(r.total_tokens, 15);
    assert_eq!(r.stop_reason, "length");
    assert_eq!(r.model, "m");
}

#[test]
fn ollama_setup_and_replies() {
    let p = OllamaProvider::new("http://localhost:11434//", "llama3");
    assert_eq!(p.chat_url(), "http://localhost:11434/api/chat");
    assert_eq!(p.model_name(), "llama3");
    let r = p.convert_response(&OllamaRaw { content: None, prompt_eval_count: Some(4), eval_count: None });
    assert_eq!(r.text, None);
    assert_eq!((r.input_tokens, r.output_tokens, r.total_tokens), (4, 0, 0));
    assert_eq!(r.stop_reason, "done");
    assert_eq!(r.model, "llama3");
}

#[test]
fn anthropic_setup_tiers_and_usage() {
    let err = AnthropicProvider::new("m", None, None).unwrap_err();
    assert_eq!(err, "ANTHROPIC_API_KEY not set. Export it: export ANTHROPIC_API_KEY=sk-ant-...");
    let p = AnthropicProvider::new("model-sonnet-4", Some("sk".to_string()), None).unwrap();
    assert_eq!(p.messages_url(), "https://api.anthropic.com/v1/messages");
    assert_eq!(p.api_key(), "sk");
    assert_eq!(p.tier(), AnthropicTier::Sonnet);
    let q = AnthropicProvider::new("model-opus", Some("sk".to_string()), Some("http://proxy".to_string())).unwrap();
    assert_eq!(q.messages_url(), "http://proxy/v1/messages");
    assert_eq!(q.tier(), AnthropicTier::Opus);
    assert_eq!(AnthropicProvider::new("x-haiku", Some("k".to_string()), None).unwrap().tier(), AnthropicTier::Haiku);
    assert_eq!(AnthropicProvider::new("other", Some("k".to_string()), None).unwrap().tier(), AnthropicTier::Default);
    let raw = AnthropicRaw {
        input_tokens: Some(100),
        output_tokens: Some(20),
        cache_read_input_tokens: None,
        cache_creation_input_tokens: Some(9),
        stop_reason: None,
        model: None,
    };
    let r = p.convert_response(&raw);
    assert_eq!((r.input_tokens, r.output_tokens, r.total_tokens), (100, 20, 120));
    assert_eq!((r.cache_read_tokens, r.cache_creation_tokens), (0, 9));
    assert_eq!(r.stop_reason, "end_turn");
    assert_eq!(r.model, "model-sonnet-4");
}

#[test]
fn openai_tools_become_functions() {
    let tools = vec![ToolSpec {
        name: "\"Bash\"".to_string(),
        description: "\"Run a command\"".to_string(),
        input_schema: "{\"type\":\"object\"}".to_string(),
    }];
    let out = OpenAIProvider::convert_tools(&tools);
    assert_eq!(out.len(), 1);
    assert_eq!(out[0].name, "\"Bash\"");
    assert_eq!(out[0].description, "\"Run a command\"");
    assert_eq!(out[0].parameters, "{\"type\":\"object\"}");
    assert!(OpenAIProvider::convert_tools(&vec![]).is_empty());
}

#[test]
fn openai_request_body() {
    let p = OpenAIProvider::new("gpt-4o", Some("k".to_string()), None).unwrap();
    let msgs = vec![dreamswarm::query::providers::openai::ChatMessage {
        role: None,
        content: dreamswarm::query::providers::openai::ChatContent::Text("hi".to_string()),
    }];
    let plain = p.request_body("sys", &msgs, &vec![]);
    assert_eq!(plain.model, "gpt-4o");
    assert_eq!(plain.max_tokens, 8096);
    assert_eq!(plain.messages.len(), 2);
    assert!(plain.tools.is_none() && plain.tool_choice.is_none());
    let tools = vec![ToolSpec { name: "\"Bash\"".to_string(), description: "\"d\"".to_string(), input_schema: "{}".to_string() }];
    let with = p.request_body("sys", &msgs, &tools);
    let ts = with.tools.unwrap();
    assert_eq!(ts.len(), 1);
    assert_eq!(ts[0].parameters, "{}");
    assert_eq!(with.tool_choice.as_deref(), Some("auto"));
}
