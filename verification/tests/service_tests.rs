use dreamswarm::api::server::{swarm_launch_plan, ConfigPatch, SearchQuery, SearchResult, ServerConfig, SwarmLaunchRequest, TeamConfig};
use dreamswarm::api::swarm_plan::derive_worker_roles;
use dreamswarm::hashing::fingerprint_str;
use dreamswarm::prompts::roles::SwarmRole;
use dreamswarm::prompts::system::{PromptConfig, SystemPromptBuilder};
use dreamswarm::query::engine::{provider_kind, MockProvider, MockReply, ProviderKind};
use dreamswarm::query::providers::openai::{
    ChatBlock, ChatContent, ChatMessage, OaiContent, OaiMessage, OpenAIProvider, PriceTier, RawCompletion, RawToolCall, ReplyBlock,
};
use dreamswarm::query::streaming::{parse_sse_line, SseLine, StreamChunk, StreamEvent};
use dreamswarm::memory::writer::MemoryWriter;
use dreamswarm::text::{push_decimal, truncate_ellipsis};

fn config() -> ServerConfig {
    ServerConfig {
        model: "model-a".to_string(),
        provider: "anthropic".to_string(),
        permission_mode: "ask".to_string(),
        routing_policy: "balanced".to_string(),
        allow_patterns: vec!["src/**".to_string()],
        deny_patterns: vec![],
        ollama: None,
    }
}

fn empty_patch() -> ConfigPatch {
    ConfigPatch {
        model: None,
        provider: None,
        permission_mode: None,
        routing_policy: None,
        allow_patterns: None,
        deny_patterns: None,
        ollama_endpoint: None,
        ollama_model: None,
    }
}

fn block(kind: &str) -> ChatBlock {
    ChatBlock {
        block_type: Some(kind.to_string()),
        text: "\"hi\"".to_string(),
        id: "\"call_1\"".to_string(),
        name: "\"Bash\"".to_string(),
        input: "{\"command\":\"ls\"}".to_string(),
        tool_use_id: "\"call_1\"".to_string(),
        content: "\"out\"".to_string(),
    }
}

#[test]
fn swarm_launch_refuses_a_blank_mission() {
    assert_eq!(swarm_launch_plan("   \n", 4).unwrap_err(), "Mission cannot be empty");
    let plan = swarm_launch_plan("Add a login page", 2).unwrap();
    assert_eq!(plan.len(), 2);
    assert_eq!(plan[0].0, "architect");
    assert_eq!(plan[1].1, "coder");
    assert!(plan[1].2.ends_with("\n\nTask: Add a login page"));
    assert_eq!(swarm_launch_plan("x", 9).unwrap().len(), 4);
    let _req = SwarmLaunchRequest {
        mission: "m".to_string(),
        team_config: Some(TeamConfig { team_name: "t".to_string(), max_workers: 2 }),
    };
}

#[test]
fn worker_roles_in_order() {
    let all = derive_worker_roles("Fix bug", 10);
    let names: Vec<&str> = all.iter().map(|w| w.0.as_str()).collect();
    assert_eq!(names, vec!["architect", "coder", "tester", "inspector"]);
    assert_eq!(
        all[0].2,
        "Plan the design and file structure for the following task. Do NOT write code yet — produce a concise implementation plan only.\n\nTask: Fix bug"
    );
    assert!(derive_worker_roles("Fix bug", 0).is_empty());
}

#[test]
fn config_patch_replaces_only_what_it_names() {
    let mut p = empty_patch();
    p.model = Some("gpt-4o".to_string());
    p.deny_patterns = Some(vec![".env".to_string()]);
    p.permission_mode = Some("auto".to_string());
    let c = p.apply(&config(), true);
    assert_eq!(c.model, "gpt-4o");
    assert_eq!(c.provider, "anthropic");
    assert_eq!(c.permission_mode, "auto");
    assert_eq!(c.deny_patterns, vec![".env".to_string()]);
    assert_eq!(c.allow_patterns, vec!["src/**".to_string()]);
    assert!(c.ollama.is_none());
    let c = p.apply(&config(), false);
    assert_eq!(c.permission_mode, "ask");
}

#[test]
fn config_patch_creates_the_local_model_server() {
    let mut p = empty_patch();
    p.ollama_model = Some("qwen".to_string());
    let c = p.apply(&config(), true);
    assert_eq!(c.ollama, Some(("http://localhost:11434".to_string(), "qwen".to_string())));
    let _q = SearchQuery { q: "auth".to_string() };
    let _r = SearchResult { path: "a.md".to_string(), content: "x".to_string() };
}

#[test]
fn roles_from_names() {
    assert!(matches!(SwarmRole::from_str("LEAD"), SwarmRole::Lead));
    assert!(matches!(SwarmRole::from_str("frontend-engineer"), SwarmRole::FrontendEngineer));
    assert!(matches!(SwarmRole::from_str("Low-Level"), SwarmRole::SystemsProgrammer));
    assert!(matches!(SwarmRole::from_str("auditor"), SwarmRole::SecurityResearcher));
    assert!(matches!(SwarmRole::from_str("gardener"), SwarmRole::GeneralWorker));
    assert!(SwarmRole::from_str("lead").system_prompt_fragment().starts_with("You are the Swarm Lead."));
    assert_eq!(
        SwarmRole::from_str("x").system_prompt_fragment(),
        "You are an Autonomous Swarm Worker. Follow instructions precisely, use your tools efficiently, and report findings clearly to the lead agent."
    );
}

#[test]
fn system_prompt_sections() {
    let c = PromptConfig { permission_mode: "ask".to_string(), working_dir: "/repo".to_string(), state_dir: "/state".to_string() };
    let p = SystemPromptBuilder::build(&c);
    assert!(p.starts_with("<identity>\nYou are DreamSwarm"));
    assert!(p.contains("</identity>\n\n<coding_guidelines>\n"));
    assert!(p.contains("<safety>\nYou are running in permission mode: ask.\n"));
    assert!(p.ends_with("<environment>\nWorking directory: /repo\nState directory: /state\n</environment>"));
    assert_eq!(SystemPromptBuilder::environment_section(&c), "<environment>\nWorking directory: /repo\nState directory: /state\n</environment>");
}

#[test]
fn provider_names() {
    assert_eq!(provider_kind("galactic"), Ok(ProviderKind::Router));
    assert_eq!(provider_kind("router"), Ok(ProviderKind::Router));
    assert_eq!(provider_kind("mock"), Ok(ProviderKind::Mock));
    assert_eq!(
        provider_kind("llama"),
        Err("Unknown provider: llama. Supported: galactic, anthropic, openai, mock".to_string())
    );
}

#[test]
fn mock_provider_answers() {
    let m = MockProvider::new("mock-1".to_string());
    assert_eq!(m.model_name(), "mock-1");
    let c = m.complete("tool_result", "");
    assert_eq!(c.stop_reason, "end_turn");
    assert!(matches!(&c.reply, MockReply::Text(t) if t.starts_with("I've successfully executed the Bash command!")));
    // The request is read in any case.
    let c = m.complete("text", "Please RUN COMMAND now");
    assert_eq!(c.stop_reason, "tool_use");
    match c.reply {
        MockReply::ToolUse { id, name, command } => assert_eq!((id.as_str(), name.as_str(), command.as_str()), ("mock-tool-123", "Bash", "ls -F")),
        _ => panic!("expected a tool call"),
    }
    let c = m.complete("text", "hello");
    assert_eq!(c.model, "mock-1");
    assert!(matches!(&c.reply, MockReply::Text(t) if t.starts_with("I am a Mock Agent.")));
}

#[test]
fn sse_lines() {
    assert!(matches!(parse_sse_line("event: ping"), SseLine::Ignored));
    assert!(matches!(parse_sse_line("data: [DONE]"), SseLine::Done));
    match parse_sse_line("data: {\"a\":1}") {
        SseLine::Payload(p) => assert_eq!(p, "{\"a\":1}"),
        _ => panic!("expected a payload"),
    }
    let d = StreamChunk::done();
    assert!(d.is_done && d.text.is_none());
    assert_eq!(d.stop_reason.as_deref(), Some("stop"));
}

#[test]
fn stream_chunks_by_provider() {
    let ev = |t: Option<&str>, text: Option<&str>, stop: Option<&str>, finish: Option<&str>, content: Option<&str>| StreamEvent {
        event_type: t.map(String::from),
        delta_text: text.map(String::from),
        stop_reason: stop.map(String::from),
        finish_reason: finish.map(String::from),
        delta_content: content.map(String::from),
    };
    let c = StreamChunk::from_event("anthropic", &ev(Some("content_block_delta"), Some("Hel"), None, None, None)).unwrap();
    assert_eq!((c.text.as_deref(), c.is_done), (Some("Hel"), false));
    let c = StreamChunk::from_event("anthropic", &ev(Some("message_stop"), None, Some("end_turn"), None, None)).unwrap();
    assert_eq!((c.is_done, c.stop_reason.as_deref()), (true, Some("end_turn")));
    assert!(StreamChunk::from_event("anthropic", &ev(Some("ping"), None, None, None, None)).is_none());
    let c = StreamChunk::from_event("openai", &ev(None, None, None, None, Some("lo"))).unwrap();
    assert_eq!((c.text.as_deref(), c.is_done), (Some("lo"), false));
    let c = StreamChunk::from_event("openai", &ev(None, None, None, Some("length"), None)).unwrap();
    assert_eq!((c.is_done, c.stop_reason.as_deref()), (true, Some("length")));
    assert!(StreamChunk::from_event("ollama", &ev(None, None, None, None, Some("x"))).is_none());
}

#[test]
fn openai_provider_setup() {
    assert_eq!(
        OpenAIProvider::new("gpt-4o", None, None).unwrap_err(),
        "OPENAI_API_KEY not set. Export it: export OPENAI_API_KEY=sk-..."
    );
    let p = OpenAIProvider::new("gpt-4o-mini", Some("sk-1".to_string()), None).unwrap();
    assert_eq!(p.endpoint(), "https://api.openai.com/v1/chat/completions");
    assert_eq!(p.auth_header(), "Bearer sk-1");
    assert_eq!(p.price_tier(), PriceTier::Gpt4oMini);
    let q = OpenAIProvider::new("o3-mini", Some("k".to_string()), Some("http://local/v1".to_string())).unwrap();
    assert_eq!(q.endpoint(), "http://local/v1/chat/completions");
    assert_eq!(q.price_tier(), PriceTier::Reasoning);
    assert_eq!(q.model_name(), "o3-mini");
}

#[test]
fn openai_messages_flatten_blocks() {
    let msgs = vec![
        ChatMessage { role: None, content: ChatContent::Text("hello".to_string()) },
        ChatMessage {
            role: Some("assistant".to_string()),
            content: ChatContent::Blocks(vec![block("text"), block("tool_use"), block("image")]),
        },
        ChatMessage { role: Some("user".to_string()), content: ChatContent::Blocks(vec![block("tool_result")]) },
        ChatMessage { role: Some("user".to_string()), content: ChatContent::Other },
    ];
    let out = OpenAIProvider::convert_messages("be helpful", &msgs);
    assert_eq!(out.len(), 5);
    assert!(matches!(&out[0], OaiMessage::Chat { role, content: OaiContent::Str(s) } if role == "system" && s == "be helpful"));
    assert!(matches!(&out[1], OaiMessage::Chat { role, content: OaiContent::Str(s) } if role == "user" && s == "hello"));
    assert!(matches!(&out[2], OaiMessage::Chat { role, content: OaiContent::Json(j) } if role == "assistant" && j == "\"hi\""));
    assert!(matches!(&out[3], OaiMessage::ToolCall { id, name, arguments } if id == "\"call_1\"" && name == "\"Bash\"" && arguments == "{\"command\":\"ls\"}"));
    assert!(matches!(&out[4], OaiMessage::ToolResult { tool_call_id, content } if tool_call_id == "\"call_1\"" && content == "\"out\""));
}

#[test]
fn openai_replies_convert_back() {
    let raw = RawCompletion {
        content: Some("Done.".to_string()),
        tool_calls: Some(vec![RawToolCall { id: None, name: "\"Bash\"".to_string(), arguments: None }]),
        prompt_tokens: Some(10),
        completion_tokens: Some(5),
        finish_reason: None,
    };
    let p = OpenAIProvider::new("gpt-4o", Some("k".to_string()), None).unwrap();
    let r = p.convert_response(&raw);
    assert_eq!(r.content.len(), 2);
    assert!(matches!(&r.content[0], ReplyBlock::Text(t) if t == "Done."));
    assert!(matches!(&r.content[1], ReplyBlock::ToolUse { id, name, arguments } if id.len() == 36 && name == "\"Bash\"" && arguments == "{}"));
    assert_eq!((r.input_tokens, r.output_tokens, r.total_tokens), (10, 5, 15));
    assert_eq!(r.stop_reason, "stop");
    assert_eq!(r.model, "gpt-4o");
    // Two missing ids get two fresh ones; a given id is kept.
    let two = RawCompletion {
        content: None,
        tool_calls: Some(vec![
            RawToolCall { id: None, name: "\"A\"".to_string(), arguments: Some("{\"x\":1}".to_string()) },
            RawToolCall { id: None, name: "\"B\"".to_string(), arguments: None },
            RawToolCall { id: Some("call_9".to_string()), name: "\"C\"".to_string(), arguments: None },
        ]),
        prompt_tokens: None,
        completion_tokens: None,
        finish_reason: None,
    };
    let r = p.convert_response(&two);
    let ids: Vec<String> = r.content.iter().map(|b| match b {
        ReplyBlock::ToolUse { id, .. } => id.clone(),
        ReplyBlock::Text(_) => panic!("no text was given"),
    }).collect();
    assert_eq!(ids.len(), 3);
    assert_ne!(ids[0], ids[1]);
    assert_eq!(ids[2], "call_9");
    assert!(matches!(&r.content[0], ReplyBlock::ToolUse { arguments, .. } if arguments == "{\"x\":1}"));
    let empty = RawCompletion { content: Some(String::new()), tool_calls: None, prompt_tokens: None, completion_tokens: None, finish_reason: Some("length".to_string()) };
    let r = p.convert_response(&empty);
    assert!(r.content.is_empty());
    assert_eq!((r.total_tokens, r.stop_reason.as_str()), (0, "length"));
}

#[test]
fn sha256_of_known_inputs() {
    // SHA-256("abc") begins ba 78 16 bf 8f 01 cf ea
    assert_eq!(fingerprint_str("abc"), 0xba7816bf8f01cfea);
    // SHA-256("") begins e3 b0 c4 42 98 fc 1c 14
    assert_eq!(fingerprint_str(""), 0xe3b0c44298fc1c14);
}

#[test]
fn text_helpers() {
    let mut s = String::from("n=");
    push_decimal(&mut s, 1234);
    assert_eq!(s, "n=1234");
    // lower-cased (Unicode too), separators dashed, only alphanumerics kept
    assert_eq!(MemoryWriter::sanitize_path("MiXeD Ünïcode!"), "mixed-ünïcode");
    assert_eq!(truncate_ellipsis("abcdefgh", 5), "ab...");
    assert_eq!(truncate_ellipsis("abc", 5), "abc");
}
