use cleverhans::error::LlmError;
use cleverhans::json::{Json, JsonMap};
use cleverhans::llm::{
    anthropic_request_body, anthropic_response_items, decode_tool_name, encode_tool_name, items_from,
    ollama_request_body, ollama_response_items, AnthropicConfig, ChatMessage, ChatResponse, NdjsonAccumulator,
    OllamaConfig, OllamaToolCall,
};
use cleverhans::seams::{ChatRole, ChatTurn, CompletionChunk, CompletionItem, CompletionRequest, ToolDef};

fn obj(entries: Vec<(&str, Json)>) -> Json {
    let mut m = JsonMap::new();
    for (k, v) in entries {
        m.insert(k.to_owned(), v);
    }
    Json::Object(m)
}

fn s(v: &str) -> Json {
    Json::String(v.to_owned())
}

fn field<'a>(j: &'a Json, key: &str) -> &'a Json {
    match j {
        Json::Object(m) => m.get(key).unwrap_or_else(|| panic!("no field `{key}`")),
        _ => panic!("not an object"),
    }
}

fn item(j: &Json, i: usize) -> &Json {
    match j {
        Json::Array(v) => &v[i],
        _ => panic!("not an array"),
    }
}

fn items(j: &Json) -> &Vec<Json> {
    match j {
        Json::Array(v) => v,
        _ => panic!("not an array"),
    }
}

fn tool() -> ToolDef {
    ToolDef {
        name: "transaction.coBuyer.remove".to_owned(),
        description: "Remove the co-buyer".to_owned(),
        parameters: obj(vec![("type", s("object")), ("properties", obj(vec![])), ("required", Json::Array(vec![]))]),
    }
}

fn anthropic_request() -> CompletionRequest {
    CompletionRequest {
        messages: vec![
            ChatTurn { role: ChatRole::System, content: "You propose, never execute.".to_owned() },
            ChatTurn { role: ChatRole::User, content: "remove the co-buyer".to_owned() },
            ChatTurn { role: ChatRole::Tool, content: "proposal rejected by validation: unknown action".to_owned() },
        ],
        tools: vec![tool()],
    }
}

fn ollama_request() -> CompletionRequest {
    CompletionRequest {
        messages: vec![
            ChatTurn { role: ChatRole::System, content: "You propose, never execute.".to_owned() },
            ChatTurn { role: ChatRole::User, content: "remove the co-buyer".to_owned() },
        ],
        tools: vec![tool()],
    }
}

fn anthropic() -> AnthropicConfig {
    AnthropicConfig::new("k".to_owned(), "test-model".to_owned())
}

#[test]
fn anthropic_config_defaults() {
    let c = AnthropicConfig::new("sk-test".to_owned(), "m-1".to_owned());
    assert_eq!(c.api_key, "sk-test");
    assert_eq!(c.model, "m-1");
    assert_eq!(c.max_tokens, 4096);
    assert_eq!(c.base_url, "https://api.anthropic.com");
}

#[test]
fn system_turn_becomes_top_level_system_param() {
    let body = anthropic_request_body(&anthropic(), &anthropic_request());

    assert_eq!(field(&body, "system"), &s("You propose, never execute."));
    let roles: Vec<&Json> = items(field(&body, "messages")).iter().map(|m| field(m, "role")).collect();
    assert_eq!(roles, vec![&s("user"), &s("user")], "no system role in messages");
}

#[test]
fn dotted_action_ids_are_mangled_into_valid_tool_names() {
    let body = anthropic_request_body(&anthropic(), &anthropic_request());

    assert_eq!(field(item(field(&body, "tools"), 0), "name"), &s("transaction__coBuyer__remove"));
}

#[test]
fn decodes_tool_use_back_to_action_id() {
    let body = obj(vec![
        ("stop_reason", s("tool_use")),
        (
            "content",
            Json::Array(vec![
                obj(vec![("type", s("text")), ("text", s("Proposing."))]),
                obj(vec![
                    ("type", s("tool_use")),
                    ("id", s("toolu_1")),
                    ("name", s("transaction__coBuyer__remove")),
                    ("input", obj(vec![])),
                ]),
            ]),
        ),
    ]);

    let items = anthropic_response_items(&body).expect("parseable");

    assert_eq!(
        items,
        vec![
            CompletionItem::Text("Proposing.".to_owned()),
            CompletionItem::ToolCall { name: "transaction.coBuyer.remove".to_owned(), arguments: JsonMap::new() },
        ]
    );
}

#[test]
fn refusal_stop_reason_is_a_provider_error() {
    let body = obj(vec![("stop_reason", s("refusal")), ("content", Json::Array(vec![]))]);

    let result = anthropic_response_items(&body);

    assert!(matches!(result, Err(LlmError::Provider(msg)) if msg.contains("refusal")));
}

#[test]
fn skips_thinking_blocks() {
    let body = obj(vec![
        ("stop_reason", s("end_turn")),
        (
            "content",
            Json::Array(vec![
                obj(vec![("type", s("thinking")), ("thinking", s(""))]),
                obj(vec![("type", s("text")), ("text", s("Done."))]),
            ]),
        ),
    ]);

    let items = anthropic_response_items(&body).expect("parseable");

    assert_eq!(items, vec![CompletionItem::Text("Done.".to_owned())]);
}

#[test]
fn anthropic_body_carries_model_and_token_cap() {
    let body = anthropic_request_body(&anthropic(), &anthropic_request());
    assert_eq!(field(&body, "model"), &s("test-model"));
    assert!(matches!(field(&body, "max_tokens"), Json::Number(_)));
}

#[test]
fn system_turn_stays_in_messages() {
    let body = ollama_request_body(&OllamaConfig::new("qwen3".to_owned()), &ollama_request(), false);

    assert_eq!(field(item(field(&body, "messages"), 0), "role"), &s("system"));
    assert_eq!(field(&body, "stream"), &Json::Bool(false));
}

#[test]
fn tools_use_function_shape_with_mangled_names() {
    let body = ollama_request_body(&OllamaConfig::new("qwen3".to_owned()), &ollama_request(), false);

    assert_eq!(field(field(item(field(&body, "tools"), 0), "function"), "name"), &s("transaction__coBuyer__remove"));
}

#[test]
fn tool_calls_decode_back_to_action_ids() {
    let mut arguments = JsonMap::new();
    arguments.insert("country".to_owned(), s("NO"));
    let message = ChatMessage {
        content: String::new(),
        tool_calls: vec![OllamaToolCall { name: "transaction__coBuyer__remove".to_owned(), arguments }],
    };

    let items = items_from(message);

    let mut expected_arguments = JsonMap::new();
    expected_arguments.insert("country".to_owned(), s("NO"));
    assert_eq!(
        items,
        vec![CompletionItem::ToolCall { name: "transaction.coBuyer.remove".to_owned(), arguments: expected_arguments }]
    );
}

fn line(content: &str, calls: Vec<OllamaToolCall>, done: bool) -> Result<ChatResponse, String> {
    Ok(ChatResponse { message: Some(ChatMessage { content: content.to_owned(), tool_calls: calls }), done, error: None })
}

#[test]
fn streams_text_deltas_and_closes_on_done() {
    let mut acc = NdjsonAccumulator::new();
    let lines = vec![line("Hel", vec![], false), line("lo.", vec![], false), line("", vec![], true)];

    let chunks: Vec<CompletionChunk> = lines.into_iter().flat_map(|l| acc.on_line(l).expect("valid line")).collect();

    assert_eq!(
        chunks,
        vec![
            CompletionChunk::TextDelta("Hel".to_owned()),
            CompletionChunk::TextDelta("lo.".to_owned()),
            CompletionChunk::TextDone,
        ]
    );
}

#[test]
fn tool_call_closes_any_open_text_segment_first() {
    let mut acc = NdjsonAccumulator::new();
    let lines = vec![
        line("Proposing.", vec![], false),
        line("", vec![OllamaToolCall { name: "note__create".to_owned(), arguments: JsonMap::new() }], true),
    ];

    let chunks: Vec<CompletionChunk> = lines.into_iter().flat_map(|l| acc.on_line(l).expect("valid line")).collect();

    assert_eq!(
        chunks,
        vec![
            CompletionChunk::TextDelta("Proposing.".to_owned()),
            CompletionChunk::TextDone,
            CompletionChunk::ToolCall { name: "note.create".to_owned(), arguments: JsonMap::new() },
        ]
    );
}

#[test]
fn daemon_error_lines_become_provider_errors() {
    let mut acc = NdjsonAccumulator::new();

    let result = acc.on_line(Ok(ChatResponse { message: None, done: false, error: Some("model not found".to_owned()) }));

    assert!(matches!(result, Err(LlmError::Provider(msg)) if msg.contains("model not found")));
}

#[test]
fn unparsable_lines_fail_the_stream() {
    let mut acc = NdjsonAccumulator::new();
    let result = acc.on_line(Err("expected value".to_owned()));
    assert!(matches!(result, Err(LlmError::Provider(msg)) if msg == "unrecognizable chat line: expected value"));
}

#[test]
fn complete_responses_map_errors_and_messages() {
    assert!(matches!(
        ollama_response_items(Ok(ChatResponse { message: None, done: true, error: Some("boom".to_owned()) })),
        Err(LlmError::Provider(m)) if m == "ollama error: boom"
    ));
    assert_eq!(ollama_response_items(Ok(ChatResponse { message: None, done: true, error: None })), Ok(vec![]));
    assert!(matches!(
        ollama_response_items(Err("eof".to_owned())),
        Err(LlmError::Provider(m)) if m == "unrecognizable response body: eof"
    ));
}

#[test]
fn tool_names_round_trip() {
    assert_eq!(encode_tool_name("a.b.c"), "a__b__c");
    assert_eq!(decode_tool_name("a__b__c"), "a.b.c");
    assert_eq!(decode_tool_name(&encode_tool_name("note.create")), "note.create");
}
