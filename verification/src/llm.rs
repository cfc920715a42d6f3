//! Model-provider request and response shapes: tool-name mangling, the
//! request bodies, and reading responses (whole or streamed line by line)
//! back into completion items. The HTTP exchange is the caller's.

use vstd::prelude::*;

use crate::error::{LlmError};
use crate::json::{entries_insert, json_text, json_view, map_view, to_json_text, Json, JsonMap, JsonNumber, JsonV, NumberV, array_view};
use crate::seams::{
    chunks_view, items_view, tools_view, turns_view, ChatRole, ChatTurn, ChunkV, CompletionChunk, CompletionItem,
    CompletionRequest, ItemV, ToolDef, ToolDefV, TurnV,
};
use crate::text::{concat2, push_str, replace, replace_all, str_eq};

verus! {

/// Tool names may not contain `.`: action IDs travel with each `.` as `__`.
pub open spec fn encoded_name(id: Seq<char>) -> Seq<char> {
    replace_all(id, "."@, "__"@)
}

/// The action ID a mangled tool name stands for.
pub open spec fn decoded_name(name: Seq<char>) -> Seq<char> {
    replace_all(name, "__"@, "."@)
}

/// Mangles an action ID into a tool name.
pub fn encode_tool_name(action_id: &str) -> (r: String)
    ensures
        r@ == encoded_name(action_id@),
{
    proof {
        reveal_strlit(".");
    }
    replace(action_id, ".", "__")
}

/// Reads an action ID back from a tool name.
pub fn decode_tool_name(tool_name: &str) -> (r: String)
    ensures
        r@ == decoded_name(tool_name@),
{
    proof {
        reveal_strlit("__");
    }
    replace(tool_name, "__", ".")
}

pub open spec fn no_underscore(s: Seq<char>) -> bool {
    forall|i: int| 0 <= i < s.len() ==> s[i] != '_'
}

proof fn lemma_replace_plain(s: Seq<char>, pat: Seq<char>, with: Seq<char>)
    requires
        pat.len() > 0,
        forall|i: int| 0 <= i < s.len() ==> s[i] != pat[0],
    ensures
        replace_all(s, pat, with) == s,
    decreases s.len(),
{
    if s.len() > 0 {
        assert(!(pat.len() <= s.len() && s.take(pat.len() as int) == pat)) by {
            if pat.len() <= s.len() {
                assert(s.take(pat.len() as int)[0] != pat[0]);
            }
        }
        lemma_replace_plain(s.skip(1), pat, with);
        assert(seq![s[0]] + s.skip(1) =~= s);
    }
}

/// An action ID without `_` survives the round trip through its tool name.
pub proof fn law_tool_name_round_trip(id: Seq<char>)
    requires
        no_underscore(id),
    ensures
        decoded_name(encoded_name(id)) == id,
    decreases id.len(),
{
    reveal_strlit(".");
    reveal_strlit("__");
    let e = encoded_name(id);
    if id.len() > 0 {
        let rest = id.skip(1);
        assert(no_underscore(rest));
        law_tool_name_round_trip(rest);
        if id[0] == '.' {
            assert(id.take(1) =~= "."@);
            assert(e == "__"@ + encoded_name(rest));
            let er = encoded_name(rest);
            assert(("__"@ + er).take(2) =~= "__"@);
            assert(("__"@ + er).skip(2) =~= er);
            assert(decoded_name("__"@ + er) == "."@ + decoded_name(er));
            assert("."@ + rest =~= id);
        } else {
            assert(id.take(1) != "."@) by {
                assert(id.take(1)[0] != "."@[0]);
            }
            assert(e == seq![id[0]] + encoded_name(rest));
            let er = encoded_name(rest);
            let t = seq![id[0]] + er;
            assert(!(2 <= t.len() && t.take(2) == "__"@)) by {
                if 2 <= t.len() {
                    assert(t.take(2)[0] == id[0]);
                }
            }
            assert(t.skip(1) =~= er);
            assert(decoded_name(t) == seq![id[0]] + decoded_name(er));
            assert(seq![id[0]] + rest =~= id);
        }
    }
}

/// Anthropic provider settings.
#[derive(Debug)]
pub struct AnthropicConfig {
    /// API key (from the environment; never logged).
    pub api_key: String,
    /// Model name.
    pub model: String,
    /// Response token cap.
    pub max_tokens: u32,
    /// API origin.
    pub base_url: String,
}

impl AnthropicConfig {
    /// Defaults for an API key and a model: 4096 tokens, the public API
    /// origin.
    pub fn new(api_key: String, model: String) -> (c: AnthropicConfig)
        ensures
            c.api_key@ == api_key@,
            c.model@ == model@,
            c.max_tokens == 4096,
            c.base_url@ == "https://api.anthropic.com"@,
    {
        AnthropicConfig {
            api_key,
            model,
            max_tokens: 4096,
            base_url: "https://api.anthropic.com".to_owned(),
        }
    }
}

/// Ollama provider settings.
#[derive(Debug)]
pub struct OllamaConfig {
    /// Model name.
    pub model: String,
    /// Daemon origin.
    pub base_url: String,
}

impl OllamaConfig {
    /// Defaults for a model: the local daemon origin.
    pub fn new(model: String) -> (c: OllamaConfig)
        ensures
            c.model@ == model@,
            c.base_url@ == "http://localhost:11434"@,
    {
        OllamaConfig { model, base_url: "http://localhost:11434".to_owned() }
    }
}

/// A JSON object of role and content.
pub open spec fn message_obj(role: Seq<char>, content: Seq<char>) -> JsonV {
    JsonV::Object(
        entries_insert(entries_insert(Seq::empty(), "role"@, JsonV::String(role)), "content"@, JsonV::String(content)),
    )
}

fn message_json(role: &str, content: &str) -> (j: Json)
    ensures
        json_view(j) == message_obj(role@, content@),
{
    let mut m = JsonMap::new();
    m.insert("role".to_owned(), Json::String(role.to_owned()));
    m.insert("content".to_owned(), Json::String(content.to_owned()));
    Json::Object(m)
}

/// The Anthropic messages: every non-system turn, tool notes as user turns.
pub open spec fn anthropic_messages(turns: Seq<TurnV>) -> Seq<JsonV>
    decreases turns.len(),
{
    if turns.len() == 0 {
        Seq::empty()
    } else {
        let prev = anthropic_messages(turns.drop_last());
        let t = turns.last();
        match t.role {
            ChatRole::System => prev,
            ChatRole::Assistant => prev.push(message_obj("assistant"@, t.content)),
            _ => prev.push(message_obj("user"@, t.content)),
        }
    }
}

/// The system turns' texts, in order.
pub open spec fn system_parts(turns: Seq<TurnV>) -> Seq<Seq<char>>
    decreases turns.len(),
{
    if turns.len() == 0 {
        Seq::empty()
    } else {
        let prev = system_parts(turns.drop_last());
        if turns.last().role == ChatRole::System { prev.push(turns.last().content) } else { prev }
    }
}

/// The parts joined with a separator between each two.
pub open spec fn joined(parts: Seq<Seq<char>>, sep: Seq<char>) -> Seq<char>
    decreases parts.len(),
{
    if parts.len() == 0 {
        Seq::empty()
    } else if parts.len() == 1 {
        parts[0]
    } else {
        joined(parts.drop_last(), sep) + sep + parts.last()
    }
}

/// An Anthropic tool: mangled name, description, input schema.
pub open spec fn anthropic_tool(t: ToolDefV) -> JsonV {
    JsonV::Object(
        entries_insert(
            entries_insert(
                entries_insert(Seq::empty(), "name"@, JsonV::String(encoded_name(t.name))),
                "description"@,
                JsonV::String(t.description),
            ),
            "input_schema"@,
            t.parameters,
        ),
    )
}

/// The Anthropic request body: model, token cap and messages; the system
/// turns joined by blank lines as the top-level `system` when there are
/// any; the tools when there are any.
pub open spec fn anthropic_body(model: Seq<char>, max_tokens: u32, turns: Seq<TurnV>, tools: Seq<ToolDefV>) -> JsonV {
    let base = entries_insert(
        entries_insert(
            entries_insert(Seq::empty(), "model"@, JsonV::String(model)),
            "max_tokens"@,
            JsonV::Number(NumberV::PosInt(max_tokens as u64)),
        ),
        "messages"@,
        JsonV::Array(anthropic_messages(turns)),
    );
    let with_system = if system_parts(turns).len() > 0 {
        entries_insert(base, "system"@, JsonV::String(joined(system_parts(turns), "\n\n"@)))
    } else {
        base
    };
    JsonV::Object(
        if tools.len() > 0 {
            entries_insert(with_system, "tools"@, JsonV::Array(tools.map_values(|t: ToolDefV| anthropic_tool(t))))
        } else {
            with_system
        },
    )
}

/// Builds the Anthropic request body.
pub fn anthropic_request_body(config: &AnthropicConfig, request: &CompletionRequest) -> (body: Json)
    ensures
        json_view(body) == anthropic_body(config.model@, config.max_tokens, turns_view(request.messages@), tools_view(request.tools@)),
{
    let ghost tv = turns_view(request.messages@);
    let mut messages: Vec<Json> = Vec::new();
    let mut system = String::new();
    let mut system_count: usize = 0;
    let mut i: usize = 0;
    while i < request.messages.len()
        invariant
            i <= request.messages.len(),
            tv == turns_view(request.messages@),
            array_view(messages) == anthropic_messages(tv.take(i as int)),
            system_count == system_parts(tv.take(i as int)).len(),
            system@ == joined(system_parts(tv.take(i as int)), "\n\n"@),
            system_count <= i,
        decreases request.messages.len() - i,
    {
        let turn = &request.messages[i];
        proof {
            let t = tv.take(i + 1);
            assert(t.drop_last() =~= tv.take(i as int));
            assert(t.last() == turn@);
        }
        let ghost before = array_view(messages);
        match turn.role {
            ChatRole::System => {
                proof {
                    let p = system_parts(tv.take(i as int));
                    assert(p.push(turn.content@).drop_last() =~= p);
                }
                if system_count > 0 {
                    push_str(&mut system, "\n\n");
                }
                push_str(&mut system, turn.content.as_str());
                system_count = system_count + 1;
            },
            ChatRole::Assistant => {
                messages.push(message_json("assistant", turn.content.as_str()));
                assert(array_view(messages) =~= before.push(message_obj("assistant"@, turn.content@)));
            },
            _ => {
                messages.push(message_json("user", turn.content.as_str()));
                assert(array_view(messages) =~= before.push(message_obj("user"@, turn.content@)));
            },
        }
        i = i + 1;
    }
    assert(tv.take(i as int) =~= tv);
    let ghost tools_v = tools_view(request.tools@);
    let mut tools: Vec<Json> = Vec::new();
    let mut k: usize = 0;
    while k < request.tools.len()
        invariant
            k <= request.tools.len(),
            tools_v == tools_view(request.tools@),
            tools.len() == k,
            forall|j: int| 0 <= j < k ==> json_view(#[trigger] tools[j]) == anthropic_tool(tools_v[j]),
        decreases request.tools.len() - k,
    {
        let tool = &request.tools[k];
        assert(tools_v[k as int] == tool@);
        let mut m = JsonMap::new();
        m.insert("name".to_owned(), Json::String(encode_tool_name(tool.name.as_str())));
        m.insert("description".to_owned(), Json::String(tool.description.clone()));
        m.insert("input_schema".to_owned(), tool.parameters.deep_clone());
        tools.push(Json::Object(m));
        k = k + 1;
    }
    assert(array_view(tools) =~= tools_v.map_values(|t: ToolDefV| anthropic_tool(t)));
    let mut body = JsonMap::new();
    body.insert("model".to_owned(), Json::String(config.model.clone()));
    body.insert("max_tokens".to_owned(), Json::Number(JsonNumber::PosInt(config.max_tokens as u64)));
    body.insert("messages".to_owned(), Json::Array(messages));
    if system_count > 0 {
        body.insert("system".to_owned(), Json::String(system));
    }
    if request.tools.len() > 0 {
        body.insert("tools".to_owned(), Json::Array(tools));
    }
    Json::Object(body)
}


/// `value[key]`: the member of an object, `null` when absent or when the
/// value is not an object.
pub open spec fn member(v: JsonV, key: Seq<char>) -> JsonV {
    match v {
        JsonV::Object(es) => match crate::json::entry_get(es, key) {
            Some(x) => x,
            None => JsonV::Null,
        },
        _ => JsonV::Null,
    }
}

fn member_of<'a>(v: &'a Json, key: &str) -> (r: Option<&'a Json>)
    ensures
        match r {
            Some(x) => json_view(*x) == member(json_view(*v), key@),
            None => member(json_view(*v), key@) == JsonV::Null,
        },
{
    match v {
        Json::Object(m) => m.get(key),
        _ => None,
    }
}

/// The items of one content block: text blocks carry their text, tool-use
/// blocks a call (the input object, or none), other blocks nothing; a
/// tool-use block without a name is an error.
pub open spec fn block_items(block: JsonV) -> Result<Seq<ItemV>, Seq<char>> {
    let ty = member(block, "type"@);
    if ty == JsonV::String("text"@) {
        match member(block, "text"@) {
            JsonV::String(t) => Ok(seq![ItemV::Text(t)]),
            _ => Ok(Seq::empty()),
        }
    } else if ty == JsonV::String("tool_use"@) {
        match member(block, "name"@) {
            JsonV::String(n) => Ok(seq![ItemV::ToolCall(
                decoded_name(n),
                match member(block, "input"@) {
                    JsonV::Object(es) => es,
                    _ => Seq::empty(),
                },
            )]),
            _ => Err("tool_use without name"@),
        }
    } else {
        Ok(Seq::empty())
    }
}

/// The items of the content blocks, in order; the first error wins.
pub open spec fn blocks_items(blocks: Seq<JsonV>) -> Result<Seq<ItemV>, Seq<char>>
    decreases blocks.len(),
{
    if blocks.len() == 0 {
        Ok(Seq::empty())
    } else {
        match blocks_items(blocks.drop_last()) {
            Err(e) => Err(e),
            Ok(prev) => match block_items(blocks.last()) {
                Err(e) => Err(e),
                Ok(more) => Ok(prev + more),
            },
        }
    }
}

/// What an Anthropic response body says: a refusal is an error, a body
/// without a content array is an error, otherwise its blocks' items.
pub open spec fn anthropic_items(body: JsonV) -> Result<Seq<ItemV>, Seq<char>> {
    if member(body, "stop_reason"@) == JsonV::String("refusal"@) {
        Err("the model provider declined this request (stop_reason: refusal)"@)
    } else {
        match member(body, "content"@) {
            JsonV::Array(blocks) => blocks_items(blocks),
            _ => Err("response has no content array: "@ + json_text(body)),
        }
    }
}

pub open spec fn llm_result_matches(r: Result<Vec<CompletionItem>, LlmError>, o: Result<Seq<ItemV>, Seq<char>>) -> bool {
    match o {
        Ok(items) => r matches Ok(v) && items_view(v@) == items,
        Err(m) => r matches Err(LlmError::Provider(x)) && x@ == m,
    }
}

fn is_string(v: Option<&Json>, text: &str) -> (r: bool)
    ensures
        r == (match v {
            Some(x) => json_view(*x) == JsonV::String(text@),
            None => false,
        }),
{
    match v {
        Some(Json::String(s)) => str_eq(s.as_str(), text),
        _ => false,
    }
}

/// Reads an Anthropic response body into completion items.
pub fn anthropic_response_items(body: &Json) -> (r: Result<Vec<CompletionItem>, LlmError>)
    ensures
        llm_result_matches(r, anthropic_items(json_view(*body))),
{
    let ghost bv = json_view(*body);
    if is_string(member_of(body, "stop_reason"), "refusal") {
        return Err(LlmError::Provider("the model provider declined this request (stop_reason: refusal)".to_owned()));
    }
    proof {
        reveal_strlit("refusal");
    }
    let blocks = match member_of(body, "content") {
        Some(Json::Array(items)) => items,
        _ => {
            return Err(LlmError::Provider(concat2("response has no content array: ", to_json_text(body).as_str())));
        },
    };
    let ghost bs = array_view(*blocks);
    let mut items: Vec<CompletionItem> = Vec::new();
    let mut i: usize = 0;
    assert(bs.take(0) =~= Seq::<JsonV>::empty());
    assert(items_view(items@) =~= Seq::<ItemV>::empty());
    while i < blocks.len()
        invariant
            i <= blocks.len(),
            bs == array_view(*blocks),
            bs.len() == blocks.len(),
            blocks_items(bs.take(i as int)) == Ok::<Seq<ItemV>, Seq<char>>(items_view(items@)),
            anthropic_items(bv) == blocks_items(bs),
            bv == json_view(*body),
        decreases blocks.len() - i,
    {
        let block = &blocks[i];
        proof {
            let t = bs.take(i + 1);
            assert(t.drop_last() =~= bs.take(i as int));
            assert(t.last() == json_view(*block));
            reveal_strlit("text");
            reveal_strlit("tool_use");
            assert("text"@.len() == 4 && "tool_use"@.len() == 8);
        }
        let ghost before = items_view(items@);
        let ty = member_of(block, "type");
        if is_string(ty, "text") {
            match member_of(block, "text") {
                Some(Json::String(t)) => {
                    items.push(CompletionItem::Text(t.clone()));
                    assert(items_view(items@) =~= before + seq![ItemV::Text(t@)]);
                },
                _ => {
                    assert(items_view(items@) =~= before + Seq::<ItemV>::empty());
                },
            }
        } else if is_string(ty, "tool_use") {
            let name = match member_of(block, "name") {
                Some(Json::String(n)) => n,
                _ => {
                    proof {
                        assert(member(json_view(*block), "type"@) == JsonV::String("tool_use"@));
                        assert(!(member(json_view(*block), "name"@) is String));
                        assert(block_items(json_view(*block)) == Err::<Seq<ItemV>, Seq<char>>("tool_use without name"@));
                        assert(blocks_items(bs.take(i + 1)) == Err::<Seq<ItemV>, Seq<char>>("tool_use without name"@));
                        lemma_blocks_items_err(bs, i as int + 1);
                        assert(anthropic_items(json_view(*body)) == Err::<Seq<ItemV>, Seq<char>>("tool_use without name"@));
                    }
                    let m = "tool_use without name".to_owned();
                    assert(m@ == "tool_use without name"@);
                    return Err(LlmError::Provider(m));
                },
            };
            let arguments = match member_of(block, "input") {
                Some(Json::Object(m)) => m.deep_clone(),
                _ => JsonMap::new(),
            };
            let ghost av = map_view(arguments);
            items.push(CompletionItem::ToolCall { name: decode_tool_name(name.as_str()), arguments });
            assert(items_view(items@) =~= before + seq![ItemV::ToolCall(decoded_name(name@), av)]);
        } else {
            assert(items_view(items@) =~= before + Seq::<ItemV>::empty());
        }
        i = i + 1;
    }
    assert(bs.take(i as int) =~= bs);
    Ok(items)
}

proof fn lemma_blocks_items_err(bs: Seq<JsonV>, k: int)
    requires
        0 <= k <= bs.len(),
        blocks_items(bs.take(k)) is Err,
    ensures
        blocks_items(bs) == blocks_items(bs.take(k)),
    decreases bs.len() - k,
{
    if k < bs.len() {
        assert(bs.take(k + 1).drop_last() =~= bs.take(k));
        lemma_blocks_items_err(bs, k + 1);
    } else {
        assert(bs.take(k) =~= bs);
    }
}


/// The Ollama role of a turn: tool notes travel as user turns.
pub open spec fn ollama_role(r: ChatRole) -> Seq<char> {
    match r {
        ChatRole::System => "system"@,
        ChatRole::Assistant => "assistant"@,
        _ => "user"@,
    }
}

/// An Ollama tool: the function shape with the mangled name.
pub open spec fn ollama_tool(t: ToolDefV) -> JsonV {
    JsonV::Object(
        entries_insert(
            entries_insert(Seq::empty(), "type"@, JsonV::String("function"@)),
            "function"@,
            JsonV::Object(
                entries_insert(
                    entries_insert(
                        entries_insert(Seq::empty(), "name"@, JsonV::String(encoded_name(t.name))),
                        "description"@,
                        JsonV::String(t.description),
                    ),
                    "parameters"@,
                    t.parameters,
                ),
            ),
        ),
    )
}

/// The Ollama chat body: model, every turn (system included), the stream
/// flag, and the tools when there are any.
pub open spec fn ollama_body(model: Seq<char>, turns: Seq<TurnV>, tools: Seq<ToolDefV>, stream: bool) -> JsonV {
    let base = entries_insert(
        entries_insert(
            entries_insert(Seq::empty(), "model"@, JsonV::String(model)),
            "messages"@,
            JsonV::Array(turns.map_values(|t: TurnV| message_obj(ollama_role(t.role), t.content))),
        ),
        "stream"@,
        JsonV::Bool(stream),
    );
    JsonV::Object(
        if tools.len() > 0 {
            entries_insert(base, "tools"@, JsonV::Array(tools.map_values(|t: ToolDefV| ollama_tool(t))))
        } else {
            base
        },
    )
}

/// Builds the Ollama chat body.
pub fn ollama_request_body(config: &OllamaConfig, request: &CompletionRequest, stream: bool) -> (body: Json)
    ensures
        json_view(body) == ollama_body(config.model@, turns_view(request.messages@), tools_view(request.tools@), stream),
{
    let ghost tv = turns_view(request.messages@);
    let mut messages: Vec<Json> = Vec::new();
    let mut i: usize = 0;
    while i < request.messages.len()
        invariant
            i <= request.messages.len(),
            tv == turns_view(request.messages@),
            messages.len() == i,
            forall|j: int| 0 <= j < i ==> json_view(#[trigger] messages[j]) == message_obj(ollama_role(tv[j].role), tv[j].content),
        decreases request.messages.len() - i,
    {
        let turn = &request.messages[i];
        assert(tv[i as int] == turn@);
        let role = match turn.role {
            ChatRole::System => "system",
            ChatRole::Assistant => "assistant",
            _ => "user",
        };
        messages.push(message_json(role, turn.content.as_str()));
        i = i + 1;
    }
    assert(array_view(messages) =~= tv.map_values(|t: TurnV| message_obj(ollama_role(t.role), t.content)));
    let ghost tools_v = tools_view(request.tools@);
    let mut tools: Vec<Json> = Vec::new();
    let mut k: usize = 0;
    while k < request.tools.len()
        invariant
            k <= request.tools.len(),
            tools_v == tools_view(request.tools@),
            tools.len() == k,
            forall|j: int| 0 <= j < k ==> json_view(#[trigger] tools[j]) == ollama_tool(tools_v[j]),
        decreases request.tools.len() - k,
    {
        let tool = &request.tools[k];
        assert(tools_v[k as int] == tool@);
        let mut f = JsonMap::new();
        f.insert("name".to_owned(), Json::String(encode_tool_name(tool.name.as_str())));
        f.insert("description".to_owned(), Json::String(tool.description.clone()));
        f.insert("parameters".to_owned(), tool.parameters.deep_clone());
        let mut m = JsonMap::new();
        m.insert("type".to_owned(), Json::String("function".to_owned()));
        m.insert("function".to_owned(), Json::Object(f));
        tools.push(Json::Object(m));
        k = k + 1;
    }
    assert(array_view(tools) =~= tools_v.map_values(|t: ToolDefV| ollama_tool(t)));
    let mut body = JsonMap::new();
    body.insert("model".to_owned(), Json::String(config.model.clone()));
    body.insert("messages".to_owned(), Json::Array(messages));
    body.insert("stream".to_owned(), Json::Bool(stream));
    if request.tools.len() > 0 {
        body.insert("tools".to_owned(), Json::Array(tools));
    }
    Json::Object(body)
}

/// One tool call in an Ollama message.
#[derive(Debug)]
pub struct OllamaToolCall {
    /// The mangled tool name.
    pub name: String,
    /// The call's arguments.
    pub arguments: JsonMap,
}

/// An Ollama message: text (possibly empty) and tool calls.
#[derive(Debug)]
pub struct ChatMessage {
    pub content: String,
    pub tool_calls: Vec<OllamaToolCall>,
}

/// One Ollama chat response (or one line of a streamed one).
#[derive(Debug)]
pub struct ChatResponse {
    pub message: Option<ChatMessage>,
    pub done: bool,
    pub error: Option<String>,
}

pub open spec fn calls_items(calls: Seq<OllamaToolCall>) -> Seq<ItemV> {
    calls.map_values(|c: OllamaToolCall| ItemV::ToolCall(decoded_name(c.name@), map_view(c.arguments)))
}

/// A message's items: its text when non-empty, then its tool calls.
pub open spec fn message_items(m: ChatMessage) -> Seq<ItemV> {
    (if m.content@.len() > 0 { seq![ItemV::Text(m.content@)] } else { Seq::empty() }) + calls_items(m.tool_calls@)
}

/// The items of a message.
pub fn items_from(message: ChatMessage) -> (items: Vec<CompletionItem>)
    ensures
        items_view(items@) == message_items(message),
{
    let ghost m = message;
    let ChatMessage { content, tool_calls } = message;
    let mut items: Vec<CompletionItem> = Vec::new();
    if !content.as_str().is_empty() {
        items.push(CompletionItem::Text(content));
    }
    let ghost head = items_view(items@);
    assert(head =~= (if m.content@.len() > 0 { seq![ItemV::Text(m.content@)] } else { Seq::<ItemV>::empty() }));
    let ghost cv = calls_items(tool_calls@);
    let mut calls = tool_calls;
    let mut k: usize = 0;
    let ghost n = cv.len();
    assert(n == calls.len());
    while calls.len() > 0
        invariant
            k + calls.len() == n,
            n <= usize::MAX,
            calls_items(calls@) == cv.skip(k as int),
            cv.len() == n,
            items_view(items@) == head + cv.take(k as int),
        decreases calls.len(),
    {
        let ghost raw = calls@;
        let call = calls.remove(0);
        proof {
            assert(calls_items(raw)[0] == cv.skip(k as int)[0]);
            assert(cv.skip(k as int)[0] == cv[k as int]);
            assert(calls_items(calls@) =~= calls_items(raw).drop_first());
            assert(cv.skip(k as int).drop_first() =~= cv.skip(k + 1));
            assert(call == raw[0]);
        }
        let ghost before = items_view(items@);
        let OllamaToolCall { name, arguments } = call;
        items.push(CompletionItem::ToolCall { name: decode_tool_name(name.as_str()), arguments });
        assert(items_view(items@) =~= before.push(cv[k as int]));
        assert(cv.take(k + 1) =~= cv.take(k as int).push(cv[k as int]));
        k = k + 1;
    }
    assert(cv.take(k as int) =~= cv);
    items
}

pub open spec fn response_items(r: ChatResponse) -> Result<Seq<ItemV>, Seq<char>> {
    match r.error {
        Some(e) => Err("ollama error: "@ + e@),
        None => match r.message {
            Some(m) => Ok(message_items(m)),
            None => Ok(Seq::empty()),
        },
    }
}

/// The items of a complete (non-streamed) response, given the body as the
/// response type or the parser's message.
pub fn ollama_response_items(parsed: Result<ChatResponse, String>) -> (r: Result<Vec<CompletionItem>, LlmError>)
    ensures
        match parsed {
            Err(m) => r matches Err(LlmError::Provider(x)) && x@ == "unrecognizable response body: "@ + m@,
            Ok(resp) => llm_result_matches(r, response_items(resp)),
        },
{
    let resp = match parsed {
        Err(m) => return Err(LlmError::Provider(concat2("unrecognizable response body: ", m.as_str()))),
        Ok(resp) => resp,
    };
    match resp.error {
        Some(e) => Err(LlmError::Provider(concat2("ollama error: ", e.as_str()))),
        None => match resp.message {
            Some(m) => Ok(items_from(m)),
            None => {
                let v: Vec<CompletionItem> = Vec::new();
                assert(items_view(v@) =~= Seq::<ItemV>::empty());
                Ok(v)
            },
        },
    }
}

/// Turns streamed response lines into chunks, tracking whether a text
/// segment is open.
pub struct NdjsonAccumulator {
    text_open: bool,
}

/// The chunks streamed for a line's tool calls, in order.
pub open spec fn calls_chunks(calls: Seq<OllamaToolCall>) -> Seq<ChunkV> {
    calls.map_values(|c: OllamaToolCall| ChunkV::ToolCall(decoded_name(c.name@), map_view(c.arguments)))
}

/// The chunks of one streamed line, and whether a text segment is open
/// after it: text opens (or continues) a segment, a tool call first
/// closes an open one, and the final line closes it.
pub open spec fn line_chunks(open: bool, r: ChatResponse) -> (Seq<ChunkV>, bool) {
    let (text, open1) = match r.message {
        Some(m) => if m.content@.len() > 0 { (seq![ChunkV::TextDelta(m.content@)], true) } else { (Seq::empty(), open) },
        None => (Seq::empty(), open),
    };
    let calls: Seq<OllamaToolCall> = match r.message {
        Some(m) => m.tool_calls@,
        None => Seq::empty(),
    };
    let call_chunks = calls_chunks(calls);
    let (with_calls, open2) = if calls.len() > 0 {
        (text + (if open1 { seq![ChunkV::TextDone] } else { Seq::empty() }) + call_chunks, false)
    } else {
        (text, open1)
    };
    if r.done && open2 {
        (with_calls.push(ChunkV::TextDone), false)
    } else {
        (with_calls, open2)
    }
}

impl NdjsonAccumulator {
    pub closed spec fn is_open(self) -> bool {
        self.text_open
    }

    /// No segment open.
    pub fn new() -> (a: NdjsonAccumulator)
        ensures
            !a.is_open(),
    {
        NdjsonAccumulator { text_open: false }
    }

    /// One streamed line, given as the response type or the parser's
    /// message: an unparsable line or an error line fails the stream.
    pub fn on_line(&mut self, parsed: Result<ChatResponse, String>) -> (r: Result<Vec<CompletionChunk>, LlmError>)
        ensures
            match parsed {
                Err(m) => (r matches Err(LlmError::Provider(x)) && x@ == "unrecognizable chat line: "@ + m@)
                    && final(self).is_open() == old(self).is_open(),
                Ok(resp) => match resp.error {
                    Some(e) => (r matches Err(LlmError::Provider(x)) && x@ == "ollama error: "@ + e@)
                        && final(self).is_open() == old(self).is_open(),
                    None => (r matches Ok(v) && chunks_view(v@) == line_chunks(old(self).is_open(), resp).0)
                        && final(self).is_open() == line_chunks(old(self).is_open(), resp).1,
                },
            },
    {
        let resp = match parsed {
            Err(m) => return Err(LlmError::Provider(concat2("unrecognizable chat line: ", m.as_str()))),
            Ok(resp) => resp,
        };
        let ghost rv = resp;
        let ghost open0 = self.text_open;
        let ChatResponse { message, done, error } = resp;
        match error {
            Some(e) => return Err(LlmError::Provider(concat2("ollama error: ", e.as_str()))),
            None => {},
        }
        let mut chunks: Vec<CompletionChunk> = Vec::new();
        match message {
            Some(m) => {
                let ghost mv = m;
                let ChatMessage { content, tool_calls } = m;
                if !content.as_str().is_empty() {
                    self.text_open = true;
                    chunks.push(CompletionChunk::TextDelta(content));
                }
                let ghost text_part = chunks_view(chunks@);
                let ghost open1 = self.text_open;
                let ghost cc = calls_chunks(tool_calls@);
                let ghost n = tool_calls.len();
                let had_calls = tool_calls.len() > 0;
                if had_calls && self.text_open {
                    self.text_open = false;
                    chunks.push(CompletionChunk::TextDone);
                }
                self.text_open = if had_calls { false } else { self.text_open };
                let ghost head = chunks_view(chunks@);
                assert(head =~= if had_calls {
                    text_part + (if open1 { seq![ChunkV::TextDone] } else { Seq::<ChunkV>::empty() })
                } else {
                    text_part
                });
                let mut calls = tool_calls;
                let mut k: usize = 0;
                assert(n == calls.len());
                while calls.len() > 0
                    invariant
                        k + calls.len() == n,
                        n <= usize::MAX,
                        cc.len() == n,
                        calls_chunks(calls@) == cc.skip(k as int),
                        chunks_view(chunks@) == head + cc.take(k as int),
                    decreases calls.len(),
                {
                    let ghost raw = calls@;
                    let call = calls.remove(0);
                    proof {
                        assert(calls_chunks(raw)[0] == cc.skip(k as int)[0]);
                        assert(cc.skip(k as int)[0] == cc[k as int]);
                        assert(calls_chunks(calls@) =~= calls_chunks(raw).drop_first());
                        assert(cc.skip(k as int).drop_first() =~= cc.skip(k + 1));
                        assert(call == raw[0]);
                    }
                    let ghost before = chunks_view(chunks@);
                    let OllamaToolCall { name, arguments } = call;
                    chunks.push(CompletionChunk::ToolCall { name: decode_tool_name(name.as_str()), arguments });
                    assert(chunks_view(chunks@) =~= before.push(cc[k as int]));
                    assert(cc.take(k + 1) =~= cc.take(k as int).push(cc[k as int]));
                    k = k + 1;
                }
                assert(cc.take(k as int) =~= cc);
                assert(text_part =~= (if mv.content@.len() > 0 { seq![ChunkV::TextDelta(mv.content@)] } else { Seq::<ChunkV>::empty() }));
                assert(open1 == (if mv.content@.len() > 0 { true } else { open0 }));
                assert(cc == calls_chunks(mv.tool_calls@));
                assert(had_calls == (mv.tool_calls@.len() > 0));
            },
            None => {
                assert(chunks_view(chunks@) =~= Seq::<ChunkV>::empty());
            },
        }
        if done && self.text_open {
            self.text_open = false;
            chunks.push(CompletionChunk::TextDone);
        }
        assert(chunks_view(chunks@) =~= line_chunks(open0, rv).0);
        Ok(chunks)
    }
}

} // verus!
