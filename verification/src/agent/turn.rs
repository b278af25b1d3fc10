//! What an agent sends the model and how it reads the answer: its system
//! prompt, the chat messages of a transcript, the tools it offers, and the
//! tool calls an assistant turn asks for.
use crate::agent::tool_call::{embedded_tool_call, extract_embedded_tool_call, json_parse, parse_json};
use crate::json::{field, get_field, get_str_field, str_field, JsonValue};
use crate::message::{is_message_id, is_turn_request_id, next_request_id, Message};
use crate::text::{cat3, cat5, is_blank, opt_string, trim_seq};
use vstd::prelude::*;

verus! {

/// Who speaks in a chat message.
#[derive(PartialEq, Eq, Structural, Clone, Copy, Debug)]
pub enum ChatRole {
    System,
    User,
    Assistant,
    Tool,
}

/// A message as the model gets it.
pub struct ChatMessage {
    pub role: ChatRole,
    pub content: String,
    pub tool_call_id: Option<String>,
}

/// A tool as the model is told of it.
pub struct ToolDefinition {
    pub name: String,
    pub description: Option<String>,
}

/// What the model is told before the conversation: who the agent is, how
/// it works through a message, its tools, and where it works; the memory
/// context follows after a blank line when there is any.
pub open spec fn system_prompt_spec(
    name: Seq<char>,
    preamble: Seq<char>,
    catalog: Seq<char>,
    agent_dir: Seq<char>,
    workspace_dir: Seq<char>,
    memory: Seq<char>,
) -> Seq<char> {
    let base = "You are "@ + name + ".\n"@ + preamble + " Use tools via JSON calls when needed.\n- Process each incoming user message as a loop:\n  1. Receive the message.\n  2. Interpret it.\n  3. Choose the next action.\n  4. Either reply immediately, call a tool, or ask a follow-up question.\n  5. If you call a tool, read the result and continue the loop.\n  6. Stop only when a final reply is ready.\n- One user message may require multiple internal iterations before the final answer.\n- If a tool is needed, prefer native tool calls. If native tool calling is unavailable, respond with ONLY {\"tool\": \"tool_name\", \"args\": {...}}.\n- When done, respond with plain text.\nAvailable tools: "@
        + catalog + "\nAgent workspace: "@ + agent_dir + "\nCurrent task workspace: "@ + workspace_dir
        + "\n- When using write_file or read_file, use simple relative paths (e.g. \"note.md\", \"output/data.csv\"). Paths are resolved relative to the current task workspace automatically. Do NOT construct full workspace paths manually."@;
    if trim_seq(memory).len() == 0 {
        base
    } else {
        base + "\n\n"@ + memory
    }
}

/// The system prompt; `catalog` is the tool catalog as JSON text.
pub fn system_prompt(
    name: &str,
    preamble: &str,
    catalog: &str,
    agent_dir: &str,
    workspace_dir: &str,
    memory_context: &str,
) -> (res: String)
    ensures
        res@ == system_prompt_spec(name@, preamble@, catalog@, agent_dir@, workspace_dir@, memory_context@),
{
    let head = cat5("You are ", name, ".\n", preamble, " Use tools via JSON calls when needed.\n- Process each incoming user message as a loop:\n  1. Receive the message.\n  2. Interpret it.\n  3. Choose the next action.\n  4. Either reply immediately, call a tool, or ask a follow-up question.\n  5. If you call a tool, read the result and continue the loop.\n  6. Stop only when a final reply is ready.\n- One user message may require multiple internal iterations before the final answer.\n- If a tool is needed, prefer native tool calls. If native tool calling is unavailable, respond with ONLY {\"tool\": \"tool_name\", \"args\": {...}}.\n- When done, respond with plain text.\nAvailable tools: ");
    let middle = cat5(head.as_str(), catalog, "\nAgent workspace: ", agent_dir, "\nCurrent task workspace: ");
    let base = cat3(middle.as_str(), workspace_dir, "\n- When using write_file or read_file, use simple relative paths (e.g. \"note.md\", \"output/data.csv\"). Paths are resolved relative to the current task workspace automatically. Do NOT construct full workspace paths manually.");
    if is_blank(memory_context) {
        base
    } else {
        cat3(base.as_str(), "\n\n", memory_context)
    }
}

/// The chat role a payload's `role` names, if it names one the model knows.
pub open spec fn chat_role(r: Seq<char>) -> Option<ChatRole> {
    if r == "system"@ {
        Some(ChatRole::System)
    } else if r == "user"@ {
        Some(ChatRole::User)
    } else if r == "assistant"@ {
        Some(ChatRole::Assistant)
    } else if r == "tool"@ {
        Some(ChatRole::Tool)
    } else {
        None
    }
}

pub type ChatView = (ChatRole, Seq<char>, Option<Seq<char>>);

/// A message as the model gets it: its role, its content (empty when it has
/// none) and the tool call it answers; none for a payload without a known role.
pub open spec fn chat_of(p: JsonValue) -> Option<ChatView> {
    match p {
        JsonValue::Object(es) => match str_field(es@, "role"@) {
            Some(r) => match chat_role(r) {
                Some(role) => Some(
                    (
                        role,
                        match str_field(es@, "content"@) {
                            Some(c) => c,
                            None => Seq::empty(),
                        },
                        str_field(es@, "tool_call_id"@),
                    ),
                ),
                None => None,
            },
            None => None,
        },
        _ => None,
    }
}

/// The chat messages of a transcript, in order, leaving out the messages
/// without a known role.
pub open spec fn chat_views(ms: Seq<Message>) -> Seq<ChatView>
    decreases ms.len(),
{
    if ms.len() == 0 {
        seq![]
    } else {
        match chat_of(ms.last().payload) {
            Some(c) => chat_views(ms.drop_last()).push(c),
            None => chat_views(ms.drop_last()),
        }
    }
}

pub open spec fn chat_view(m: ChatMessage) -> ChatView {
    (m.role, m.content@, opt_string(m.tool_call_id))
}

fn role_of(r: &str) -> (res: Option<ChatRole>)
    ensures
        res == chat_role(r@),
{
    if crate::text::str_eq(r, "system") {
        Some(ChatRole::System)
    } else if crate::text::str_eq(r, "user") {
        Some(ChatRole::User)
    } else if crate::text::str_eq(r, "assistant") {
        Some(ChatRole::Assistant)
    } else if crate::text::str_eq(r, "tool") {
        Some(ChatRole::Tool)
    } else {
        None
    }
}

fn chat_message(p: &JsonValue) -> (res: Option<ChatMessage>)
    ensures
        match res {
            Some(m) => chat_of(*p) == Some(chat_view(m)),
            None => chat_of(*p) is None,
        },
{
    let es = match p {
        JsonValue::Object(es) => es,
        _ => {
            return None;
        },
    };
    let role = match get_str_field(es, "role") {
        Some(r) => match role_of(r) {
            Some(role) => role,
            None => {
                return None;
            },
        },
        None => {
            return None;
        },
    };
    let content = match get_str_field(es, "content") {
        Some(c) => c.to_owned(),
        None => String::new(),
    };
    let tool_call_id = match get_str_field(es, "tool_call_id") {
        Some(t) => Some(t.to_owned()),
        None => None,
    };
    Some(ChatMessage { role, content, tool_call_id })
}

/// The transcript as the model gets it (see `chat_views`).
pub fn to_llm_messages(messages: &[Message]) -> (res: Vec<ChatMessage>)
    ensures
        res@.map_values(|m: ChatMessage| chat_view(m)) == chat_views(messages@),
{
    let mut out: Vec<ChatMessage> = Vec::new();
    let mut i: usize = 0;
    while i < messages.len()
        invariant
            i <= messages@.len(),
            out@.map_values(|m: ChatMessage| chat_view(m)) == chat_views(messages@.take(i as int)),
        decreases messages@.len() - i,
    {
        let ghost prev = out@;
        let c = chat_message(&messages[i].payload);
        proof {
            assert(messages@.take(i + 1).drop_last() =~= messages@.take(i as int));
            assert(messages@.take(i + 1).last() == messages@[i as int]);
        }
        match c {
            Some(m) => {
                out.push(m);
                proof {
                    assert(out@.map_values(|m: ChatMessage| chat_view(m)) =~= prev.map_values(
                        |m: ChatMessage| chat_view(m),
                    ).push(chat_view(m)));
                }
            },
            None => {},
        }
        i = i + 1;
    }
    proof {
        assert(messages@.take(messages@.len() as int) =~= messages@);
    }
    out
}

/// The tools a catalog offers: each entry's name and its `description`
/// text, if it has one; none when the catalog is not an object.
pub open spec fn tool_definitions_spec(catalog: JsonValue) -> Seq<(Seq<char>, Option<Seq<char>>)> {
    match catalog {
        JsonValue::Object(es) => es@.map_values(
            |e: (String, JsonValue)|
                (
                    e.0@,
                    match e.1 {
                        JsonValue::Object(d) => str_field(d@, "description"@),
                        _ => None,
                    },
                ),
        ),
        _ => seq![],
    }
}

pub fn tool_definitions(catalog: &JsonValue) -> (res: Vec<ToolDefinition>)
    ensures
        res@.map_values(|d: ToolDefinition| (d.name@, opt_string(d.description))) == tool_definitions_spec(
            *catalog,
        ),
{
    let mut out: Vec<ToolDefinition> = Vec::new();
    let es = match catalog {
        JsonValue::Object(es) => es,
        _ => {
            proof {
                assert(out@.map_values(|d: ToolDefinition| (d.name@, opt_string(d.description))) =~= seq![]);
            }
            return out;
        },
    };
    let mut i: usize = 0;
    while i < es.len()
        invariant
            i <= es@.len(),
            out@.len() == i,
            forall|k: int|
                0 <= k < i ==> (#[trigger] out@[k]).name@ == es@[k].0@ && opt_string(out@[k].description) == (
                match es@[k].1 {
                    JsonValue::Object(d) => str_field(d@, "description"@),
                    _ => None,
                }),
        decreases es@.len() - i,
    {
        let description = match &es[i].1 {
            JsonValue::Object(d) => match get_str_field(d, "description") {
                Some(t) => Some(t.to_owned()),
                None => None,
            },
            _ => None,
        };
        out.push(ToolDefinition { name: es[i].0.clone(), description });
        i = i + 1;
    }
    proof {
        assert(out@.map_values(|d: ToolDefinition| (d.name@, opt_string(d.description))) =~= tool_definitions_spec(
            *catalog,
        ));
    }
    out
}

/// A tool call an assistant turn asks for.
pub struct ToolInvocation {
    pub name: String,
    pub args: JsonValue,
    pub call_id: Option<String>,
}

/// The `function` object of a native tool call, if it has one.
pub open spec fn function_of(call: JsonValue) -> Option<Seq<(String, JsonValue)>> {
    match call {
        JsonValue::Object(es) => match field(es@, "function"@) {
            Some(JsonValue::Object(f)) => Some(f@),
            _ => None,
        },
        _ => None,
    }
}

/// A native tool call read: the function's `name` (empty when missing), its
/// `arguments` (a text is parsed as JSON, and stands for itself as a JSON
/// string when it does not parse; any other value is taken as it is; null
/// when missing) and the call's `id`.
pub open spec fn native_invocation_ok(call: JsonValue, inv: ToolInvocation) -> bool {
    &&& inv.name@ == (match function_of(call) {
        Some(f) => match str_field(f, "name"@) {
            Some(n) => n,
            None => Seq::empty(),
        },
        None => Seq::empty(),
    })
    &&& match function_of(call) {
        Some(f) => match field(f, "arguments"@) {
            Some(JsonValue::String(raw)) => match json_parse(raw@) {
                Some(v) => inv.args == v,
                None => inv.args matches JsonValue::String(t) && t@ == raw@,
            },
            Some(v) => inv.args == v,
            None => inv.args == JsonValue::Null,
        },
        None => inv.args == JsonValue::Null,
    }
    &&& opt_string(inv.call_id) == (match call {
        JsonValue::Object(es) => str_field(es@, "id"@),
        _ => None,
    })
}

/// The native tool calls of an assistant turn: its `tool_calls` array, if any.
pub open spec fn native_calls(message: JsonValue) -> Seq<JsonValue> {
    match message {
        JsonValue::Object(es) => match field(es@, "tool_calls"@) {
            Some(JsonValue::Array(items)) => items@,
            _ => seq![],
        },
        _ => seq![],
    }
}

/// The text content of an assistant turn, if it has one.
pub open spec fn message_content(message: JsonValue) -> Option<Seq<char>> {
    match message {
        JsonValue::Object(es) => str_field(es@, "content"@),
        _ => None,
    }
}

fn read_native_call(call: JsonValue) -> (inv: ToolInvocation)
    ensures
        native_invocation_ok(call, inv),
{
    let ghost given = call;
    let mut es = match call {
        JsonValue::Object(es) => es,
        _ => {
            return ToolInvocation { name: String::new(), args: JsonValue::Null, call_id: None };
        },
    };
    let call_id = match get_str_field(&es, "id") {
        Some(id) => Some(id.to_owned()),
        None => None,
    };
    let fi = match crate::json::find_field(&es, "function") {
        Some(fi) => fi,
        None => {
            return ToolInvocation { name: String::new(), args: JsonValue::Null, call_id };
        },
    };
    let (_, function) = es.remove(fi);
    let mut f = match function {
        JsonValue::Object(f) => f,
        _ => {
            return ToolInvocation { name: String::new(), args: JsonValue::Null, call_id };
        },
    };
    let ghost fv = f@;
    let name = match get_str_field(&f, "name") {
        Some(n) => n.to_owned(),
        None => String::new(),
    };
    let args = match crate::json::find_field(&f, "arguments") {
        Some(ai) => {
            let (_, a) = f.remove(ai);
            proof {
                assert(a == fv[ai as int].1);
            }
            match a {
                JsonValue::String(raw) => match parse_json(raw.as_str()) {
                    Some(v) => v,
                    None => JsonValue::String(raw),
                },
                other => other,
            }
        },
        None => JsonValue::Null,
    };
    ToolInvocation { name, args, call_id }
}

/// The tool calls an assistant turn asks for: its native calls, in order,
/// or, when it has none, the single call embedded in its text content (see
/// `embedded_tool_call`), if there is one.
pub fn extract_tool_invocations(message: JsonValue) -> (res: Vec<ToolInvocation>)
    ensures
        native_calls(message).len() > 0 ==> {
            &&& res@.len() == native_calls(message).len()
            &&& forall|k: int| 0 <= k < res@.len() ==> native_invocation_ok(native_calls(message)[k], #[trigger] res@[k])
        },
        native_calls(message).len() == 0 ==> match message_content(message) {
            Some(c) => match embedded_tool_call(c) {
                Some((name, args)) => res@.len() == 1 && res@[0].name@ == name && res@[0].args == args
                    && res@[0].call_id is None,
                None => res@.len() == 0,
            },
            None => res@.len() == 0,
        },
{
    let ghost given = message;
    let mut es = match message {
        JsonValue::Object(es) => es,
        _ => {
            return Vec::new();
        },
    };
    let ghost ev = es@;
    let content: Option<String> = match get_str_field(&es, "content") {
        Some(c) => Some(c.to_owned()),
        None => None,
    };
    let mut calls: Vec<JsonValue> = match crate::json::find_field(&es, "tool_calls") {
        Some(ti) => {
            let (_, t) = es.remove(ti);
            proof {
                assert(t == ev[ti as int].1);
            }
            match t {
                JsonValue::Array(items) => items,
                _ => Vec::new(),
            }
        },
        None => Vec::new(),
    };
    let ghost all = calls@;
    proof {
        assert(all == native_calls(given));
    }
    if calls.len() > 0 {
        let mut out: Vec<ToolInvocation> = Vec::new();
        let n = calls.len();
        while calls.len() > 0
            invariant
                n == all.len(),
                calls@ == all.skip(out@.len() as int),
                out@.len() <= n,
                forall|k: int| 0 <= k < out@.len() ==> native_invocation_ok(all[k], #[trigger] out@[k]),
            decreases calls@.len(),
        {
            let ghost before = calls@;
            let call = calls.remove(0);
            proof {
                assert(call == all[out@.len() as int]);
                assert(calls@ =~= all.skip(out@.len() as int + 1));
            }
            out.push(read_native_call(call));
        }
        return out;
    }
    let mut out: Vec<ToolInvocation> = Vec::new();
    if let Some(c) = content {
        if let Some((name, args)) = extract_embedded_tool_call(c.as_str()) {
            out.push(ToolInvocation { name, args, call_id: None });
        }
    }
    out
}

/// The model an agent uses: its definition's, unless blank, else the one
/// the environment names (`ENKI_MODEL`, read by the caller).
pub fn resolve_model(model: &str, env_model: Option<String>) -> (res: Result<String, String>)
    ensures
        match res {
            Ok(m) => if trim_seq(model@).len() > 0 {
                m@ == model@
            } else {
                env_model matches Some(e) && m == e
            },
            Err(e) => trim_seq(model@).len() == 0 && env_model is None
                && e@ == "Missing model. Set AgentDefinition.model or ENKI_MODEL."@,
        },
{
    if !is_blank(model) {
        return Ok(model.to_owned());
    }
    match env_model {
        Some(m) => Ok(m),
        None => Err("Missing model. Set AgentDefinition.model or ENKI_MODEL.".to_owned()),
    }
}

/// Why an agent that brings no model provider of its own cannot be built
/// here: its model is resolved first (a missing model is reported as such),
/// and no built-in provider serves the resolved model.
pub fn default_provider_error(model: &str, env_model: Option<String>) -> (res: String)
    ensures
        trim_seq(model@).len() > 0 ==> res@ == "No built-in LLM provider is available for model `"@ + model@
            + "`. Supply a custom LlmProvider or enable the `universal-llm-provider` feature."@,
        trim_seq(model@).len() == 0 ==> match env_model {
            Some(e) => res@ == "No built-in LLM provider is available for model `"@ + e@
                + "`. Supply a custom LlmProvider or enable the `universal-llm-provider` feature."@,
            None => res@ == "Missing model. Set AgentDefinition.model or ENKI_MODEL."@,
        },
{
    match resolve_model(model, env_model) {
        Ok(m) => crate::llm::no_provider_error(m.as_str()),
        Err(e) => e,
    }
}

/// Starts a turn: a new session opens with the system prompt, then the
/// user's message follows, answering the last message.
pub fn begin_turn(messages: &mut Vec<Message>, system_prompt: String, user_message: &str)
    ensures
        ({
            let start = if old(messages)@.len() == 0 {
                1int
            } else {
                0int
            };
            &&& final(messages)@.len() == old(messages)@.len() + start + 1
            &&& final(messages)@.take(old(messages)@.len() as int) == old(messages)@
            &&& old(messages)@.len() == 0 ==> (final(messages)@[0].sender@ == "system"@
                && crate::message::is_role_payload(final(messages)@[0].payload, "system"@, system_prompt@)
                && final(messages)@[0].prev_message_id is None)
            &&& ({
                let u = final(messages)@.last();
                let before = final(messages)@[final(messages)@.len() - 2];
                &&& u.sender@ == "user"@
                &&& opt_string(u.prev_message_id) == Some(before.message_id@)
                &&& u.payload matches JsonValue::Object(es) && es@.len() == 3 && crate::message::is_text_entry(
                    es@[0],
                    "content"@,
                    user_message@,
                ) && es@[1].0@ == "request_id"@ && (es@[1].1 matches JsonValue::String(r)
                    && is_turn_request_id(r@)) && crate::message::is_text_entry(es@[2], "role"@, "user"@)
            })
        }),
{
    let ghost before = messages@;
    if messages.len() == 0 {
        messages.push(Message::system(system_prompt));
    }
    let ghost mid = messages@;
    let request_id = next_request_id();
    let prev = Some(messages[messages.len() - 1].message_id.clone());
    messages.push(Message::user(user_message.to_owned(), request_id, prev, None));
    proof {
        assert(messages@.take(before.len() as int) =~= before);
        assert(messages@[messages@.len() - 2] == mid.last());
    }
}

/// Records a failed run's final answer as the assistant's last message.
pub fn push_assistant_reply(messages: &mut Vec<Message>, content: String)
    ensures
        final(messages)@.len() == old(messages)@.len() + 1,
        final(messages)@.drop_last() == old(messages)@,
        final(messages)@.last().sender@ == "assistant"@,
        crate::message::is_role_payload(final(messages)@.last().payload, "assistant"@, content@),
{
    let payload = crate::message::role_payload("assistant", content);
    let ghost pv = payload;
    proof {
        reveal_strlit("content");
        reveal_strlit("role");
        if let JsonValue::Object(es) = pv {
            assert(es@[0].0@ != "role"@) by {
                assert(es@[0].0@[0] != "role"@[0]);
            }
            assert(crate::json::field_index_from(es@, "role"@, 1) == Some(1int));
        }
    }
    crate::message::push_out_message(messages, payload);
}

} // verus!
