//! The messages of a session transcript: who sent each, the message it
//! answers, and its JSON payload (`role`, `content`, and, for an assistant
//! turn, its `tool_calls`).
use crate::json::{field, get_field, get_str_field, str_field, JsonValue};
use crate::runtime::types::current_timestamp_nanos;
use crate::text::{concat, decimal, opt_string, u128_to_string, usize_to_string};
use vstd::prelude::*;

verus! {

pub struct Message {
    pub message_id: String,
    pub prev_message_id: Option<String>,
    pub sender: String,
    pub payload: JsonValue,
}

pub open spec fn message_id_spec(nanos: nat) -> Seq<char> {
    "msg-"@ + decimal(nanos)
}

/// `s` is the id of a message made at some time.
pub open spec fn is_message_id(s: Seq<char>) -> bool {
    exists|t: nat| #[trigger] message_id_spec(t) == s
}

/// The id of a message made now: `msg-` and the time in nanoseconds.
pub fn next_message_id() -> (res: String)
    ensures
        is_message_id(res@),
{
    let now = current_timestamp_nanos();
    let n = u128_to_string(now);
    let id = concat("msg-", n.as_str());
    proof {
        assert(message_id_spec(now as nat) == id@);
    }
    id
}

pub open spec fn request_id_spec(nanos: nat) -> Seq<char> {
    "req-"@ + decimal(nanos)
}

/// `s` is the id of a request made at some time.
pub open spec fn is_turn_request_id(s: Seq<char>) -> bool {
    exists|t: nat| #[trigger] request_id_spec(t) == s
}

/// The id of a user turn made now: `req-` and the time in nanoseconds.
pub fn next_request_id() -> (res: String)
    ensures
        is_turn_request_id(res@),
{
    let now = current_timestamp_nanos();
    let n = u128_to_string(now);
    let id = concat("req-", n.as_str());
    proof {
        assert(request_id_spec(now as nat) == id@);
    }
    id
}

/// `e` is the entry `k: "s"`.
pub open spec fn is_text_entry(e: (String, JsonValue), k: Seq<char>, s: Seq<char>) -> bool {
    e.0@ == k && (e.1 matches JsonValue::String(x) && x@ == s)
}

/// The payload `{"content": content, "role": role}`.
pub open spec fn is_role_payload(v: JsonValue, role: Seq<char>, content: Seq<char>) -> bool {
    &&& v matches JsonValue::Object(es)
    &&& es@.len() == 2
    &&& is_text_entry(es@[0], "content"@, content)
    &&& is_text_entry(es@[1], "role"@, role)
}

fn text_entry(k: &str, s: String) -> (e: (String, JsonValue))
    ensures
        is_text_entry(e, k@, s@),
{
    (k.to_owned(), JsonValue::String(s))
}

/// The payload `{"content": content, "role": role}`.
pub fn role_payload(role: &str, content: String) -> (v: JsonValue)
    ensures
        is_role_payload(v, role@, content@),
{
    let mut es: Vec<(String, JsonValue)> = Vec::new();
    es.push(text_entry("content", content));
    es.push(text_entry("role", role.to_owned()));
    JsonValue::Object(es)
}

/// The role a payload names, if it names one.
pub open spec fn payload_role(p: JsonValue) -> Option<Seq<char>> {
    match p {
        JsonValue::Object(es) => str_field(es@, "role"@),
        _ => None,
    }
}

pub fn get_payload_role(p: &JsonValue) -> (res: Option<&str>)
    ensures
        match res {
            Some(r) => payload_role(*p) == Some(r@),
            None => payload_role(*p) is None,
        },
{
    match p {
        JsonValue::Object(es) => get_str_field(es, "role"),
        _ => None,
    }
}

/// Who sent a payload: its role, else the assistant.
pub open spec fn sender_of(p: JsonValue) -> Seq<char> {
    match payload_role(p) {
        Some(r) => r,
        None => "assistant"@,
    }
}


impl Message {
    /// The system prompt that opens a session.
    pub fn system(content: String) -> (m: Self)
        ensures
            is_message_id(m.message_id@),
            m.prev_message_id is None,
            m.sender@ == "system"@,
            is_role_payload(m.payload, "system"@, content@),
    {
        Message {
            message_id: next_message_id(),
            prev_message_id: None,
            sender: "system".to_owned(),
            payload: role_payload("system", content),
        }
    }

    /// A user's message, answering `prev_message_id`; sent by the user it
    /// names, else by `user`.
    pub fn user(content: String, request_id: String, prev_message_id: Option<String>, user_id: Option<String>) -> (m:
        Self)
        ensures
            is_message_id(m.message_id@),
            m.prev_message_id == prev_message_id,
            m.sender@ == (match user_id {
                Some(u) => u@,
                None => "user"@,
            }),
            m.payload matches JsonValue::Object(es) && es@.len() == 3 && is_text_entry(es@[0], "content"@, content@)
                && is_text_entry(es@[1], "request_id"@, request_id@) && is_text_entry(es@[2], "role"@, "user"@),
    {
        let sender = match user_id {
            Some(u) => u,
            None => "user".to_owned(),
        };
        let mut es: Vec<(String, JsonValue)> = Vec::new();
        es.push(text_entry("content", content));
        es.push(text_entry("request_id", request_id));
        es.push(text_entry("role", "user".to_owned()));
        Message { message_id: next_message_id(), prev_message_id, sender, payload: JsonValue::Object(es) }
    }

    /// A message the agent side produced (an assistant turn or a tool
    /// result), sent by the role its payload names.
    pub fn out(payload: JsonValue, prev_message_id: Option<String>) -> (m: Self)
        ensures
            is_message_id(m.message_id@),
            m.prev_message_id == prev_message_id,
            m.sender@ == sender_of(payload),
            m.payload == payload,
    {
        let sender = match get_payload_role(&payload) {
            Some(r) => r.to_owned(),
            None => "assistant".to_owned(),
        };
        Message { message_id: next_message_id(), prev_message_id, sender, payload }
    }

    /// The record a transcript stores: `message_id`, `payload`,
    /// `prev_message_id` when there is one, and `sender`.
    pub fn to_record(self) -> (v: JsonValue)
        ensures
            v matches JsonValue::Object(es) && match self.prev_message_id {
                Some(p) => es@.len() == 4 && is_text_entry(es@[0], "message_id"@, self.message_id@)
                    && es@[1].0@ == "payload"@ && es@[1].1 == self.payload && is_text_entry(
                    es@[2],
                    "prev_message_id"@,
                    p@,
                ) && is_text_entry(es@[3], "sender"@, self.sender@),
                None => es@.len() == 3 && is_text_entry(es@[0], "message_id"@, self.message_id@)
                    && es@[1].0@ == "payload"@ && es@[1].1 == self.payload && is_text_entry(
                    es@[2],
                    "sender"@,
                    self.sender@,
                ),
            },
    {
        let Message { message_id, prev_message_id, sender, payload } = self;
        let mut es: Vec<(String, JsonValue)> = Vec::new();
        es.push(text_entry("message_id", message_id));
        es.push(("payload".to_owned(), payload));
        if let Some(p) = prev_message_id {
            es.push(text_entry("prev_message_id", p));
        }
        es.push(text_entry("sender", sender));
        JsonValue::Object(es)
    }
}

/// The id given to the `index`-th record of a transcript that carries none.
pub open spec fn legacy_id(index: nat) -> Seq<char> {
    "legacy-msg-"@ + decimal(index)
}

/// A transcript record read back: a record with a `payload` keeps its id
/// (else the legacy id), the message it answers and its sender (else the
/// payload's role, else the assistant); a bare payload with a `role` is
/// taken as it is, sent by that role; anything else is not a message.
pub open spec fn from_record_ok(index: nat, value: JsonValue, m: Message) -> bool {
    &&& value matches JsonValue::Object(es)
    &&& match field(es@, "payload"@) {
        Some(p) => {
            &&& m.message_id@ == (match str_field(es@, "message_id"@) {
                Some(id) => id,
                None => legacy_id(index),
            })
            &&& opt_string(m.prev_message_id) == str_field(es@, "prev_message_id"@)
            &&& m.sender@ == (match str_field(es@, "sender"@) {
                Some(s) => s,
                None => sender_of(p),
            })
            &&& m.payload == p
        },
        None => {
            &&& str_field(es@, "role"@) matches Some(r)
            &&& m.message_id@ == legacy_id(index)
            &&& m.prev_message_id is None
            &&& m.sender@ == r
            &&& m.payload == value
        },
    }
}

/// Whether a transcript record reads back as a message at all.
pub open spec fn is_record(value: JsonValue) -> bool {
    value matches JsonValue::Object(es) && (field(es@, "payload"@) is Some || str_field(es@, "role"@) is Some)
}

fn owned(s: Option<&str>) -> (res: Option<String>)
    ensures
        opt_string(res) == match s {
            Some(x) => Some(x@),
            None => None,
        },
{
    match s {
        Some(x) => Some(x.to_owned()),
        None => None,
    }
}

/// Reads back the `index`-th record of a transcript.
pub fn from_record(index: usize, value: JsonValue) -> (res: Option<Message>)
    ensures
        match res {
            Some(m) => from_record_ok(index as nat, value, m),
            None => !is_record(value),
        },
{
    let es = match value {
        JsonValue::Object(es) => es,
        _ => {
            return None;
        },
    };
    let ghost given = es@;
    let n = usize_to_string(index);
    let legacy = concat("legacy-msg-", n.as_str());
    match crate::json::find_field(&es, "payload") {
        Some(i) => {
            let message_id = match get_str_field(&es, "message_id") {
                Some(id) => id.to_owned(),
                None => legacy,
            };
            let prev_message_id = owned(get_str_field(&es, "prev_message_id"));
            let sender = owned(get_str_field(&es, "sender"));
            let mut es = es;
            let (_, payload) = es.remove(i);
            proof {
                assert(payload == given[i as int].1);
            }
            let sender = match sender {
                Some(s) => s,
                None => match get_payload_role(&payload) {
                    Some(r) => r.to_owned(),
                    None => "assistant".to_owned(),
                },
            };
            Some(Message { message_id, prev_message_id, sender, payload })
        },
        None => {
            let role = match get_str_field(&es, "role") {
                Some(r) => r.to_owned(),
                None => {
                    return None;
                },
            };
            Some(Message { message_id: legacy, prev_message_id: None, sender: role, payload: JsonValue::Object(es) })
        },
    }
}

/// Appends a message the agent side produced, answering the last message.
pub fn push_out_message(messages: &mut Vec<Message>, value: JsonValue)
    ensures
        final(messages)@.len() == old(messages)@.len() + 1,
        final(messages)@.drop_last() == old(messages)@,
        ({
            let m = final(messages)@.last();
            &&& is_message_id(m.message_id@)
            &&& opt_string(m.prev_message_id) == (if old(messages)@.len() > 0 {
                Some(old(messages)@.last().message_id@)
            } else {
                None
            })
            &&& m.sender@ == sender_of(value)
            &&& m.payload == value
        }),
{
    let prev = if messages.len() > 0 {
        Some(messages[messages.len() - 1].message_id.clone())
    } else {
        None
    };
    let m = Message::out(value, prev);
    messages.push(m);
    proof {
        assert(messages@.drop_last() =~= old(messages)@);
    }
}

/// How many tool calls the assistant turns of a transcript made: the
/// lengths of their `tool_calls` arrays, added up.
pub open spec fn tool_call_count(ms: Seq<Message>) -> nat
    decreases ms.len(),
{
    if ms.len() == 0 {
        0
    } else {
        tool_call_count(ms.drop_last()) + calls_in(ms.last().payload)
    }
}

pub open spec fn calls_in(p: JsonValue) -> nat {
    match p {
        JsonValue::Object(es) => match field(es@, "tool_calls"@) {
            Some(JsonValue::Array(items)) => items@.len(),
            _ => 0,
        },
        _ => 0,
    }
}

fn calls_in_payload(p: &JsonValue) -> (res: usize)
    ensures
        res == calls_in(*p),
{
    match p {
        JsonValue::Object(es) => match get_field(es, "tool_calls") {
            Some(JsonValue::Array(items)) => items.len(),
            _ => 0,
        },
        _ => 0,
    }
}

pub proof fn lemma_tool_call_count_prefix(ms: Seq<Message>, i: int)
    requires
        0 <= i <= ms.len(),
    ensures
        tool_call_count(ms.take(i)) <= tool_call_count(ms),
    decreases ms.len() - i,
{
    if i < ms.len() {
        lemma_tool_call_count_prefix(ms, i + 1);
        assert(ms.take(i + 1).drop_last() =~= ms.take(i));
    } else {
        assert(ms.take(i) =~= ms);
    }
}

/// The tool calls a transcript's messages made (see `tool_call_count`); the
/// total fits in a `usize`.
pub fn tool_calls_from_messages(messages: &[Message]) -> (res: usize)
    requires
        tool_call_count(messages@) <= usize::MAX,
    ensures
        res == tool_call_count(messages@),
{
    let mut total: usize = 0;
    let mut i: usize = 0;
    while i < messages.len()
        invariant
            i <= messages@.len(),
            tool_call_count(messages@) <= usize::MAX,
            total == tool_call_count(messages@.take(i as int)),
        decreases messages@.len() - i,
    {
        proof {
            assert(messages@.take(i + 1).drop_last() =~= messages@.take(i as int));
            lemma_tool_call_count_prefix(messages@, i + 1);
        }
        total = total + calls_in_payload(&messages[i].payload);
        i = i + 1;
    }
    proof {
        assert(messages@.take(messages@.len() as int) =~= messages@);
    }
    total
}

} // verus!
