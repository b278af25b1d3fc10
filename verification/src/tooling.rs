//! The tools every agent gets, and the decisions of the tools of a
//! multi-agent runtime: whom an agent may discover, delegate to, or ask. The
//! file system, processes, peers and humans are reached by the caller.
use crate::json::JsonValue;
use crate::registry::{AgentCard, AgentCardView, AgentRegistry, AgentStatus, DiscoverQuery};
use crate::text::{cat3, cat5, concat, decimal, opt_str, str_eq, u128_to_string};
use vstd::prelude::*;

verus! {

pub struct ReadFileTool;

pub struct WriteFileTool;

pub struct ExecTool;

pub struct DiscoverAgentsTool;

pub struct DelegateTaskTool;

pub struct AskHumanTool;


// ---------------------------------------------------------------------------
// Parameter schemas
// ---------------------------------------------------------------------------

/// `v` is the JSON string `s`.
pub open spec fn is_text(v: JsonValue, s: Seq<char>) -> bool {
    match v {
        JsonValue::String(x) => x@ == s,
        _ => false,
    }
}

/// `v` is `{"type": "string"}`, or `{"description": d, "type": "string"}`.
pub open spec fn string_schema(v: JsonValue, description: Option<Seq<char>>) -> bool {
    match v {
        JsonValue::Object(es) => match description {
            None => es@.len() == 1 && es@[0].0@ == "type"@ && is_text(es@[0].1, "string"@),
            Some(d) => es@.len() == 2 && es@[0].0@ == "description"@ && is_text(es@[0].1, d)
                && es@[1].0@ == "type"@ && is_text(es@[1].1, "string"@),
        },
        _ => false,
    }
}

/// `v` is a JSON array of the strings `names`, in order.
pub open spec fn text_array(v: JsonValue, names: Seq<Seq<char>>) -> bool {
    match v {
        JsonValue::Array(xs) => xs@.len() == names.len() && forall|i: int|
            0 <= i < names.len() ==> is_text(#[trigger] xs@[i], names[i]),
        _ => false,
    }
}

/// `v` is the object `{"properties": {...}, "required": [...], "type": "object"}`
/// (keys in this order, `required` only when given) whose properties are string
/// schemas with the given names and optional descriptions, in order.
pub open spec fn object_schema(
    v: JsonValue,
    props: Seq<(Seq<char>, Option<Seq<char>>)>,
    required: Option<Seq<Seq<char>>>,
) -> bool {
    match v {
        JsonValue::Object(es) => {
            let n: int = if required is Some { 3 } else { 2 };
            &&& es@.len() == n
            &&& es@[0].0@ == "properties"@
            &&& match es@[0].1 {
                JsonValue::Object(ps) => ps@.len() == props.len() && forall|i: int|
                    0 <= i < props.len() ==> (#[trigger] ps@[i]).0@ == props[i].0 && string_schema(
                        ps@[i].1,
                        props[i].1,
                    ),
                _ => false,
            }
            &&& match required {
                Some(r) => es@[1].0@ == "required"@ && text_array(es@[1].1, r),
                None => true,
            }
            &&& es@[n - 1].0@ == "type"@
            &&& is_text(es@[n - 1].1, "object"@)
        },
        _ => false,
    }
}

fn text(s: &str) -> (v: JsonValue)
    ensures
        is_text(v, s@),
{
    JsonValue::String(s.to_owned())
}

fn string_property(description: Option<&str>) -> (v: JsonValue)
    ensures
        string_schema(v, opt_str(description)),
{
    let mut es: Vec<(String, JsonValue)> = Vec::new();
    if let Some(d) = description {
        es.push(("description".to_owned(), text(d)));
    }
    es.push(("type".to_owned(), text("string")));
    JsonValue::Object(es)
}

/// An object schema from its properties, in key order, and required names.
fn object_of(props: Vec<(String, JsonValue)>, required: Option<Vec<JsonValue>>) -> (v: JsonValue)
    ensures
        match v {
            JsonValue::Object(es) => {
                &&& es@.len() == (if required is Some { 3int } else { 2int })
                &&& es@[0].0@ == "properties"@
                &&& es@[0].1 == JsonValue::Object(props)
                &&& match required {
                    Some(r) => es@[1].0@ == "required"@ && es@[1].1 == JsonValue::Array(r),
                    None => true,
                }
                &&& es@[es@.len() - 1].0@ == "type"@
                &&& is_text(es@[es@.len() - 1].1, "object"@)
            },
            _ => false,
        },
{
    let mut es: Vec<(String, JsonValue)> = Vec::new();
    es.push(("properties".to_owned(), JsonValue::Object(props)));
    match required {
        Some(r) => {
            es.push(("required".to_owned(), JsonValue::Array(r)));
        },
        None => {},
    }
    es.push(("type".to_owned(), text("object")));
    JsonValue::Object(es)
}

impl ReadFileTool {
    /// `{"properties": {"path": {"type": "string"}}, "required": ["path"], "type": "object"}`
    pub fn parameters(&self) -> (res: JsonValue)
        ensures
            object_schema(res, seq![("path"@, None)], Some(seq!["path"@])),
    {
        let mut props: Vec<(String, JsonValue)> = Vec::new();
        props.push(("path".to_owned(), string_property(None)));
        let mut required: Vec<JsonValue> = Vec::new();
        required.push(text("path"));
        object_of(props, Some(required))
    }

    pub fn name(&self) -> (res: &'static str)
        ensures
            res@ == "read_file"@,
    {
        "read_file"
    }

    pub fn description(&self) -> (res: &'static str)
        ensures
            res@ == "Read file content."@,
    {
        "Read file content."
    }

    /// The answer when the file cannot be read.
    pub fn not_found(&self) -> (res: &'static str)
        ensures
            res@ == "File not found."@,
    {
        "File not found."
    }
}

impl WriteFileTool {
    /// `{"properties": {"content": {"type": "string"}, "path": {"type": "string"}},
    /// "required": ["path", "content"], "type": "object"}`
    pub fn parameters(&self) -> (res: JsonValue)
        ensures
            object_schema(res, seq![("content"@, None), ("path"@, None)], Some(seq!["path"@, "content"@])),
    {
        let mut props: Vec<(String, JsonValue)> = Vec::new();
        props.push(("content".to_owned(), string_property(None)));
        props.push(("path".to_owned(), string_property(None)));
        let mut required: Vec<JsonValue> = Vec::new();
        required.push(text("path"));
        required.push(text("content"));
        object_of(props, Some(required))
    }

    pub fn name(&self) -> (res: &'static str)
        ensures
            res@ == "write_file"@,
    {
        "write_file"
    }

    pub fn description(&self) -> (res: &'static str)
        ensures
            res@ == "Write content to file."@,
    {
        "Write content to file."
    }

    /// The answer to a write: done, or the error.
    pub fn reply(&self, result: Result<(), String>) -> (res: String)
        ensures
            match result {
                Ok(()) => res@ == "File written."@,
                Err(e) => res@ == "Error: "@ + e@,
            },
    {
        match result {
            Ok(()) => "File written.".to_owned(),
            Err(e) => concat("Error: ", e.as_str()),
        }
    }
}

/// A signed integer in decimal.
pub open spec fn signed_decimal(n: int) -> Seq<char> {
    if n < 0 {
        "-"@ + decimal((-n) as nat)
    } else {
        decimal(n as nat)
    }
}

pub fn i32_to_string(n: i32) -> (res: String)
    ensures
        res@ == signed_decimal(n as int),
{
    if n < 0 {
        let m: u128 = (0i64 - n as i64) as u128;
        let d = u128_to_string(m);
        concat("-", d.as_str())
    } else {
        u128_to_string(n as u128)
    }
}

impl ExecTool {
    /// `{"properties": {"cmd": {"type": "string"}}, "required": ["cmd"], "type": "object"}`
    pub fn parameters(&self) -> (res: JsonValue)
        ensures
            object_schema(res, seq![("cmd"@, None)], Some(seq!["cmd"@])),
    {
        let mut props: Vec<(String, JsonValue)> = Vec::new();
        props.push(("cmd".to_owned(), string_property(None)));
        let mut required: Vec<JsonValue> = Vec::new();
        required.push(text("cmd"));
        object_of(props, Some(required))
    }

    pub fn name(&self) -> (res: &'static str)
        ensures
            res@ == "exec"@,
    {
        "exec"
    }

    pub fn description(&self) -> (res: &'static str)
        ensures
            res@ == "Execute shell command safely."@,
    {
        "Execute shell command safely."
    }

    /// The answer of a finished command: its output, its errors and its exit
    /// code (-1 when it has none).
    pub fn report(&self, stdout: &str, stderr: &str, rc: i32) -> (res: String)
        ensures
            res@ == "stdout: "@ + stdout@ + "\nstderr: "@ + stderr@ + "\nrc: "@ + signed_decimal(rc as int),
    {
        let code = i32_to_string(rc);
        let head = cat5("stdout: ", stdout, "\nstderr: ", stderr, "\nrc: ");
        concat(head.as_str(), code.as_str())
    }
}

/// The answer of a tool used outside a multi-agent runtime.
pub fn not_in_runtime_message() -> (res: &'static str)
    ensures
        res@ == "Error: agent is not part of a multi-agent runtime."@,
{
    "Error: agent is not part of a multi-agent runtime."
}

/// The answer when a tool's arguments do not parse.
pub fn bad_arguments_message(error: &str) -> (res: String)
    ensures
        res@ == "Error: failed to parse arguments: "@ + error@,
{
    concat("Error: failed to parse arguments: ", error)
}

impl DiscoverAgentsTool {
    /// Two optional string filters, `capability` and `status`.
    pub fn parameters(&self) -> (res: JsonValue)
        ensures
            object_schema(
                res,
                seq![
                    ("capability"@, Some("Optional capability to filter by, e.g. 'code-gen' or 'research'."@)),
                    ("status"@, Some("Optional status filter: 'online', 'busy', or 'offline'."@)),
                ],
                None,
            ),
    {
        let mut props: Vec<(String, JsonValue)> = Vec::new();
        props.push((
            "capability".to_owned(),
            string_property(Some("Optional capability to filter by, e.g. 'code-gen' or 'research'.")),
        ));
        props.push(("status".to_owned(), string_property(Some("Optional status filter: 'online', 'busy', or 'offline'."))));
        object_of(props, None)
    }

    pub fn name(&self) -> (res: &'static str)
        ensures
            res@ == "discover_agents"@,
    {
        "discover_agents"
    }

    pub fn description(&self) -> (res: &'static str)
        ensures
            res@ == "Discover peer agents registered in the runtime. Returns a JSON array of agent cards matching the query."@,
    {
        "Discover peer agents registered in the runtime. Returns a JSON array of agent cards matching the query."
    }

    /// The peers an agent finds: the registered cards matching the optional
    /// capability and status, in registration order, without the agent
    /// itself. An unknown status is an error.
    pub fn discover(
        &self,
        registry: &AgentRegistry,
        self_agent_id: &str,
        capability: Option<&str>,
        status: Option<&str>,
    ) -> (res: Result<Vec<AgentCard>, String>)
        ensures
            match status {
                Some(s) => AgentStatus::parse_loose(s@) is None ==> (res matches Err(e) && e@
                    == "Error: unknown status '"@ + s@ + "'. Use 'online', 'busy', or 'offline'."@),
                None => true,
            },
            match res {
                Ok(cards) => (status matches Some(s) ==> AgentStatus::parse_loose(s@) is Some)
                    && cards@.map_values(|c: AgentCard| c@) == registry.cards().filter(
                    |c: AgentCardView| peer_matches(c, self_agent_id@, capability, status),
                ),
                Err(_) => status matches Some(s) && AgentStatus::parse_loose(s@) is None,
            },
    {
        let mut query = DiscoverQuery::new();
        if let Some(cap) = capability {
            query = query.with_capability(cap);
        }
        if let Some(s) = status {
            match AgentStatus::from_str_loose(s) {
                Some(st) => {
                    query = query.with_status(st);
                },
                None => {
                    return Err(cat3("Error: unknown status '", s, "'. Use 'online', 'busy', or 'offline'."));
                },
            }
        }
        let found = registry.discover(&query);
        let ghost matched = registry.cards().filter(|c: AgentCardView| query.matches_spec(c));
        let mut out: Vec<AgentCard> = Vec::new();
        let mut i: usize = 0;
        while i < found.len()
            invariant
                i <= found@.len(),
                found@.map_values(|c: AgentCard| c@) == matched,
                out@.map_values(|c: AgentCard| c@) == matched.take(i as int).filter(
                    |c: AgentCardView| c.agent_id != self_agent_id@,
                ),
            decreases found@.len() - i,
        {
            let ghost prev = out@;
            let keep = !str_eq(found[i].agent_id.as_str(), self_agent_id);
            if keep {
                out.push(found[i].clone());
            }
            proof {
                assert(matched.take(i + 1).drop_last() =~= matched.take(i as int));
                assert(matched[i as int] == found@[i as int]@);
                reveal(Seq::filter);
                if keep {
                    assert(out@.map_values(|c: AgentCard| c@) =~= prev.map_values(|c: AgentCard| c@).push(
                        matched[i as int],
                    ));
                } else {
                    assert(out@ == prev);
                }
            }
            i = i + 1;
        }
        proof {
            assert(matched.take(found@.len() as int) =~= matched);
            lemma_filter_filter(registry.cards(), query, self_agent_id@, capability, status);
        }
        Ok(out)
    }
}

/// A card a discovering agent sees: not its own, with the capability and the
/// status asked for.
pub open spec fn peer_matches(
    c: AgentCardView,
    self_agent_id: Seq<char>,
    capability: Option<&str>,
    status: Option<&str>,
) -> bool {
    &&& c.agent_id != self_agent_id
    &&& (capability matches Some(cap) ==> c.has_capability(cap@))
    &&& (status matches Some(s) ==> AgentStatus::parse_loose(s@) == Some(c.status))
}

proof fn lemma_filter_filter(
    cards: Seq<AgentCardView>,
    query: DiscoverQuery,
    self_agent_id: Seq<char>,
    capability: Option<&str>,
    status: Option<&str>,
)
    requires
        capability matches Some(cap) ==> (query.capability matches Some(q) && q@ == cap@),
        capability is None ==> query.capability is None,
        status matches Some(s) ==> AgentStatus::parse_loose(s@) is Some && query.status
            == AgentStatus::parse_loose(s@),
        status is None ==> query.status is None,
    ensures
        cards.filter(|c: AgentCardView| query.matches_spec(c)).filter(
            |c: AgentCardView| c.agent_id != self_agent_id,
        ) == cards.filter(|c: AgentCardView| peer_matches(c, self_agent_id, capability, status)),
    decreases cards.len(),
{
    reveal(Seq::filter);
    let q = |c: AgentCardView| query.matches_spec(c);
    let r = |c: AgentCardView| c.agent_id != self_agent_id;
    let p = |c: AgentCardView| peer_matches(c, self_agent_id, capability, status);
    if cards.len() > 0 {
        let d = cards.drop_last();
        let l = cards.last();
        lemma_filter_filter(d, query, self_agent_id, capability, status);
        assert(cards.filter(q) == d.filter(q) + (if q(l) { seq![l] } else { seq![] })) by {
            assert(cards.filter(q) == if q(l) { d.filter(q).push(l) } else { d.filter(q) });
        }
        Seq::filter_distributes_over_add(d.filter(q), if q(l) { seq![l] } else { seq![] }, r);
        assert((if q(l) { seq![l] } else { Seq::<AgentCardView>::empty() }).filter(r) =~= if p(l) {
            seq![l]
        } else {
            seq![]
        }) by {
            reveal_with_fuel(Seq::filter, 2);
        }
        assert(cards.filter(p) == if p(l) { d.filter(p).push(l) } else { d.filter(p) });
        assert(cards.filter(q).filter(r) =~= cards.filter(p));
    } else {
        assert(cards.filter(q).filter(r) =~= cards.filter(p));
    }
}

impl DelegateTaskTool {
    /// The target agent's id and the task, both required.
    pub fn parameters(&self) -> (res: JsonValue)
        ensures
            object_schema(
                res,
                seq![
                    ("agent_id"@, Some("ID of the target agent to delegate the task to."@)),
                    ("task"@, Some("The task description / prompt to send to the peer agent."@)),
                ],
                Some(seq!["agent_id"@, "task"@]),
            ),
    {
        let mut props: Vec<(String, JsonValue)> = Vec::new();
        props.push(("agent_id".to_owned(), string_property(Some("ID of the target agent to delegate the task to."))));
        props.push(("task".to_owned(), string_property(Some("The task description / prompt to send to the peer agent."))));
        let mut required: Vec<JsonValue> = Vec::new();
        required.push(text("agent_id"));
        required.push(text("task"));
        object_of(props, Some(required))
    }

    pub fn name(&self) -> (res: &'static str)
        ensures
            res@ == "delegate_task"@,
    {
        "delegate_task"
    }

    pub fn description(&self) -> (res: &'static str)
        ensures
            res@ == "Delegate a task to another agent by its agent_id. Returns the peer agent's response."@,
    {
        "Delegate a task to another agent by its agent_id. Returns the peer agent's response."
    }

    /// Whether an agent may hand `target` a task: not itself, and only a
    /// registered agent.
    pub fn check_target(&self, registry: &AgentRegistry, self_agent_id: &str, target: &str) -> (res: Result<
        (),
        String,
    >)
        requires
            registry.wf(),
        ensures
            match res {
                Ok(()) => target@ != self_agent_id@ && registry.view_map().contains_key(target@),
                Err(e) => if target@ == self_agent_id@ {
                    e@ == "Error: cannot delegate a task to yourself."@
                } else {
                    !registry.view_map().contains_key(target@) && e@ == "Error: agent '"@ + target@
                        + "' not found in registry."@
                },
            },
    {
        if str_eq(target, self_agent_id) {
            return Err("Error: cannot delegate a task to yourself.".to_owned());
        }
        match registry.get(target) {
            Some(_) => Ok(()),
            None => Err(cat3("Error: agent '", target, "' not found in registry.")),
        }
    }

    /// The answer of a delegation: the peer's reply, or the error.
    pub fn reply(&self, result: Result<String, String>) -> (res: String)
        ensures
            match result {
                Ok(r) => res == r,
                Err(e) => res@ == "Error: delegation failed: "@ + e@,
            },
    {
        match result {
            Ok(r) => r,
            Err(e) => concat("Error: delegation failed: ", e.as_str()),
        }
    }
}

impl AskHumanTool {
    /// The question for the human, required.
    pub fn parameters(&self) -> (res: JsonValue)
        ensures
            object_schema(
                res,
                seq![("query"@, Some("The question or prompt to present to the human user."@))],
                Some(seq!["query"@]),
            ),
    {
        let mut props: Vec<(String, JsonValue)> = Vec::new();
        props.push(("query".to_owned(), string_property(Some("The question or prompt to present to the human user."))));
        let mut required: Vec<JsonValue> = Vec::new();
        required.push(text("query"));
        object_of(props, Some(required))
    }

    pub fn name(&self) -> (res: &'static str)
        ensures
            res@ == "ask_human"@,
    {
        "ask_human"
    }

    pub fn description(&self) -> (res: &'static str)
        ensures
            res@ == "Ask the human user a question or request confirmation. Agent execution will pause until the human responds. Use this when you need clarification, approval, or any input that only a human can provide."@,
    {
        "Ask the human user a question or request confirmation. Agent execution will pause until the human responds. Use this when you need clarification, approval, or any input that only a human can provide."
    }

    /// The answer when no human can be asked.
    pub fn unavailable(&self) -> (res: &'static str)
        ensures
            res@ == "Error: human-in-the-loop is not available. No human channel is configured for this agent."@,
    {
        "Error: human-in-the-loop is not available. No human channel is configured for this agent."
    }

    /// The answer of a question: the human's reply, or the error.
    pub fn reply(&self, result: Result<String, String>) -> (res: String)
        ensures
            match result {
                Ok(r) => res == r,
                Err(e) => res@ == "Error: failed to get human response: "@ + e@,
            },
    {
        match result {
            Ok(r) => r,
            Err(e) => concat("Error: failed to get human response: ", e.as_str()),
        }
    }
}

} // verus!
