//! `enki agent add`: the manifest entry of a new agent and, for a scripted
//! agent, its Python boilerplate.
use crate::text::{cat3, cat5, chars_of, char_is_ws, char_lower, char_upper, concat, is_ws, lower, upper,
    replace_all, replace_spec, string_from};
use vstd::prelude::*;

verus! {

/// PascalCase of `s` after its first `n` characters, with whether the next
/// letter starts a word: `_`, `-` and whitespace separate words and are
/// dropped; a word's first character is upper-cased, the others lower-cased.
pub open spec fn pascal_state(s: Seq<char>, n: int) -> (Seq<char>, bool)
    decreases n,
{
    if n <= 0 {
        (seq![], true)
    } else {
        let prev = pascal_state(s, n - 1);
        let c = s[n - 1];
        if c == '_' || c == '-' || is_ws(c) {
            (prev.0, true)
        } else if prev.1 {
            (prev.0.push(upper(c)), false)
        } else {
            (prev.0.push(lower(c)), false)
        }
    }
}

pub open spec fn pascal_spec(s: Seq<char>) -> Seq<char> {
    pascal_state(s, s.len() as int).0
}

pub fn to_pascal_case(s: &str) -> (res: String)
    ensures
        res@ == pascal_spec(s@),
{
    let chars = chars_of(s);
    let mut out: Vec<char> = Vec::new();
    let mut capitalize_next = true;
    let mut i: usize = 0;
    while i < chars.len()
        invariant
            i <= chars@.len(),
            chars@ == s@,
            pascal_state(s@, i as int) == (out@, capitalize_next),
        decreases chars@.len() - i,
    {
        let c = chars[i];
        if c == '_' || c == '-' || char_is_ws(c) {
            capitalize_next = true;
        } else if capitalize_next {
            out.push(char_upper(c));
            capitalize_next = false;
        } else {
            out.push(char_lower(c));
        }
        i = i + 1;
    }
    string_from(&out)
}

pub open spec fn agent_entry_spec(agent_id: Seq<char>, agent_name: Seq<char>, scripted: bool) -> Seq<char> {
    "\n[[agent]]\nid = \""@ + agent_id + "\"\nname = \""@ + agent_name
        + "\"\nmodel = \"ollama::qwen3.5\"\nsystem_prompt = \"You are a helpful assistant.\"\n"@ + if scripted {
        "script = \""@ + agent_script_path_spec(agent_id) + "\"\n"@
    } else {
        seq![]
    }
}

pub open spec fn agent_script_path_spec(agent_id: Seq<char>) -> Seq<char> {
    "src/agents/"@ + agent_id + ".py"@
}

/// Where a scripted agent's Python file goes, relative to the manifest.
pub fn agent_script_path(agent_id: &str) -> (res: String)
    ensures
        res@ == agent_script_path_spec(agent_id@),
{
    cat3("src/agents/", agent_id, ".py")
}

/// The `[[agent]]` entry appended to the manifest for a new agent.
pub fn render_agent_entry(agent_id: &str, agent_name: &str, scripted: bool) -> (res: String)
    ensures
        res@ == agent_entry_spec(agent_id@, agent_name@, scripted),
{
    let head = cat5(
        "\n[[agent]]\nid = \"",
        agent_id,
        "\"\nname = \"",
        agent_name,
        "\"\nmodel = \"ollama::qwen3.5\"\nsystem_prompt = \"You are a helpful assistant.\"\n",
    );
    if scripted {
        let path = agent_script_path(agent_id);
        let line = cat3("script = \"", path.as_str(), "\"\n");
        concat(head.as_str(), line.as_str())
    } else {
        proof {
            assert(head@ + seq![] =~= head@);
        }
        head
    }
}

pub open spec fn agent_script_template() -> Seq<char> {
    "from dataclasses import dataclass\nfrom enki_py import Agent, RunContext\n\n@dataclass\nclass AgentDeps:\n    api_key: str = \"dummy_key\"\n\nclass {AGENT_CLASS_NAME}(Agent[AgentDeps]):\n    def __init__(self, model: str, name: str):\n        super().__init__(model, name=name, deps_type=AgentDeps)\n        self.tool(self.dummy_tool)\n\n    def dummy_tool(self, ctx: RunContext[AgentDeps], query: str) -> str:\n        \"\"\"A dummy tool to demonstrate tool calling and dependencies.\"\"\"\n        return f\"Dummy result for '{query}' using key '{ctx.deps.api_key}'\"\n\ndeps = AgentDeps()\nagent = {AGENT_CLASS_NAME}(\"ollama::qwen3.5\", name=\"{AGENT_NAME}\")\n"@
}

/// The Python boilerplate of a scripted agent: the template with the agent's
/// name, and its class named `<PascalName>Agent`.
pub open spec fn agent_script_spec(agent_name: Seq<char>) -> Seq<char> {
    replace_spec(
        replace_spec(agent_script_template(), "{AGENT_NAME}"@, agent_name),
        "{AGENT_CLASS_NAME}"@,
        pascal_spec(agent_name) + "Agent"@,
    )
}

pub fn render_agent_script(agent_name: &str) -> (res: String)
    ensures
        res@ == agent_script_spec(agent_name@),
{
    let class_name = concat(to_pascal_case(agent_name).as_str(), "Agent");
    proof {
        reveal_strlit("{AGENT_NAME}");
        reveal_strlit("{AGENT_CLASS_NAME}");
    }
    let named = replace_all(
        "from dataclasses import dataclass\nfrom enki_py import Agent, RunContext\n\n@dataclass\nclass AgentDeps:\n    api_key: str = \"dummy_key\"\n\nclass {AGENT_CLASS_NAME}(Agent[AgentDeps]):\n    def __init__(self, model: str, name: str):\n        super().__init__(model, name=name, deps_type=AgentDeps)\n        self.tool(self.dummy_tool)\n\n    def dummy_tool(self, ctx: RunContext[AgentDeps], query: str) -> str:\n        \"\"\"A dummy tool to demonstrate tool calling and dependencies.\"\"\"\n        return f\"Dummy result for '{query}' using key '{ctx.deps.api_key}'\"\n\ndeps = AgentDeps()\nagent = {AGENT_CLASS_NAME}(\"ollama::qwen3.5\", name=\"{AGENT_NAME}\")\n",
        "{AGENT_NAME}",
        agent_name,
    );
    replace_all(named.as_str(), "{AGENT_CLASS_NAME}", class_name.as_str())
}

} // verus!
