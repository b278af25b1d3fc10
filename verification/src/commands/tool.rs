//! `enki tool new`: the names, paths and manifest entries of a new Python
//! tool module, and the agent it is attached to.
use crate::manifest::{AgentConfig, Manifest, ToolConfig};
use crate::text::{
    opt_str, opt_string,
    cat3, cat5, concat, join, normalize_name, str_eq, to_kebab_case, to_snake_case, trim_seq, words,
};
use vstd::prelude::*;

verus! {

pub open spec fn agent_ids(m: Manifest) -> Seq<Seq<char>> {
    m.agents@.map_values(|a: AgentConfig| a.id@)
}



pub open spec fn agent_not_found_message(agent_id: Seq<char>) -> Seq<char> {
    "Agent '"@ + agent_id + "' was not found in enki.toml."@
}

/// The agent a new tool is attached to: the one asked for, which must exist;
/// else the only agent of the manifest; else none.
pub open spec fn agent_target_spec(m: Manifest, requested: Option<Seq<char>>) -> Result<
    Option<Seq<char>>,
    Seq<char>,
> {
    match requested {
        Some(id) => if agent_ids(m).contains(id) {
            Ok(Some(id))
        } else {
            Err(agent_not_found_message(id))
        },
        None => if m.agents@.len() == 1 {
            Ok(Some(m.agents@[0].id@))
        } else {
            Ok(None)
        },
    }
}

/// Whether the manifest declares an agent with id `agent_id`.
pub fn has_agent(m: &Manifest, agent_id: &str) -> (res: bool)
    ensures
        res == agent_ids(*m).contains(agent_id@),
{
    let mut i: usize = 0;
    while i < m.agents.len()
        invariant
            i <= m.agents@.len(),
            forall|k: int| 0 <= k < i ==> m.agents@[k].id@ != agent_id@,
        decreases m.agents@.len() - i,
    {
        if str_eq(m.agents[i].id.as_str(), agent_id) {
            proof {
                assert(agent_ids(*m)[i as int] == agent_id@);
            }
            return true;
        }
        i = i + 1;
    }
    proof {
        if agent_ids(*m).contains(agent_id@) {
            let k = choose|k: int| 0 <= k < agent_ids(*m).len() && agent_ids(*m)[k] == agent_id@;
            assert(m.agents@[k].id@ == agent_id@);
        }
    }
    false
}

/// Whether the manifest declares a tool with id `tool_id`.
pub fn has_tool(m: &Manifest, tool_id: &str) -> (res: bool)
    ensures
        res == tool_ids(*m).contains(tool_id@),
{
    let mut i: usize = 0;
    while i < m.tools.len()
        invariant
            i <= m.tools@.len(),
            forall|k: int| 0 <= k < i ==> m.tools@[k].id@ != tool_id@,
        decreases m.tools@.len() - i,
    {
        if str_eq(m.tools[i].id.as_str(), tool_id) {
            proof {
                assert(tool_ids(*m)[i as int] == tool_id@);
            }
            return true;
        }
        i = i + 1;
    }
    proof {
        if tool_ids(*m).contains(tool_id@) {
            let k = choose|k: int| 0 <= k < tool_ids(*m).len() && tool_ids(*m)[k] == tool_id@;
            assert(m.tools@[k].id@ == tool_id@);
        }
    }
    false
}

pub fn resolve_agent_target(m: &Manifest, requested_agent: Option<&str>) -> (res: Result<
    Option<String>,
    String,
>)
    ensures
        match res {
            Ok(t) => agent_target_spec(*m, opt_str(requested_agent)) == Ok::<Option<Seq<char>>, Seq<char>>(opt_string(t)),
            Err(e) => agent_target_spec(*m, opt_str(requested_agent)) == Err::<Option<Seq<char>>, Seq<char>>(e@),
        },
{
    match requested_agent {
        Some(agent_id) => {
            if has_agent(m, agent_id) {
                Ok(Some(agent_id.to_owned()))
            } else {
                Err(cat3("Agent '", agent_id, "' was not found in enki.toml."))
            }
        },
        None => {
            if m.agents.len() == 1 {
                Ok(Some(m.agents[0].id.clone()))
            } else {
                Ok(None)
            }
        },
    }
}

pub open spec fn python_tool_spec(tool_name: Seq<char>, symbol: Seq<char>) -> Seq<char> {
    "import json\nfrom typing import Any\n\nfrom enki_py import Agent\n\n\ndef "@ + symbol
        + "(agent: Agent, config: dict[str, Any] | None = None) -> None:\n    \"\"\"Register tools for "@
        + tool_name
        + ".\"\"\"\n    tool_config = config or {}\n\n    @agent.tool_plain\n    def "@
        + join(words(tool_name), seq!['_']) + "_info"@
        + "() -> str:\n        \"\"\"Return runtime metadata for this tool.\"\"\"\n        return json.dumps(\n            {\n                \"tool\": \""@
        + tool_name
        + "\",\n                \"agent_id\": tool_config.get(\"id\"),\n                \"agent_name\": tool_config.get(\"name\"),\n                \"model\": tool_config.get(\"model\"),\n            }\n        )\n"@
}

/// The Python module of a new tool: a function `symbol` that registers one
/// tool, `<tool_name>_info`, reporting the tool and the agent it runs for.
pub fn render_python_tool(tool_name: &str, symbol: &str) -> (res: String)
    ensures
        res@ == python_tool_spec(tool_name@, symbol@),
{
    let func = concat(to_snake_case(tool_name).as_str(), "_info");
    let head = cat5(
        "import json\nfrom typing import Any\n\nfrom enki_py import Agent\n\n\ndef ",
        symbol,
        "(agent: Agent, config: dict[str, Any] | None = None) -> None:\n    \"\"\"Register tools for ",
        tool_name,
        ".\"\"\"\n    tool_config = config or {}\n\n    @agent.tool_plain\n    def ",
    );
    let body = cat5(
        head.as_str(),
        func.as_str(),
        "() -> str:\n        \"\"\"Return runtime metadata for this tool.\"\"\"\n        return json.dumps(\n            {\n                \"tool\": \"",
        tool_name,
        "\",\n                \"agent_id\": tool_config.get(\"id\"),\n                \"agent_name\": tool_config.get(\"name\"),\n                \"model\": tool_config.get(\"model\"),\n            }\n        )\n",
    );
    body
}

/// Everything `enki tool new` decides before touching the file system.
pub struct NewToolPlan {
    pub tool_name: String,
    pub module_name: String,
    pub tool_id: String,
    /// The module's path relative to the project, `src/tools/<module>.py`.
    pub tool_path: String,
    pub symbol: String,
    pub attach_agent: Option<String>,
}

pub open spec fn tool_ids(m: Manifest) -> Seq<Seq<char>> {
    m.tools@.map_values(|t: ToolConfig| t.id@)
}

pub open spec fn snake(s: Seq<char>) -> Seq<char> {
    join(words(s), seq!['_'])
}

pub open spec fn kebab(s: Seq<char>) -> Seq<char> {
    join(words(s), seq!['-'])
}

/// Plans a new tool named `name`: the name trimmed must not be empty; the id
/// (by default `<kebab-name>-tools`) must be new; the attached agent follows
/// `agent_target_spec`.
pub fn plan_new_tool(
    m: &Manifest,
    manifest_path: &str,
    name: &str,
    id: Option<&str>,
    agent: Option<&str>,
) -> (res: Result<NewToolPlan, String>)
    ensures
        ({
            let tool_name = trim_seq(name@);
            let tool_id = match opt_str(id) {
                Some(i) => i,
                None => kebab(tool_name) + "-tools"@,
            };
            match res {
                Err(e) => {
                    ||| tool_name.len() == 0 && e@ == "Tool name must contain letters or numbers."@
                    ||| tool_name.len() > 0 && tool_ids(*m).contains(tool_id) && e@ == "Tool id '"@
                        + tool_id + "' already exists in "@ + manifest_path@ + "."@
                    ||| tool_name.len() > 0 && !tool_ids(*m).contains(tool_id) && agent_target_spec(
                        *m,
                        opt_str(agent),
                    ) == Err::<Option<Seq<char>>, Seq<char>>(e@)
                },
                Ok(p) => {
                    &&& tool_name.len() > 0
                    &&& !tool_ids(*m).contains(tool_id)
                    &&& p.tool_name@ == tool_name
                    &&& p.module_name@ == snake(tool_name)
                    &&& p.tool_id@ == tool_id
                    &&& p.tool_path@ == "src/tools/"@ + snake(tool_name) + ".py"@
                    &&& p.symbol@ == "register_"@ + snake(tool_name) + "_tools"@
                    &&& agent_target_spec(*m, opt_str(agent)) == Ok::<Option<Seq<char>>, Seq<char>>(
                        opt_string(p.attach_agent),
                    )
                },
            }
        }),
{
    let tool_name = normalize_name(name);
    if tool_name.as_str().unicode_len() == 0 {
        return Err("Tool name must contain letters or numbers.".to_owned());
    }
    let module_name = to_snake_case(tool_name.as_str());
    let tool_id = match id {
        Some(i) => i.to_owned(),
        None => concat(to_kebab_case(tool_name.as_str()).as_str(), "-tools"),
    };
    let tool_path = cat3("src/tools/", module_name.as_str(), ".py");
    let symbol = cat3("register_", module_name.as_str(), "_tools");
    if has_tool(m, tool_id.as_str()) {
        return Err(cat5("Tool id '", tool_id.as_str(), "' already exists in ", manifest_path, "."));
    }
    let attach_agent = match resolve_agent_target(m, agent) {
        Ok(a) => a,
        Err(e) => {
            return Err(e);
        },
    };
    Ok(NewToolPlan { tool_name, module_name, tool_id, tool_path, symbol, attach_agent })
}

} // verus!
