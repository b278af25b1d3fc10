//! `enki run` and `enki join`: which agent a message goes to.
use crate::commands::tool::agent_ids;
use crate::text::opt_str;
use crate::manifest::Manifest;
use crate::text::{cat3, concat, join, join_strings, str_eq};
use vstd::prelude::*;

verus! {

/// Where the agent `agent_id` stands in the manifest, if it is there.
pub fn agent_position(m: &Manifest, agent_id: &str) -> (res: Option<usize>)
    ensures
        match res {
            Some(i) => i < m.agents@.len() && m.agents@[i as int].id@ == agent_id@ && forall|j: int|
                0 <= j < i ==> m.agents@[j].id@ != agent_id@,
            None => !agent_ids(*m).contains(agent_id@),
        },
{
    let mut i: usize = 0;
    while i < m.agents.len()
        invariant
            i <= m.agents@.len(),
            forall|j: int| 0 <= j < i ==> m.agents@[j].id@ != agent_id@,
        decreases m.agents@.len() - i,
    {
        if str_eq(m.agents[i].id.as_str(), agent_id) {
            return Some(i);
        }
        i = i + 1;
    }
    proof {
        if agent_ids(*m).contains(agent_id@) {
            let k = choose|k: int| 0 <= k < agent_ids(*m).len() && agent_ids(*m)[k] == agent_id@;
            assert(m.agents@[k].id@ == agent_id@);
        }
    }
    None
}

fn available_agents(m: &Manifest) -> (res: String)
    ensures
        res@ == join(agent_ids(*m), ", "@),
{
    let mut ids: Vec<String> = Vec::new();
    let mut i: usize = 0;
    while i < m.agents.len()
        invariant
            i <= m.agents@.len(),
            ids@.len() == i,
            forall|k: int| 0 <= k < i ==> (#[trigger] ids@[k])@ == m.agents@[k].id@,
        decreases m.agents@.len() - i,
    {
        ids.push(m.agents[i].id.clone());
        i = i + 1;
    }
    proof {
        assert(ids@.map_values(|p: String| p@) =~= agent_ids(*m));
    }
    join_strings(&ids, ", ")
}

/// The agent `enki run` sends the message to: the one asked for, which must
/// exist; otherwise the first agent.
pub fn run_target(m: &Manifest, requested_agent: Option<&str>) -> (res: Result<usize, String>)
    requires
        requested_agent is None ==> m.agents@.len() > 0,
    ensures
        match res {
            Ok(i) => i < m.agents@.len() && match opt_str(requested_agent) {
                Some(id) => m.agents@[i as int].id@ == id && forall|j: int| 0 <= j < i ==> m.agents@[j].id@ != id,
                None => i == 0,
            },
            Err(e) => requested_agent matches Some(id) && !agent_ids(*m).contains(id@) && e@ == "Agent '"@
                + id@ + "' not found in manifest. Available: "@ + join(agent_ids(*m), ", "@),
        },
{
    match requested_agent {
        None => Ok(0),
        Some(id) => match agent_position(m, id) {
            Some(i) => Ok(i),
            None => {
                let available = available_agents(m);
                let head = cat3("Agent '", id, "' not found in manifest. Available: ");
                Err(concat(head.as_str(), available.as_str()))
            },
        },
    }
}

/// The agent `enki join` talks to first: the one asked for, else the first
/// agent; it must exist.
pub fn join_target(m: &Manifest, requested_agent: Option<&str>) -> (res: Result<String, String>)
    requires
        requested_agent is None ==> m.agents@.len() > 0,
    ensures
        ({
            let wanted = match opt_str(requested_agent) {
                Some(id) => id,
                None => m.agents@[0].id@,
            };
            match res {
                Ok(id) => id@ == wanted && agent_ids(*m).contains(wanted),
                Err(e) => !agent_ids(*m).contains(wanted) && e@ == "Agent '"@ + wanted
                    + "' not found. Available: "@ + join(agent_ids(*m), ", "@),
            }
        }),
{
    let wanted = match requested_agent {
        Some(id) => id.to_owned(),
        None => m.agents[0].id.clone(),
    };
    match agent_position(m, wanted.as_str()) {
        Some(i) => {
            proof {
                assert(agent_ids(*m)[i as int] == wanted@);
            }
            Ok(wanted)
        },
        None => {
            let available = available_agents(m);
            let head = cat3("Agent '", wanted.as_str(), "' not found. Available: ");
            Err(concat(head.as_str(), available.as_str()))
        },
    }
}

} // verus!
