//! Running a project's agents through its Python runtime: which projects may
//! configure tools, and the argument list handed to the Python builder.
use crate::manifest::{resolve_tools_spec, AgentConfig, Manifest, ToolConfig};
use crate::text::{string_views, cat3, cat5, clone_opt, concat, decimal, join, join_path, join_path_spec, join_strings, usize_to_string};
use vstd::prelude::*;

verus! {


/// The ids of the agents that list at least one known tool, in manifest order.
pub open spec fn agents_with_tools(m: Manifest) -> Seq<Seq<char>> {
    m.agents@.filter(|a: AgentConfig| resolve_tools_spec(m.tools@, a.tools@).len() > 0).map_values(
        |a: AgentConfig| a.id@,
    )
}

/// The first tool, from index `k` on, that is not a Python tool or whose module is missing.
pub open spec fn first_bad_tool(tools: Seq<ToolConfig>, exists_flags: Seq<bool>, k: int) -> Option<int>
    decreases tools.len() - k,
{
    if k < 0 || k >= tools.len() {
        None
    } else if !tools[k].python() || !exists_flags[k] {
        Some(k)
    } else {
        first_bad_tool(tools, exists_flags, k + 1)
    }
}

pub(crate) fn agents_with_tools_ids(m: &Manifest) -> (res: Vec<String>)
    ensures
        string_views(res@) == agents_with_tools(*m),
{
    let ghost pred = |a: AgentConfig| resolve_tools_spec(m.tools@, a.tools@).len() > 0;
    let mut out: Vec<String> = Vec::new();
    let mut i: usize = 0;
    while i < m.agents.len()
        invariant
            i <= m.agents@.len(),
            pred == (|a: AgentConfig| resolve_tools_spec(m.tools@, a.tools@).len() > 0),
            string_views(out@) == m.agents@.take(i as int).filter(pred).map_values(|a: AgentConfig| a.id@),
        decreases m.agents@.len() - i,
    {
        let tools = m.resolve_tools(&m.agents[i]);
        let ghost prev = out@;
        if tools.len() > 0 {
            out.push(m.agents[i].id.clone());
        }
        proof {
            assert(m.agents@.take(i + 1).drop_last() =~= m.agents@.take(i as int));
            reveal_with_fuel(Seq::filter, 1);
            if pred(m.agents@[i as int]) {
                assert(string_views(out@) =~= string_views(prev).push(m.agents@[i as int].id@));
                assert(m.agents@.take(i + 1).filter(pred) =~= m.agents@.take(i as int).filter(pred).push(m.agents@[i as int]));
            } else {
                assert(m.agents@.take(i + 1).filter(pred) =~= m.agents@.take(i as int).filter(pred));
            }
        }
        i = i + 1;
    }
    assert(m.agents@.take(m.agents@.len() as int) =~= m.agents@);
    out
}

/// Tools may be configured only in Python projects, and every configured tool
/// must be a Python tool whose module exists. `tool_module_exists[i]` tells
/// whether the module of `manifest.tools[i]` (at `project_dir` joined with its
/// path) exists.
pub fn validate_python_tools(
    manifest: &Manifest,
    project_dir: &str,
    is_python_project: bool,
    tool_module_exists: &[bool],
) -> (res: Result<(), String>)
    requires
        tool_module_exists@.len() == manifest.tools@.len(),
    ensures
        agents_with_tools(*manifest).len() == 0 ==> res is Ok,
        agents_with_tools(*manifest).len() > 0 && !is_python_project ==> (res matches Err(e) && e@
            == "`tools` is only supported for Python projects right now. Remove it from agent(s): "@
            + join(agents_with_tools(*manifest), ", "@)),
        agents_with_tools(*manifest).len() > 0 && is_python_project ==> match first_bad_tool(
            manifest.tools@,
            tool_module_exists@,
            0,
        ) {
            None => res is Ok,
            Some(k) => res matches Err(e) && (if !manifest.tools@[k].python() {
                e@ == "Unsupported tool kind '"@ + manifest.tools@[k].kind@ + "' for tool '"@
                    + manifest.tools@[k].id@ + "'."@
            } else {
                e@ == "Configured Python tool '"@ + manifest.tools@[k].id@ + "' requires a module at "@
                    + join_path_spec(project_dir@, manifest.tools@[k].path@) + "."@
            }),
        },
{
    let configured = agents_with_tools_ids(manifest);
    if configured.len() == 0 {
        return Ok(());
    }
    if !is_python_project {
        let ids = join_strings(&configured, ", ");
        proof {
            assert(configured@.map_values(|p: String| p@) == string_views(configured@));
        }
        return Err(concat(
            "`tools` is only supported for Python projects right now. Remove it from agent(s): ",
            ids.as_str(),
        ));
    }
    let mut k: usize = 0;
    while k < manifest.tools.len()
        invariant
            k <= manifest.tools@.len(),
            tool_module_exists@.len() == manifest.tools@.len(),
            agents_with_tools(*manifest).len() > 0,
            is_python_project,
            first_bad_tool(manifest.tools@, tool_module_exists@, 0) == first_bad_tool(
                manifest.tools@,
                tool_module_exists@,
                k as int,
            ),
        decreases manifest.tools@.len() - k,
    {
        let tool = &manifest.tools[k];
        if !tool.is_python() {
            return Err(cat5("Unsupported tool kind '", tool.kind.as_str(), "' for tool '", tool.id.as_str(), "'."));
        }
        if !tool_module_exists[k] {
            let entry = join_path(project_dir, tool.path.as_str());
            return Err(cat5(
                "Configured Python tool '",
                tool.id.as_str(),
                "' requires a module at ",
                entry.as_str(),
                ".",
            ));
        }
        k = k + 1;
    }
    Ok(())
}

/// One tool as the Python builder reads it: kind, path and symbol separated by `\u{1e}`.
pub open spec fn tool_entry(t: ToolConfig) -> Seq<char> {
    t.kind@ + seq!['\u{1e}'] + t.path@ + seq!['\u{1e}'] + t.symbol@
}

/// The tools' entries separated by `\u{1f}`.
pub fn serialize_tools(tools: &[ToolConfig]) -> (res: String)
    ensures
        res@ == join(tools@.map_values(|t: ToolConfig| tool_entry(t)), seq!['\u{1f}']),
{
    let mut entries: Vec<String> = Vec::new();
    let mut i: usize = 0;
    proof {
        reveal_strlit("\u{1e}");
        assert("\u{1e}"@ =~= seq!['\u{1e}']);
    }
    while i < tools.len()
        invariant
            i <= tools@.len(),
            "\u{1e}"@ == seq!['\u{1e}'],
            entries@.len() == i,
            forall|k: int| 0 <= k < i ==> #[trigger] entries@[k]@ == tool_entry(tools@[k]),
        decreases tools@.len() - i,
    {
        let t = &tools[i];
        entries.push(cat5(t.kind.as_str(), "\u{1e}", t.path.as_str(), "\u{1e}", t.symbol.as_str()));
        i = i + 1;
    }
    let res = join_strings(&entries, "\u{1f}");
    proof {
        reveal_strlit("\u{1f}");
        assert("\u{1f}"@ =~= seq!['\u{1f}']);
        assert(entries@.map_values(|p: String| p@) =~= tools@.map_values(|t: ToolConfig| tool_entry(t)));
    }
    res
}

/// The eight arguments that describe one agent to the Python builder.
pub open spec fn agent_args(m: Manifest, a: AgentConfig) -> Seq<Seq<char>> {
    seq![
        a.id@,
        a.name@,
        a.model@,
        a.system_prompt@,
        decimal(a.max_iterations as nat),
        join(string_views(a.capabilities@), seq!['\u{1f}']),
        join(resolve_tools_spec(m.tools@, a.tools@).map_values(|t: ToolConfig| tool_entry(t)), seq!['\u{1f}']),
        match a.script {
            Some(s) => s@,
            None => Seq::empty(),
        },
    ]
}

/// The command-line arguments of the Python builder: the module, the project
/// directory, workspace home, target agent, session and message, the number of
/// agents, then eight arguments per agent.
pub fn python_runner_args(
    manifest: &Manifest,
    project_dir: &str,
    workspace_home: &str,
    agent_id: &str,
    session_id: &str,
    message: &str,
) -> (res: Vec<String>)
    ensures
        res@.len() == 8 + 8 * manifest.agents@.len(),
        res@[0]@ == "-m"@,
        res@[1]@ == "enki_py.builder"@,
        res@[2]@ == project_dir@,
        res@[3]@ == workspace_home@,
        res@[4]@ == agent_id@,
        res@[5]@ == session_id@,
        res@[6]@ == message@,
        res@[7]@ == decimal(manifest.agents@.len()),
        forall|a: int, j: int|
            0 <= a < manifest.agents@.len() && 0 <= j < 8 ==> #[trigger] res@[8 + 8 * a + j]@ == agent_args(
                *manifest,
                manifest.agents@[a],
            )[j],
{
    let mut args: Vec<String> = Vec::new();
    args.push("-m".to_owned());
    args.push("enki_py.builder".to_owned());
    args.push(project_dir.to_owned());
    args.push(workspace_home.to_owned());
    args.push(agent_id.to_owned());
    args.push(session_id.to_owned());
    args.push(message.to_owned());
    args.push(usize_to_string(manifest.agents.len()));
    proof {
        reveal_strlit("\u{1f}");
        assert("\u{1f}"@ =~= seq!['\u{1f}']);
    }
    let mut i: usize = 0;
    while i < manifest.agents.len()
        invariant
            i <= manifest.agents@.len(),
            "\u{1f}"@ == seq!['\u{1f}'],
            args@.len() == 8 + 8 * i,
            args@[0]@ == "-m"@,
            args@[1]@ == "enki_py.builder"@,
            args@[2]@ == project_dir@,
            args@[3]@ == workspace_home@,
            args@[4]@ == agent_id@,
            args@[5]@ == session_id@,
            args@[6]@ == message@,
            args@[7]@ == decimal(manifest.agents@.len()),
            forall|a: int, j: int|
                0 <= a < i && 0 <= j < 8 ==> #[trigger] args@[8 + 8 * a + j]@ == agent_args(
                    *manifest,
                    manifest.agents@[a],
                )[j],
        decreases manifest.agents@.len() - i,
    {
        let agent = &manifest.agents[i];
        let tools = manifest.resolve_tools(agent);
        let ghost prev = args@;
        args.push(agent.id.clone());
        args.push(agent.name.clone());
        args.push(agent.model.clone());
        args.push(agent.system_prompt.clone());
        args.push(usize_to_string(agent.max_iterations));
        args.push(join_strings(&agent.capabilities, "\u{1f}"));
        args.push(serialize_tools(&tools));
        args.push(
            match &agent.script {
                Some(s) => s.clone(),
                None => String::new(),
            },
        );
        proof {
            let ag = agent_args(*manifest, *agent);
            assert(agent.capabilities@.map_values(|p: String| p@) == string_views(agent.capabilities@));
            assert forall|a: int, j: int|
                0 <= a < i + 1 && 0 <= j < 8 implies #[trigger] args@[8 + 8 * a + j]@ == agent_args(
                *manifest,
                manifest.agents@[a],
            )[j] by {
                if a < i {
                    assert(args@[8 + 8 * a + j] == prev[8 + 8 * a + j]);
                } else {
                    assert(8 + 8 * a + j == prev.len() + j);
                }
            }
        }
        i = i + 1;
    }
    args
}


/// A way to start Python: a program and the arguments that come before the
/// script's own.
pub struct PythonCandidate {
    pub program: String,
    pub prefix_args: Vec<String>,
}

impl PythonCandidate {
    pub fn new(program: String) -> (c: Self)
        ensures
            c.program == program,
            c.prefix_args@.len() == 0,
    {
        PythonCandidate { program, prefix_args: Vec::new() }
    }

    pub fn with_prefix(program: String, prefix_args: Vec<String>) -> (c: Self)
        ensures
            c.program == program,
            c.prefix_args == prefix_args,
    {
        PythonCandidate { program, prefix_args }
    }
}

/// `programs` without the ones already in `seen` or earlier in `programs`.
pub open spec fn new_programs(seen: Seq<Seq<char>>, programs: Seq<Seq<char>>) -> Seq<Seq<char>>
    decreases programs.len(),
{
    if programs.len() == 0 {
        seen
    } else {
        let kept = new_programs(seen, programs.drop_last());
        if kept.contains(programs.last()) {
            kept
        } else {
            kept.push(programs.last())
        }
    }
}

/// The ways to start Python, in the order they are tried: the interpreter
/// of the active virtual environment, then those of the `.venv` and `venv`
/// directories found up the project's ancestors (each once), then `python`,
/// then `py -3`. The caller finds the interpreters on disk.
pub open spec fn python_candidates_spec(
    active_env: Option<Seq<char>>,
    found: Seq<Seq<char>>,
) -> Seq<(Seq<char>, Seq<Seq<char>>)> {
    let first = match active_env {
        Some(p) => seq![p],
        None => seq![],
    };
    new_programs(first, found).map_values(|p: Seq<char>| (p, Seq::<Seq<char>>::empty())) + seq![
        ("python"@, Seq::<Seq<char>>::empty()),
        ("py"@, seq!["-3"@]),
    ]
}

pub open spec fn candidate_view(c: PythonCandidate) -> (Seq<char>, Seq<Seq<char>>) {
    (c.program@, string_views(c.prefix_args@))
}

fn has_program(cands: &Vec<PythonCandidate>, program: &str) -> (res: bool)
    ensures
        res == cands@.map_values(|c: PythonCandidate| c.program@).contains(program@),
{
    let ghost progs = cands@.map_values(|c: PythonCandidate| c.program@);
    let mut i: usize = 0;
    while i < cands.len()
        invariant
            i <= cands@.len(),
            progs == cands@.map_values(|c: PythonCandidate| c.program@),
            forall|k: int| 0 <= k < i ==> progs[k] != program@,
        decreases cands@.len() - i,
    {
        if crate::text::str_eq(cands[i].program.as_str(), program) {
            proof {
                assert(progs[i as int] == program@);
            }
            return true;
        }
        i = i + 1;
    }
    false
}

pub fn python_candidates(active_env: Option<String>, found: &[String]) -> (res: Vec<PythonCandidate>)
    ensures
        res@.map_values(|c: PythonCandidate| candidate_view(c)) == python_candidates_spec(
            match active_env {
                Some(p) => Some(p@),
                None => None,
            },
            string_views(found@),
        ),
{
    let mut cands: Vec<PythonCandidate> = Vec::new();
    let ghost first: Seq<Seq<char>> = match &active_env {
        Some(p) => seq![p@],
        None => seq![],
    };
    match active_env {
        Some(p) => {
            cands.push(PythonCandidate::new(p));
        },
        None => {},
    }
    let ghost fv = string_views(found@);
    let mut i: usize = 0;
    while i < found.len()
        invariant
            i <= found@.len(),
            fv == string_views(found@),
            forall|k: int| 0 <= k < cands@.len() ==> (#[trigger] cands@[k]).prefix_args@.len() == 0,
            cands@.map_values(|c: PythonCandidate| c.program@) == new_programs(first, fv.take(i as int)),
        decreases found@.len() - i,
    {
        proof {
            assert(fv.take(i + 1).drop_last() =~= fv.take(i as int));
            assert(fv.take(i + 1).last() == found@[i as int]@);
        }
        let ghost before = cands@;
        if !has_program(&cands, found[i].as_str()) {
            cands.push(PythonCandidate::new(found[i].clone()));
            proof {
                assert(cands@.map_values(|c: PythonCandidate| c.program@) =~= before.map_values(
                    |c: PythonCandidate| c.program@,
                ).push(found@[i as int]@));
            }
        }
        i = i + 1;
    }
    let ghost kept = cands@;
    let python = PythonCandidate::new("python".to_owned());
    let mut prefix: Vec<String> = Vec::new();
    prefix.push("-3".to_owned());
    let py = PythonCandidate::with_prefix("py".to_owned(), prefix);
    proof {
        assert(string_views(py.prefix_args@) =~= seq!["-3"@]);
        assert(string_views(python.prefix_args@) =~= Seq::<Seq<char>>::empty());
    }
    let ghost c1 = python;
    let ghost c2 = py;
    cands.push(python);
    cands.push(py);
    proof {
        assert(cands@ =~= kept.push(c1).push(c2));
        assert(fv.take(found@.len() as int) =~= fv);
        assert(kept.map_values(|c: PythonCandidate| candidate_view(c)) =~= new_programs(first, fv).map_values(
            |p: Seq<char>| (p, Seq::<Seq<char>>::empty()),
        )) by {
            assert forall|k: int| 0 <= k < kept.len() implies string_views(kept[k].prefix_args@) =~= Seq::<
                Seq<char>,
            >::empty() by {}
        }
        assert(cands@.map_values(|c: PythonCandidate| candidate_view(c)) =~= kept.map_values(
            |c: PythonCandidate| candidate_view(c),
        ) + seq![("python"@, Seq::<Seq<char>>::empty()), ("py"@, seq!["-3"@])]);
    }
    cands
}


/// The error when no way to start Python worked: with the last "not found"
/// error when there was one.
pub fn python_not_found_message(last_not_found: Option<&str>) -> (res: String)
    ensures
        res@ == (match last_not_found {
            Some(e) => "Failed to locate a Python runtime for this project: "@ + e@,
            None => "Failed to locate a Python runtime for this project."@,
        }),
{
    match last_not_found {
        Some(e) => concat("Failed to locate a Python runtime for this project: ", e),
        None => "Failed to locate a Python runtime for this project.".to_owned(),
    }
}

/// The error when Python was found but could not be started.
pub fn python_start_error(error: &str) -> (res: String)
    ensures
        res@ == "Failed to start Python runtime: "@ + error@,
{
    concat("Failed to start Python runtime: ", error)
}

} // verus!
