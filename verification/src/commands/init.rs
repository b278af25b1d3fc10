//! `enki init`: which options go together, and the text of the generated
//! `enki.toml` and README.
use crate::cli::Template;
use crate::text::{replace_all, replace_spec};
use vstd::prelude::*;

verus! {

pub open spec fn project_name_placeholder() -> Seq<char> {
    "{{PROJECT_NAME}}"@
}

pub open spec fn readme_template() -> Seq<char> {
    "# {{PROJECT_NAME}}\n\nAn [Enki](https://docs.getenki.com) multi-agent project.\n\n## Getting Started\n\n```bash\n# Install dependencies\nenki build\n\n# Run agents\nenki run --message \"Hello, agents!\"\n\n# Interactive mode\nenki join\n```\n\n## Configuration\n\nEdit `enki.toml` to add agents, change models, or update capabilities.\nPython projects can define reusable `[[tool]]` entries with `path` and `symbol`.\n"@
}

/// The `enki.toml` of the Python template, before the project name is filled in.
pub open spec fn py_enki_toml() -> Seq<char> {
    "[project]\nname = \"{{PROJECT_NAME}}\"\nversion = \"0.1.0\"\n\n[workspace]\nhome = \"./.enki\"\n\n[[agent]]\nid = \"assistant\"\nname = \"Assistant\"\nmodel = \"ollama::qwen3.5\"\nsystem_prompt = \"You are a helpful assistant.\"\ncapabilities = [\"chat\"]\n"@
}

/// The sample tool entry added by `--with-tool`.
pub open spec fn py_tool_block() -> Seq<char> {
    "\n[[tool]]\nid = \"assistant-tools\"\nkind = \"python\"\npath = \"src/tools/assistant.py\"\nsymbol = \"project_runtime_info\"\n"@
}

pub open spec fn py_enki_toml_spec(with_tool: bool) -> Seq<char> {
    if with_tool {
        py_enki_toml() + py_tool_block() + "\n"@ + "tools = [\"assistant-tools\"]"@ + "\n"@
    } else {
        py_enki_toml()
    }
}

/// The Python template's `enki.toml`, with the sample tool when asked for.
pub fn render_py_enki_toml(with_tool: bool) -> (res: String)
    ensures
        res@ == py_enki_toml_spec(with_tool),
{
    let mut rendered = "[project]\nname = \"{{PROJECT_NAME}}\"\nversion = \"0.1.0\"\n\n[workspace]\nhome = \"./.enki\"\n\n[[agent]]\nid = \"assistant\"\nname = \"Assistant\"\nmodel = \"ollama::qwen3.5\"\nsystem_prompt = \"You are a helpful assistant.\"\ncapabilities = [\"chat\"]\n".to_owned();
    if with_tool {
        rendered.append(
            "\n[[tool]]\nid = \"assistant-tools\"\nkind = \"python\"\npath = \"src/tools/assistant.py\"\nsymbol = \"project_runtime_info\"\n",
        );
        rendered.append("\n");
        rendered.append("tools = [\"assistant-tools\"]");
        rendered.append("\n");
    }
    rendered
}

/// `--with-tool` goes only with the Python template.
pub fn check_init_options(template: Template, with_tool: bool) -> (res: Result<(), String>)
    ensures
        res is Err <==> (with_tool && template != Template::Py),
        res matches Err(e) ==> e@ == "--with-tool is currently supported only with --template py."@,
{
    if with_tool && template != Template::Py {
        return Err("--with-tool is currently supported only with --template py.".to_owned());
    }
    Ok(())
}

/// Fills the project name into a template.
pub fn fill_project_name(template: &str, project_name: &str) -> (res: String)
    ensures
        res@ == replace_spec(template@, project_name_placeholder(), project_name@),
{
    proof {
        reveal_strlit("{{PROJECT_NAME}}");
    }
    replace_all(template, "{{PROJECT_NAME}}", project_name)
}

/// The README of a new project.
pub fn render_readme(project_name: &str) -> (res: String)
    ensures
        res@ == replace_spec(readme_template(), project_name_placeholder(), project_name@),
{
    fill_project_name(
        "# {{PROJECT_NAME}}\n\nAn [Enki](https://docs.getenki.com) multi-agent project.\n\n## Getting Started\n\n```bash\n# Install dependencies\nenki build\n\n# Run agents\nenki run --message \"Hello, agents!\"\n\n# Interactive mode\nenki join\n```\n\n## Configuration\n\nEdit `enki.toml` to add agents, change models, or update capabilities.\nPython projects can define reusable `[[tool]]` entries with `path` and `symbol`.\n",
        project_name,
    )
}

/// The files a template adds besides `enki.toml` and `README.md`.
pub open spec fn scaffold_files_spec(template: Template, with_tool: bool) -> Seq<Seq<char>> {
    match template {
        Template::Ts => seq!["package.json"@, "tsconfig.json"@, "src/index.ts"@],
        Template::Py => if with_tool {
            seq![
                ".gitignore"@,
                "pyproject.toml"@,
                "src/__init__.py"@,
                "src/tools/__init__.py"@,
                "src/tools/assistant.py"@,
            ]
        } else {
            seq![".gitignore"@, "pyproject.toml"@, "src/__init__.py"@]
        },
        Template::Rs => seq!["Cargo.toml"@, "src/main.rs"@],
    }
}

pub fn scaffold_files(template: Template, with_tool: bool) -> (res: Vec<String>)
    ensures
        crate::text::string_views(res@) == scaffold_files_spec(template, with_tool),
{
    let mut files: Vec<String> = Vec::new();
    match template {
        Template::Ts => {
            files.push("package.json".to_owned());
            files.push("tsconfig.json".to_owned());
            files.push("src/index.ts".to_owned());
        },
        Template::Py => {
            files.push(".gitignore".to_owned());
            files.push("pyproject.toml".to_owned());
            files.push("src/__init__.py".to_owned());
            if with_tool {
                files.push("src/tools/__init__.py".to_owned());
                files.push("src/tools/assistant.py".to_owned());
            }
        },
        Template::Rs => {
            files.push("Cargo.toml".to_owned());
            files.push("src/main.rs".to_owned());
        },
    }
    proof {
        assert(crate::text::string_views(files@) =~= scaffold_files_spec(template, with_tool));
    }
    files
}

} // verus!
