//! The `enki` command line: its commands and their arguments.
use vstd::prelude::*;

verus! {

pub struct Cli {
    pub command: Command,
}

pub enum Command {
    /// Create a new Enki project
    Init(InitArgs),
    /// Install project dependencies
    Build(BuildArgs),
    /// Run agents defined in enki.toml
    Run(RunArgs),
    /// Test agent connectivity and configuration
    Test(TestArgs),
    /// Display agent registry status
    Monitor(MonitorArgs),
    /// Interactive human-in-the-loop REPL
    Join(JoinArgs),
}

/// The language a new project is scaffolded in.
#[derive(PartialEq, Eq, Structural, Clone, Copy, Debug)]
pub enum Template {
    Ts,
    Py,
    Rs,
}

impl Template {
    pub open spec fn name(self) -> Seq<char> {
        match self {
            Template::Ts => "ts"@,
            Template::Py => "py"@,
            Template::Rs => "rs"@,
        }
    }

    /// The name the command line uses for the template.
    pub fn as_str(&self) -> (res: &'static str)
        ensures
            res@ == self.name(),
    {
        match self {
            Template::Ts => "ts",
            Template::Py => "py",
            Template::Rs => "rs",
        }
    }
}

pub struct InitArgs {
    /// Project name (also used as directory name)
    pub name: String,
    /// Language template to scaffold
    pub template: Template,
    /// Scaffold a sample Python tool (Python template only)
    pub with_tool: bool,
}

pub struct BuildArgs {
    /// Path to enki.toml manifest
    pub manifest: String,
}

pub struct RunArgs {
    /// Path to enki.toml manifest
    pub manifest: String,
    /// Specific agent ID to run (runs all if omitted)
    pub agent: Option<String>,
    /// Message to send to the agent(s)
    pub message: String,
}

pub struct TestArgs {
    /// Path to enki.toml manifest
    pub manifest: String,
}

pub struct MonitorArgs {
    /// Path to enki.toml manifest
    pub manifest: String,
}

pub struct JoinArgs {
    /// Path to enki.toml manifest
    pub manifest: String,
    /// Agent ID to interact with (defaults to the first agent)
    pub agent: Option<String>,
}

} // verus!
