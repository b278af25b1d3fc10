//! Assembling a runtime around one agent.
use crate::agent::types::AgentDefinition;
use vstd::prelude::*;

verus! {

/// The agent a runtime is built around, and the tool executor (`E`) it runs
/// tools with, if the caller supplies one.
pub struct RuntimeBuilder<E> {
    pub definition: AgentDefinition,
    pub tool_executor: Option<E>,
}

impl<E> RuntimeBuilder<E> {
    /// A builder for the agent `definition`, with the default tool executor.
    pub fn new(definition: AgentDefinition) -> (b: Self)
        ensures
            b.definition == definition,
            b.tool_executor is None,
    {
        RuntimeBuilder { definition, tool_executor: None }
    }

    /// A builder for the default agent definition.
    pub fn for_default_agent() -> (b: Self)
        ensures
            b.definition.name@ == "Personal Assistant"@,
            b.definition.system_prompt_preamble@ == "You are a helpful Personal Assistant agent."@,
            b.definition.model@ == Seq::<char>::empty(),
            b.definition.max_iterations == 20,
            b.tool_executor is None,
    {
        RuntimeBuilder::new(AgentDefinition::default())
    }

    /// Runs the agent's tools with `tool_executor`.
    pub fn with_tool_executor(self, tool_executor: E) -> (b: Self)
        ensures
            b.definition == self.definition,
            b.tool_executor == Some(tool_executor),
    {
        RuntimeBuilder { definition: self.definition, tool_executor: Some(tool_executor) }
    }
}

} // verus!
