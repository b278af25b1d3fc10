//! Assembling a runtime of several named agents: the agents it will hold, the
//! registry of cards it starts with, and whether each agent can be built.
use crate::agent::turn::default_provider_error;
use crate::agent::types::AgentDefinition;
use crate::registry::{AgentCard, AgentCardView, AgentRegistry, AgentStatus};
use crate::runtime::types::current_timestamp_nanos;
use crate::text::{cat3, clone_strings, hex, opt_string, string_views, u128_to_hex};
use vstd::prelude::*;

verus! {

/// One agent the runtime is to build. `L` is the model provider the caller
/// supplies, carried as given; without one the agent uses a built-in provider.
pub struct AgentSpec<L> {
    pub agent_id: String,
    pub definition: AgentDefinition,
    pub capabilities: Vec<String>,
    pub llm: Option<L>,
}

/// The agents a runtime will hold, in the order they were added, with the
/// peer selector (`S`) and workspace home it will use.
pub struct MultiAgentRuntimeBuilder<L, S> {
    specs: Vec<AgentSpec<L>>,
    selector: Option<S>,
    workspace_home: Option<String>,
}

/// The card an agent is registered with: its id, its name, its system
/// prompt preamble as description, its capabilities; online, no metadata.
pub open spec fn spec_card<L>(s: AgentSpec<L>) -> AgentCardView {
    AgentCardView {
        agent_id: s.agent_id@,
        name: s.definition.name@,
        description: s.definition.system_prompt_preamble@,
        capabilities: string_views(s.capabilities@),
        status: AgentStatus::Online,
        metadata: Map::empty(),
    }
}

/// The registry after each agent's card is registered in order: a later
/// agent with the same id replaces the earlier card.
pub open spec fn cards_map<L>(specs: Seq<AgentSpec<L>>) -> Map<Seq<char>, AgentCardView>
    decreases specs.len(),
{
    if specs.len() == 0 {
        Map::empty()
    } else {
        cards_map(specs.drop_last()).insert(specs.last().agent_id@, spec_card(specs.last()))
    }
}

/// The first agent, from index `k` on, that brings no model provider.
pub open spec fn first_without_llm<L>(specs: Seq<AgentSpec<L>>, k: int) -> Option<int>
    decreases specs.len() - k,
{
    if k < 0 || k >= specs.len() {
        None
    } else if specs[k].llm is None {
        Some(k)
    } else {
        first_without_llm(specs, k + 1)
    }
}

/// The message an agent without a provider of its own fails with (see
/// `default_provider_error`).
pub open spec fn default_provider_message(model: Seq<char>, env_model: Option<Seq<char>>) -> Seq<char> {
    let resolved = if crate::text::trim_seq(model).len() > 0 {
        Some(model)
    } else {
        env_model
    };
    match resolved {
        Some(m) => "No built-in LLM provider is available for model `"@ + m
            + "`. Supply a custom LlmProvider or enable the `universal-llm-provider` feature."@,
        None => "Missing model. Set AgentDefinition.model or ENKI_MODEL."@,
    }
}

/// Every agent added to a runtime can be found in its registry, under its id,
/// with the card of the last agent added under that id.
pub proof fn law_added_agents_are_registered<L>(specs: Seq<AgentSpec<L>>, i: int)
    requires
        0 <= i < specs.len(),
    ensures
        cards_map(specs).contains_key(specs[i].agent_id@),
        (forall|j: int| i < j < specs.len() ==> #[trigger] specs[j].agent_id@ != specs[i].agent_id@)
            ==> cards_map(specs)[specs[i].agent_id@] == spec_card(specs[i]),
    decreases specs.len(),
{
    if i < specs.len() - 1 {
        let prefix = specs.drop_last();
        law_added_agents_are_registered(prefix, i);
        assert(prefix[i] == specs[i]);
        if forall|j: int| i < j < specs.len() ==> #[trigger] specs[j].agent_id@ != specs[i].agent_id@ {
            assert(specs[specs.len() - 1].agent_id@ != specs[i].agent_id@);
            assert forall|k: int| i < k < prefix.len() implies #[trigger] prefix[k].agent_id@
                != prefix[i].agent_id@ by {
                assert(prefix[k] == specs[k]);
            }
        }
    }
}

impl<L, S> MultiAgentRuntimeBuilder<L, S> {
    pub closed spec fn specs(&self) -> Seq<AgentSpec<L>> {
        self.specs@
    }

    pub closed spec fn selector(&self) -> Option<S> {
        self.selector
    }

    pub closed spec fn workspace_home(&self) -> Option<Seq<char>> {
        opt_string(self.workspace_home)
    }

    /// A builder with no agents, the default selector and no workspace home.
    pub fn new() -> (b: Self)
        ensures
            b.specs().len() == 0,
            b.selector() is None,
            b.workspace_home() is None,
    {
        MultiAgentRuntimeBuilder { specs: Vec::new(), selector: None, workspace_home: None }
    }

    /// Adds an agent with a definition and declared capabilities.
    pub fn add_agent(self, agent_id: &str, definition: AgentDefinition, capabilities: Vec<String>) -> (b: Self)
        ensures
            b.specs() == self.specs().push(
                AgentSpec { agent_id: b.specs().last().agent_id, definition, capabilities, llm: None },
            ),
            b.specs().last().agent_id@ == agent_id@,
            b.selector() == self.selector(),
            b.workspace_home() == self.workspace_home(),
    {
        let mut b = self;
        b.specs.push(AgentSpec { agent_id: agent_id.to_owned(), definition, capabilities, llm: None });
        b
    }

    /// Adds an agent with a model provider of its own.
    pub fn add_agent_with_llm(
        self,
        agent_id: &str,
        definition: AgentDefinition,
        capabilities: Vec<String>,
        llm: L,
    ) -> (b: Self)
        ensures
            b.specs() == self.specs().push(
                AgentSpec { agent_id: b.specs().last().agent_id, definition, capabilities, llm: Some(llm) },
            ),
            b.specs().last().agent_id@ == agent_id@,
            b.selector() == self.selector(),
            b.workspace_home() == self.workspace_home(),
    {
        let mut b = self;
        b.specs.push(AgentSpec { agent_id: agent_id.to_owned(), definition, capabilities, llm: Some(llm) });
        b
    }

    /// Replaces the peer selector.
    pub fn with_selector(self, selector: S) -> (b: Self)
        ensures
            b.specs() == self.specs(),
            b.selector() == Some(selector),
            b.workspace_home() == self.workspace_home(),
    {
        let mut b = self;
        b.selector = Some(selector);
        b
    }

    /// Sets the directory the agents keep their workspaces under.
    pub fn with_workspace_home(self, home: &str) -> (b: Self)
        ensures
            b.specs() == self.specs(),
            b.selector() == self.selector(),
            b.workspace_home() == Some(home@),
    {
        let mut b = self;
        b.workspace_home = Some(home.to_owned());
        b
    }

    /// The registry a built runtime starts with: each agent's card, online,
    /// registered in the order the agents were added.
    pub fn card_registry(&self) -> (r: AgentRegistry)
        ensures
            r.wf(),
            r.view_map() == cards_map(self.specs()),
    {
        let mut r = AgentRegistry::new();
        let mut i: usize = 0;
        while i < self.specs.len()
            invariant
                i <= self.specs@.len(),
                r.wf(),
                r.view_map() == cards_map(self.specs@.take(i as int)),
            decreases self.specs@.len() - i,
        {
            let spec = &self.specs[i];
            let card = AgentCard::new(
                spec.agent_id.as_str(),
                spec.definition.name.as_str(),
                spec.definition.system_prompt_preamble.as_str(),
                clone_strings(&spec.capabilities),
            );
            proof {
                assert(self.specs@.take(i + 1).drop_last() =~= self.specs@.take(i as int));
                assert(card@.metadata =~= Map::<Seq<char>, Seq<char>>::empty());
                assert(card@ == spec_card(self.specs@[i as int]));
            }
            r.register(card);
            i = i + 1;
        }
        assert(self.specs@.take(self.specs@.len() as int) =~= self.specs@);
        r
    }

    /// Builds the runtime: every agent's card is registered, then the agents
    /// are built in order; the first that cannot be built (see `build_error`)
    /// fails the whole runtime.
    pub fn build(self, env_model: Option<String>) -> (res: Result<MultiAgentRuntime<L, S>, String>)
        ensures
            match first_without_llm(self.specs(), 0) {
                None => res matches Ok(rt) && rt.agents() == self.specs() && rt.selector() == self.selector()
                    && rt.workspace_home() == self.workspace_home(),
                Some(k) => res matches Err(e) && e@ == default_provider_message(
                    self.specs()[k].definition.model@,
                    opt_string(env_model),
                ),
            },
    {
        let registry = self.card_registry();
        if let Some(e) = self.build_error(env_model) {
            return Err(e);
        }
        Ok(MultiAgentRuntime {
            registry,
            agents: self.specs,
            selector: self.selector,
            workspace_home: self.workspace_home,
        })
    }

    /// Why building the runtime fails, if it does: agents are built in the
    /// order they were added, one with a provider of its own always builds,
    /// and the first without one fails as `default_provider_error` says.
    /// `env_model` is the model the environment names (`ENKI_MODEL`).
    pub fn build_error(&self, env_model: Option<String>) -> (res: Option<String>)
        ensures
            match first_without_llm(self.specs(), 0) {
                None => res is None,
                Some(k) => res matches Some(e) && e@ == default_provider_message(
                    self.specs()[k].definition.model@,
                    opt_string(env_model),
                ),
            },
    {
        let mut i: usize = 0;
        while i < self.specs.len()
            invariant
                i <= self.specs@.len(),
                first_without_llm(self.specs@, 0) == first_without_llm(self.specs@, i as int),
            decreases self.specs@.len() - i,
        {
            if self.specs[i].llm.is_none() {
                let e = default_provider_error(self.specs[i].definition.model.as_str(), env_model);
                return Some(e);
            }
            i = i + 1;
        }
        None
    }
}

/// The index of the last agent added under `id`: the one a runtime keeps
/// when several share an id.
pub open spec fn last_with_id<L>(specs: Seq<AgentSpec<L>>, id: Seq<char>) -> Option<int>
    decreases specs.len(),
{
    if specs.len() == 0 {
        None
    } else if specs.last().agent_id@ == id {
        Some(specs.len() - 1)
    } else {
        last_with_id(specs.drop_last(), id)
    }
}

/// A built runtime: the registry of its agents' cards, and its agents in the
/// order they were added (each a definition, capabilities and its provider).
pub struct MultiAgentRuntime<L, S> {
    registry: AgentRegistry,
    agents: Vec<AgentSpec<L>>,
    selector: Option<S>,
    workspace_home: Option<String>,
}

impl<L, S> MultiAgentRuntime<L, S> {
    #[verifier::type_invariant]
    spec fn registry_matches_agents(&self) -> bool {
        &&& self.registry.wf()
        &&& self.registry.view_map() == cards_map(self.agents@)
    }

    pub closed spec fn agents(&self) -> Seq<AgentSpec<L>> {
        self.agents@
    }

    pub closed spec fn selector(&self) -> Option<S> {
        self.selector
    }

    pub closed spec fn workspace_home(&self) -> Option<Seq<char>> {
        opt_string(self.workspace_home)
    }

    /// The registry the agents discover each other through.
    pub fn registry(&self) -> (r: &AgentRegistry)
        ensures
            r.wf(),
            r.view_map() == cards_map(self.agents()),
    {
        proof {
            use_type_invariant(self);
        }
        &self.registry
    }

    /// The agent a request for `agent_id` goes to (the last one added under
    /// that id), or why there is none.
    pub fn agent(&self, agent_id: &str) -> (res: Result<&AgentSpec<L>, String>)
        ensures
            match last_with_id(self.agents(), agent_id@) {
                Some(k) => res matches Ok(a) && *a == self.agents()[k],
                None => res matches Err(e) && e@ == "Agent '"@ + agent_id@ + "' not found in runtime."@,
            },
    {
        let mut i: usize = self.agents.len();
        assert(self.agents@.take(i as int) =~= self.agents@);
        while i > 0
            invariant
                i <= self.agents@.len(),
                last_with_id(self.agents@, agent_id@) == last_with_id(self.agents@.take(i as int), agent_id@),
            decreases i,
        {
            proof {
                assert(self.agents@.take(i as int).drop_last() =~= self.agents@.take(i - 1));
            }
            if crate::text::str_eq(self.agents[i - 1].agent_id.as_str(), agent_id) {
                return Ok(&self.agents[i - 1]);
            }
            i = i - 1;
        }
        assert(self.agents@.take(0) =~= Seq::<AgentSpec<L>>::empty());
        Err(cat3("Agent '", agent_id, "' not found in runtime."))
    }
}

/// The session a delegated task runs in: `delegation-<target>-<clock in hex>`.
pub open spec fn delegation_session_spec(target: Seq<char>, nanos: nat) -> Seq<char> {
    "delegation-"@ + target + "-"@ + hex(nanos)
}

/// The session id of a task delegated to `target` at time `nanos`
/// (nanoseconds since the Unix epoch).
pub fn delegation_session_id_at(target: &str, nanos: u128) -> (res: String)
    ensures
        res@ == delegation_session_spec(target@, nanos as nat),
{
    let h = u128_to_hex(nanos);
    let head = cat3("delegation-", target, "-");
    let id = cat3(head.as_str(), h.as_str(), "");
    proof {
        reveal_strlit("");
        assert(id@ =~= delegation_session_spec(target@, nanos as nat));
    }
    id
}

/// A fresh session id for a task delegated to `target`, from the clock.
pub fn next_delegation_session_id(target: &str) -> (res: String)
    ensures
        exists|nanos: nat| res@ == delegation_session_spec(target@, nanos),
{
    let now = current_timestamp_nanos();
    delegation_session_id_at(target, now)
}

} // verus!
