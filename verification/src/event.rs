//! Events an agent reacts to, and the adapter that turns terminal lines into them.
use vstd::prelude::*;

verus! {

/// Something that happened outside the agent.
pub enum Event {
    CliInput(String),
    FolderChange(String),
    HttpRequest(String),
    Tick,
}

/// How many events an agent has seen.
pub struct AgentState {
    event_count: u64,
}

impl AgentState {
    pub closed spec fn events_seen(&self) -> nat {
        self.event_count as nat
    }

    /// A state that has seen no event yet.
    pub fn new() -> (s: Self)
        ensures
            s.events_seen() == 0,
    {
        AgentState { event_count: 0 }
    }
}

/// Reads terminal lines and hands each on as an event.
pub struct CliAdapter;

impl CliAdapter {
    /// The event one line read from the terminal becomes.
    pub fn event_for_line(line: String) -> (e: Event)
        ensures
            e == Event::CliInput(line),
    {
        Event::CliInput(line)
    }
}

} // verus!
