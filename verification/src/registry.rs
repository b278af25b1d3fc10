//! Agent cards, discovery queries, and the registry that holds one card per agent id.
use crate::text::{chars_of, eq_ignore_ascii_case, lower_chars, lower_seq, string_from};
use vstd::prelude::*;

verus! {

#[derive(Debug, Clone, Copy, PartialEq, Eq, Structural)]
pub enum AgentStatus {
    Online,
    Busy,
    Offline,
}

impl AgentStatus {
    /// The lower-case name of the status.
    pub open spec fn name(self) -> Seq<char> {
        match self {
            AgentStatus::Online => seq!['o', 'n', 'l', 'i', 'n', 'e'],
            AgentStatus::Busy => seq!['b', 'u', 's', 'y'],
            AgentStatus::Offline => seq!['o', 'f', 'f', 'l', 'i', 'n', 'e'],
        }
    }

    /// The status whose name equals `s` ignoring ASCII case.
    pub open spec fn parse_loose(s: Seq<char>) -> Option<AgentStatus> {
        if lower_seq(s) == AgentStatus::Online.name() {
            Some(AgentStatus::Online)
        } else if lower_seq(s) == AgentStatus::Busy.name() {
            Some(AgentStatus::Busy)
        } else if lower_seq(s) == AgentStatus::Offline.name() {
            Some(AgentStatus::Offline)
        } else {
            None
        }
    }

    /// Parses `online`, `busy` or `offline` in any ASCII case.
    pub fn from_str_loose(s: &str) -> (res: Option<AgentStatus>)
        ensures
            res == AgentStatus::parse_loose(s@),
    {
        let lowered = lower_chars(&chars_of(s));
        let online = ['o', 'n', 'l', 'i', 'n', 'e'];
        let busy = ['b', 'u', 's', 'y'];
        let offline = ['o', 'f', 'f', 'l', 'i', 'n', 'e'];
        proof {
            assert(online@ =~= AgentStatus::Online.name());
            assert(busy@ =~= AgentStatus::Busy.name());
            assert(offline@ =~= AgentStatus::Offline.name());
        }
        if crate::text::chars_eq(&lowered, &online) {
            Some(AgentStatus::Online)
        } else if crate::text::chars_eq(&lowered, &busy) {
            Some(AgentStatus::Busy)
        } else if crate::text::chars_eq(&lowered, &offline) {
            Some(AgentStatus::Offline)
        } else {
            None
        }
    }

    /// The text form of the status: `online`, `busy` or `offline`.
    pub fn to_display_string(&self) -> (res: String)
        ensures
            res@ == self.name(),
    {
        let chars: Vec<char> = match self {
            AgentStatus::Online => vec!['o', 'n', 'l', 'i', 'n', 'e'],
            AgentStatus::Busy => vec!['b', 'u', 's', 'y'],
            AgentStatus::Offline => vec!['o', 'f', 'f', 'l', 'i', 'n', 'e'],
        };
        proof {
            assert(chars@ =~= self.name());
        }
        string_from(&chars)
    }
}

/// The metadata pairs, later pairs overriding earlier ones with the same key.
pub open spec fn pairs_map(pairs: Seq<(String, String)>) -> Map<Seq<char>, Seq<char>>
    decreases pairs.len(),
{
    if pairs.len() == 0 {
        Map::empty()
    } else {
        pairs_map(pairs.drop_last()).insert(pairs.last().0@, pairs.last().1@)
    }
}

pub open spec fn unique_keys(pairs: Seq<(String, String)>) -> bool {
    forall|i: int, j: int|
        0 <= i < pairs.len() && 0 <= j < pairs.len() && i != j ==> pairs[i].0@ != pairs[j].0@
}

proof fn lemma_pairs_map_lookup(pairs: Seq<(String, String)>, i: int)
    requires
        unique_keys(pairs),
        0 <= i < pairs.len(),
    ensures
        pairs_map(pairs).contains_key(pairs[i].0@),
        pairs_map(pairs)[pairs[i].0@] == pairs[i].1@,
    decreases pairs.len(),
{
    if i < pairs.len() - 1 {
        assert(unique_keys(pairs.drop_last()));
        lemma_pairs_map_lookup(pairs.drop_last(), i);
    }
}

proof fn lemma_pairs_map_absent(pairs: Seq<(String, String)>, k: Seq<char>)
    requires
        forall|i: int| 0 <= i < pairs.len() ==> pairs[i].0@ != k,
    ensures
        !pairs_map(pairs).contains_key(k),
    decreases pairs.len(),
{
    if pairs.len() > 0 {
        lemma_pairs_map_absent(pairs.drop_last(), k);
    }
}

proof fn lemma_pairs_map_update(pairs: Seq<(String, String)>, i: int, p: (String, String))
    requires
        unique_keys(pairs),
        0 <= i < pairs.len(),
        pairs[i].0@ == p.0@,
    ensures
        pairs_map(pairs.update(i, p)) == pairs_map(pairs).insert(p.0@, p.1@),
        unique_keys(pairs.update(i, p)),
    decreases pairs.len(),
{
    let q = pairs.update(i, p);
    if i == pairs.len() - 1 {
        assert(q.drop_last() =~= pairs.drop_last());
        assert(pairs_map(q) =~= pairs_map(pairs).insert(p.0@, p.1@));
    } else {
        assert(q.drop_last() =~= pairs.drop_last().update(i, p));
        assert(unique_keys(pairs.drop_last()));
        lemma_pairs_map_update(pairs.drop_last(), i, p);
        assert(pairs_map(q) =~= pairs_map(pairs).insert(p.0@, p.1@));
    }
}

/// The abstract content of an agent card.
pub struct AgentCardView {
    pub agent_id: Seq<char>,
    pub name: Seq<char>,
    pub description: Seq<char>,
    pub capabilities: Seq<Seq<char>>,
    pub status: AgentStatus,
    pub metadata: Map<Seq<char>, Seq<char>>,
}

impl AgentCardView {
    /// Some capability equals `cap` ignoring ASCII case.
    pub open spec fn has_capability(self, cap: Seq<char>) -> bool {
        exists|i: int|
            0 <= i < self.capabilities.len() && lower_seq(#[trigger] self.capabilities[i])
                == lower_seq(cap)
    }
}

#[derive(Debug)]
pub struct AgentCard {
    pub agent_id: String,
    pub name: String,
    pub description: String,
    pub capabilities: Vec<String>,
    pub status: AgentStatus,
    /// Free-form key/value metadata; each key occurs once.
    pub metadata: Vec<(String, String)>,
}

impl View for AgentCard {
    type V = AgentCardView;

    open spec fn view(&self) -> AgentCardView {
        AgentCardView {
            agent_id: self.agent_id@,
            name: self.name@,
            description: self.description@,
            capabilities: self.capabilities@.map_values(|c: String| c@),
            status: self.status,
            metadata: pairs_map(self.metadata@),
        }
    }
}

impl Clone for AgentCard {
    fn clone(&self) -> (res: Self)
        ensures
            res@ == self@,
            res.agent_id == self.agent_id,
            res.capabilities@ == self.capabilities@,
            res.metadata@ == self.metadata@,
            res.status == self.status,
    {
        let mut capabilities: Vec<String> = Vec::new();
        let mut i: usize = 0;
        while i < self.capabilities.len()
            invariant
                i <= self.capabilities@.len(),
                capabilities@ == self.capabilities@.take(i as int),
            decreases self.capabilities@.len() - i,
        {
            capabilities.push(self.capabilities[i].clone());
            i = i + 1;
            assert(capabilities@ =~= self.capabilities@.take(i as int));
        }
        assert(capabilities@ =~= self.capabilities@);
        let mut metadata: Vec<(String, String)> = Vec::new();
        let mut j: usize = 0;
        while j < self.metadata.len()
            invariant
                j <= self.metadata@.len(),
                metadata@ == self.metadata@.take(j as int),
            decreases self.metadata@.len() - j,
        {
            let pair = (self.metadata[j].0.clone(), self.metadata[j].1.clone());
            metadata.push(pair);
            j = j + 1;
            assert(metadata@ =~= self.metadata@.take(j as int));
        }
        assert(metadata@ =~= self.metadata@);
        AgentCard {
            agent_id: self.agent_id.clone(),
            name: self.name.clone(),
            description: self.description.clone(),
            capabilities,
            status: self.status,
            metadata,
        }
    }
}

impl AgentCard {
    pub open spec fn wf(&self) -> bool {
        unique_keys(self.metadata@)
    }

    /// The metadata as a map from key to value.
    pub open spec fn metadata_map(&self) -> Map<Seq<char>, Seq<char>> {
        pairs_map(self.metadata@)
    }


    /// A new card, online, with no metadata.
    pub fn new(agent_id: &str, name: &str, description: &str, capabilities: Vec<String>) -> (res: Self)
        ensures
            res.agent_id@ == agent_id@,
            res.name@ == name@,
            res.description@ == description@,
            res.capabilities@ == capabilities@,
            res.status == AgentStatus::Online,
            res.metadata@.len() == 0,
            res.wf(),
    {
        AgentCard {
            agent_id: agent_id.to_owned(),
            name: name.to_owned(),
            description: description.to_owned(),
            capabilities,
            status: AgentStatus::Online,
            metadata: Vec::new(),
        }
    }

    pub fn with_status(self, status: AgentStatus) -> (res: Self)
        ensures
            res == (AgentCard { status, ..self }),
    {
        AgentCard { status, ..self }
    }

    /// Sets `key` to `value`, replacing an earlier value of the same key.
    pub fn with_metadata(self, key: &str, value: &str) -> (res: Self)
        requires
            self.wf(),
        ensures
            res.wf(),
            res.metadata_map() == self.metadata_map().insert(key@, value@),
            res.agent_id == self.agent_id,
            res.name == self.name,
            res.description == self.description,
            res.capabilities == self.capabilities,
            res.status == self.status,
    {
        let mut card = self;
        let k = key.to_owned();
        let mut i: usize = 0;
        while i < card.metadata.len()
            invariant
                i <= card.metadata@.len(),
                k@ == key@,
                unique_keys(self.metadata@),
                card.metadata@ == self.metadata@,
                card.agent_id == self.agent_id,
                card.name == self.name,
                card.description == self.description,
                card.capabilities == self.capabilities,
                card.status == self.status,
                forall|j: int| 0 <= j < i ==> card.metadata@[j].0@ != key@,
            decreases card.metadata@.len() - i,
        {
            if card.metadata[i].0 == k {
                let ghost before = card.metadata@;
                let pair = (k, value.to_owned());
                let ghost p = pair;
                card.metadata.set(i, pair);
                proof {
                    lemma_pairs_map_update(before, i as int, p);
                }
                return card;
            }
            i = i + 1;
        }
        let ghost before = card.metadata@;
        card.metadata.push((k, value.to_owned()));
        proof {
            assert(card.metadata@.drop_last() =~= before);
            assert forall|a: int, b: int|
                0 <= a < card.metadata@.len() && 0 <= b < card.metadata@.len() && a != b implies card.metadata@[a].0@
                != card.metadata@[b].0@ by {
                if a < before.len() && b < before.len() {
                    assert(card.metadata@[a] == before[a]);
                    assert(card.metadata@[b] == before[b]);
                }
            }
        }
        card
    }

    /// The metadata value stored under `key`.
    pub fn metadata_value(&self, key: &str) -> (res: Option<String>)
        requires
            self.wf(),
        ensures
            match res {
                Some(v) => self.metadata_map().contains_key(key@) && self.metadata_map()[key@] == v@,
                None => !self.metadata_map().contains_key(key@),
            },
    {
        let k = key.to_owned();
        let mut i: usize = 0;
        while i < self.metadata.len()
            invariant
                i <= self.metadata@.len(),
                k@ == key@,
                unique_keys(self.metadata@),
                forall|j: int| 0 <= j < i ==> self.metadata@[j].0@ != key@,
            decreases self.metadata@.len() - i,
        {
            if self.metadata[i].0 == k {
                proof {
                    lemma_pairs_map_lookup(self.metadata@, i as int);
                }
                return Some(self.metadata[i].1.clone());
            }
            i = i + 1;
        }
        proof {
            lemma_pairs_map_absent(self.metadata@, key@);
        }
        None
    }

    /// Whether the card lists `capability`, ignoring ASCII case.
    pub fn has_capability(&self, capability: &str) -> (res: bool)
        ensures
            res == self@.has_capability(capability@),
    {
        let ghost caps = self.capabilities@.map_values(|c: String| c@);
        let mut i: usize = 0;
        while i < self.capabilities.len()
            invariant
                i <= self.capabilities@.len(),
                caps == self.capabilities@.map_values(|c: String| c@),
                forall|j: int|
                    0 <= j < i ==> lower_seq(#[trigger] caps[j]) != lower_seq(
                        capability@,
                    ),
            decreases self.capabilities@.len() - i,
        {
            if eq_ignore_ascii_case(self.capabilities[i].as_str(), capability) {
                assert(caps[i as int] == self.capabilities@[i as int]@);
                assert(self@.capabilities[i as int] == caps[i as int]);
                assert(lower_seq(self@.capabilities[i as int]) == lower_seq(capability@));
                return true;
            }
            assert(caps[i as int] == self.capabilities@[i as int]@);
            i = i + 1;
        }
        false
    }
}

/// Filters for agent discovery; an absent field does not filter.
#[derive(Debug)]
pub struct DiscoverQuery {
    pub capability: Option<String>,
    pub status: Option<AgentStatus>,
}

impl DiscoverQuery {
    pub open spec fn matches_spec(&self, card: AgentCardView) -> bool {
        &&& (self.capability matches Some(c) ==> card.has_capability(c@))
        &&& (self.status matches Some(s) ==> card.status == s)
    }

    pub fn new() -> (res: Self)
        ensures
            res.capability is None,
            res.status is None,
    {
        DiscoverQuery { capability: None, status: None }
    }

    pub fn with_capability(self, capability: &str) -> (res: Self)
        ensures
            res.capability matches Some(c) && c@ == capability@,
            res.status == self.status,
    {
        DiscoverQuery { capability: Some(capability.to_owned()), status: self.status }
    }

    pub fn with_status(self, status: AgentStatus) -> (res: Self)
        ensures
            res.status == Some(status),
            res.capability == self.capability,
    {
        DiscoverQuery { capability: self.capability, status: Some(status) }
    }

    /// The card has the requested capability (ignoring ASCII case) and status.
    pub fn matches(&self, card: &AgentCard) -> (res: bool)
        ensures
            res == self.matches_spec(card@),
    {
        if let Some(capability) = &self.capability {
            if !card.has_capability(capability.as_str()) {
                return false;
            }
        }
        if let Some(status) = &self.status {
            if card.status != *status {
                return false;
            }
        }
        true
    }
}

/// The first online candidate's agent id.
pub open spec fn first_online(candidates: Seq<AgentCard>) -> Option<Seq<char>>
    decreases candidates.len(),
{
    if candidates.len() == 0 {
        None
    } else if candidates[0].status == AgentStatus::Online {
        Some(candidates[0].agent_id@)
    } else {
        first_online(candidates.drop_first())
    }
}

/// Chooses one agent, by id, out of a list of candidates for a task.
pub trait PeerSelector {
    fn select(&self, candidates: &[AgentCard], task_description: &str) -> Option<String>;
}

/// Picks the first online candidate.
pub struct FirstMatchSelector;

impl FirstMatchSelector {
    pub fn select_first(candidates: &[AgentCard]) -> (res: Option<String>)
        ensures
            match res {
                Some(id) => first_online(candidates@) == Some(id@),
                None => first_online(candidates@) is None,
            },
    {
        let mut i: usize = 0;
        assert(candidates@.skip(0) =~= candidates@);
        while i < candidates.len()
            invariant
                i <= candidates@.len(),
                first_online(candidates@) == first_online(candidates@.skip(i as int)),
            decreases candidates@.len() - i,
        {
            assert(candidates@.skip(i as int).drop_first() =~= candidates@.skip(i + 1));
            if candidates[i].status == AgentStatus::Online {
                return Some(candidates[i].agent_id.clone());
            }
            i = i + 1;
        }
        None
    }
}

impl PeerSelector for FirstMatchSelector {
    /// The first online candidate; the task description is not read.
    fn select(&self, candidates: &[AgentCard], task_description: &str) -> (res: Option<String>)
        ensures
            match res {
                Some(id) => first_online(candidates@) == Some(id@),
                None => first_online(candidates@) is None,
            },
    {
        FirstMatchSelector::select_first(candidates)
    }
}

/// One card per agent id.
pub struct AgentRegistry {
    agents: Vec<AgentCard>,
}

impl AgentRegistry {
    /// The registered cards keyed by agent id.
    pub closed spec fn view_map(&self) -> Map<Seq<char>, AgentCardView> {
        Map::new(
            |id: Seq<char>| exists|i: int| 0 <= i < self.agents@.len() && self.agents@[i].agent_id@ == id,
            |id: Seq<char>|
                self.agents@[choose|i: int| 0 <= i < self.agents@.len() && self.agents@[i].agent_id@ == id]@,
        )
    }

    /// The registered cards in registration order.
    pub closed spec fn cards(&self) -> Seq<AgentCardView> {
        self.agents@.map_values(|c: AgentCard| c@)
    }

    pub closed spec fn wf(&self) -> bool {
        forall|i: int, j: int|
            0 <= i < self.agents@.len() && 0 <= j < self.agents@.len() && i != j
                ==> self.agents@[i].agent_id@ != self.agents@[j].agent_id@
    }

    /// The cards in registration order are exactly the registered cards, once each.
    pub proof fn lemma_cards_view(&self)
        requires
            self.wf(),
        ensures
            forall|i: int|
                0 <= i < self.cards().len() ==> self.view_map().contains_key(
                    #[trigger] self.cards()[i].agent_id,
                ) && self.view_map()[self.cards()[i].agent_id] == self.cards()[i],
            forall|id: Seq<char>|
                #[trigger] self.view_map().contains_key(id) ==> exists|i: int|
                    0 <= i < self.cards().len() && self.cards()[i].agent_id == id,
    {
        assert forall|i: int|
            0 <= i < self.cards().len() implies self.view_map().contains_key(
            #[trigger] self.cards()[i].agent_id,
        ) && self.view_map()[self.cards()[i].agent_id] == self.cards()[i] by {
            assert(self.cards()[i] == self.agents@[i]@);
            let id = self.agents@[i].agent_id@;
            let j = choose|j: int| 0 <= j < self.agents@.len() && self.agents@[j].agent_id@ == id;
            assert(j == i);
        }
        assert forall|id: Seq<char>| #[trigger] self.view_map().contains_key(id) implies exists|i: int|
            0 <= i < self.cards().len() && self.cards()[i].agent_id == id by {
            let j = choose|j: int| 0 <= j < self.agents@.len() && self.agents@[j].agent_id@ == id;
            assert(self.cards()[j] == self.agents@[j]@);
        }
    }

    pub fn new() -> (res: Self)
        ensures
            res.wf(),
            res.view_map() == Map::<Seq<char>, AgentCardView>::empty(),
            res.cards().len() == 0,
    {
        let r = AgentRegistry { agents: Vec::new() };
        assert(r.view_map() =~= Map::<Seq<char>, AgentCardView>::empty());
        r
    }

    fn position(&self, agent_id: &str) -> (res: Option<usize>)
        ensures
            match res {
                Some(i) => i < self.agents@.len() && self.agents@[i as int].agent_id@ == agent_id@,
                None => forall|i: int| 0 <= i < self.agents@.len() ==> self.agents@[i].agent_id@ != agent_id@,
            },
    {
        let id = agent_id.to_owned();
        let mut i: usize = 0;
        while i < self.agents.len()
            invariant
                i <= self.agents@.len(),
                id@ == agent_id@,
                forall|j: int| 0 <= j < i ==> self.agents@[j].agent_id@ != agent_id@,
            decreases self.agents@.len() - i,
        {
            if self.agents[i].agent_id == id {
                return Some(i);
            }
            i = i + 1;
        }
        None
    }

    /// Adds a card, replacing any card with the same agent id.
    pub fn register(&mut self, card: AgentCard)
        requires
            old(self).wf(),
        ensures
            final(self).wf(),
            final(self).view_map() == old(self).view_map().insert(card.agent_id@, card@),
    {
        let ghost c = card;
        let ghost before = self.agents@;
        match self.position(card.agent_id.as_str()) {
            Some(i) => {
                self.agents.set(i, card);
                proof {
                    self.lemma_after_set(before, i as int, c);
                    assert forall|id: Seq<char>|
                        self.view_map().contains_key(id) == old(self).view_map().insert(c.agent_id@, c@).contains_key(id) by {
                        if id == c.agent_id@ {
                            assert(before[i as int].agent_id@ == id);
                        }
                    }
                    assert(self.view_map() =~= old(self).view_map().insert(c.agent_id@, c@));
                }
            },
            None => {
                self.agents.push(card);
                proof {
                    let n = self.agents@.len() - 1;
                    assert forall|id: Seq<char>|
                        self.view_map().contains_key(id) == old(self).view_map().insert(c.agent_id@, c@).contains_key(id) by {
                        if id != c.agent_id@ && old(self).view_map().contains_key(id) {
                            let j = choose|j: int| 0 <= j < before.len() && before[j].agent_id@ == id;
                            assert(self.agents@[j].agent_id@ == id);
                        }
                        if self.view_map().contains_key(id) && id != c.agent_id@ {
                            let j = choose|j: int| 0 <= j < self.agents@.len() && self.agents@[j].agent_id@ == id;
                            assert(j != n);
                            assert(before[j].agent_id@ == id);
                        }
                        if id == c.agent_id@ {
                            assert(self.agents@[n].agent_id@ == id);
                        }
                    }
                    assert forall|id: Seq<char>| #[trigger] self.view_map().contains_key(id) implies
                        self.view_map()[id] == old(self).view_map().insert(c.agent_id@, c@)[id] by {
                        let j = choose|j: int| 0 <= j < self.agents@.len() && self.agents@[j].agent_id@ == id;
                        if id == c.agent_id@ {
                            assert(j == n);
                        } else {
                            assert(self.agents@[j] == before[j]);
                            let j0 = choose|j0: int| 0 <= j0 < before.len() && before[j0].agent_id@ == id;
                            assert(j0 == j);
                        }
                    }
                    assert(self.view_map() =~= old(self).view_map().insert(c.agent_id@, c@));
                }
            },
        }
    }

    /// After overwriting position `i` with a card of the same id, the map
    /// changes only at that id.
    proof fn lemma_after_set(&self, before: Seq<AgentCard>, i: int, c: AgentCard)
        requires
            0 <= i < before.len(),
            self.agents@ == before.update(i, c),
            before[i].agent_id@ == c.agent_id@,
            forall|a: int, b: int|
                0 <= a < before.len() && 0 <= b < before.len() && a != b
                    ==> before[a].agent_id@ != before[b].agent_id@,
        ensures
            self.wf(),
            forall|id: Seq<char>|
                self.view_map().contains_key(id) == (exists|j: int| 0 <= j < before.len() && before[j].agent_id@ == id),
            forall|id: Seq<char>|
                #[trigger] self.view_map().contains_key(id) && id != c.agent_id@ ==> self.view_map()[id]
                    == before[choose|j: int| 0 <= j < before.len() && before[j].agent_id@ == id]@,
            self.view_map().contains_key(c.agent_id@),
            self.view_map()[c.agent_id@] == c@,
    {
        assert forall|id: Seq<char>|
            self.view_map().contains_key(id) == (exists|j: int| 0 <= j < before.len() && before[j].agent_id@ == id) by {
            if exists|j: int| 0 <= j < before.len() && before[j].agent_id@ == id {
                let j = choose|j: int| 0 <= j < before.len() && before[j].agent_id@ == id;
                assert(self.agents@[j].agent_id@ == id);
            }
            if self.view_map().contains_key(id) {
                let j = choose|j: int| 0 <= j < self.agents@.len() && self.agents@[j].agent_id@ == id;
                assert(before[j].agent_id@ == id);
            }
        }
        assert forall|id: Seq<char>|
            #[trigger] self.view_map().contains_key(id) && id != c.agent_id@ implies self.view_map()[id]
                == before[choose|j: int| 0 <= j < before.len() && before[j].agent_id@ == id]@ by {
            let j = choose|j: int| 0 <= j < self.agents@.len() && self.agents@[j].agent_id@ == id;
            let j0 = choose|j: int| 0 <= j < before.len() && before[j].agent_id@ == id;
            assert(j != i);
            assert(self.agents@[j] == before[j]);
            assert(j0 == j);
        }
        assert(self.agents@[i] == c);
        let j = choose|j: int| 0 <= j < self.agents@.len() && self.agents@[j].agent_id@ == c.agent_id@;
        assert(j == i);
    }
    /// Removes the card of `agent_id`; `true` when there was one.
    pub fn deregister(&mut self, agent_id: &str) -> (res: bool)
        requires
            old(self).wf(),
        ensures
            final(self).wf(),
            res == old(self).view_map().contains_key(agent_id@),
            final(self).view_map() == old(self).view_map().remove(agent_id@),
    {
        match self.position(agent_id) {
            Some(i) => {
                let ghost before = self.agents@;
                self.agents.remove(i);
                proof {
                    assert(self.agents@ =~= before.remove(i as int));
                    assert forall|a: int, b: int|
                        0 <= a < self.agents@.len() && 0 <= b < self.agents@.len() && a != b implies self.agents@[a].agent_id@
                        != self.agents@[b].agent_id@ by {
                        let a2 = if a < i { a } else { a + 1 };
                        let b2 = if b < i { b } else { b + 1 };
                        assert(self.agents@[a] == before[a2]);
                        assert(self.agents@[b] == before[b2]);
                    }
                    assert forall|id: Seq<char>| #![trigger self.view_map().contains_key(id)]
                        self.view_map().contains_key(id) == old(self).view_map().remove(agent_id@).contains_key(id) by {
                        if id != agent_id@ && old(self).view_map().contains_key(id) {
                            let j = choose|j: int| 0 <= j < before.len() && before[j].agent_id@ == id;
                            assert(j != i);
                            let j2 = if j < i { j } else { j - 1 };
                            assert(self.agents@[j2] == before[j]);
                        }
                        if self.view_map().contains_key(id) {
                            let j = choose|j: int| 0 <= j < self.agents@.len() && self.agents@[j].agent_id@ == id;
                            let j2 = if j < i { j } else { j + 1 };
                            assert(self.agents@[j] == before[j2]);
                            assert(j2 != i);
                        }
                    }
                    assert forall|id: Seq<char>| #[trigger] self.view_map().contains_key(id) implies
                        self.view_map()[id] == old(self).view_map()[id] by {
                        let j = choose|j: int| 0 <= j < self.agents@.len() && self.agents@[j].agent_id@ == id;
                        let j2 = if j < i { j } else { j + 1 };
                        assert(self.agents@[j] == before[j2]);
                    }
                    assert(self.view_map() =~= old(self).view_map().remove(agent_id@));
                }
                true
            },
            None => {
                proof {
                    assert(self.view_map() =~= old(self).view_map().remove(agent_id@));
                }
                false
            },
        }
    }

    /// Sets the status of `agent_id`'s card; `true` when there was one.
    pub fn update_status(&mut self, agent_id: &str, status: AgentStatus) -> (res: bool)
        requires
            old(self).wf(),
        ensures
            final(self).wf(),
            res == old(self).view_map().contains_key(agent_id@),
            res ==> final(self).view_map() == old(self).view_map().insert(
                agent_id@,
                AgentCardView { status, ..old(self).view_map()[agent_id@] },
            ),
            !res ==> final(self).view_map() == old(self).view_map(),
    {
        let ghost before = self.agents@;
        match self.position(agent_id) {
            Some(i) => {
                let card = self.agents.remove(i);
                let updated = AgentCard { status, ..card };
                self.agents.insert(i, updated);
                proof {
                    assert(self.agents@ =~= before.update(i as int, updated));
                    self.lemma_after_set(before, i as int, updated);
                    let j0 = choose|j: int| 0 <= j < before.len() && before[j].agent_id@ == agent_id@;
                    assert(j0 == i);
                    assert(old(self).view_map()[agent_id@] == before[i as int]@);
                    assert(updated@ == AgentCardView { status, ..before[i as int]@ });
                    assert forall|id: Seq<char>|
                        self.view_map().contains_key(id) == old(self).view_map().insert(agent_id@, updated@).contains_key(id) by {
                        if id == agent_id@ {
                            assert(before[i as int].agent_id@ == id);
                        }
                    }
                    assert(self.view_map() =~= old(self).view_map().insert(agent_id@, updated@));
                }
                true
            },
            None => {
                assert(self.view_map() =~= old(self).view_map());
                false
            },
        }
    }

    /// A copy of the card registered under `agent_id`.
    pub fn get(&self, agent_id: &str) -> (res: Option<AgentCard>)
        requires
            self.wf(),
        ensures
            match res {
                Some(card) => self.view_map().contains_key(agent_id@) && card@ == self.view_map()[agent_id@],
                None => !self.view_map().contains_key(agent_id@),
            },
    {
        match self.position(agent_id) {
            Some(i) => {
                let c = self.agents[i].clone();
                proof {
                    let j = choose|j: int| 0 <= j < self.agents@.len() && self.agents@[j].agent_id@ == agent_id@;
                    assert(j == i);
                }
                Some(c)
            },
            None => None,
        }
    }

    /// The cards matching `query`, in registration order.
    pub fn discover(&self, query: &DiscoverQuery) -> (res: Vec<AgentCard>)
        ensures
            res@.map_values(|c: AgentCard| c@) == self.cards().filter(|c: AgentCardView| query.matches_spec(c)),
    {
        let ghost cards = self.cards();
        let mut out: Vec<AgentCard> = Vec::new();
        let mut i: usize = 0;
        while i < self.agents.len()
            invariant
                i <= self.agents@.len(),
                cards == self.agents@.map_values(|c: AgentCard| c@),
                out@.map_values(|c: AgentCard| c@) == cards.take(i as int).filter(|c: AgentCardView| query.matches_spec(c)),
            decreases self.agents@.len() - i,
        {
            let ghost prev = out@;
            if query.matches(&self.agents[i]) {
                out.push(self.agents[i].clone());
            }
            proof {
                assert(cards.take(i + 1).drop_last() =~= cards.take(i as int));
                assert(cards[i as int] == self.agents@[i as int]@);
                reveal_with_fuel(Seq::filter, 1);
                assert(out@.map_values(|c: AgentCard| c@) =~= cards.take(i + 1).filter(|c: AgentCardView| query.matches_spec(c))) by {
                    if query.matches_spec(cards[i as int]) {
                        assert(out@.map_values(|c: AgentCard| c@) =~= prev.map_values(|c: AgentCard| c@).push(cards[i as int]));
                    } else {
                        assert(out@ == prev);
                    }
                }
            }
            i = i + 1;
        }
        assert(cards.take(self.agents@.len() as int) =~= cards);
        out
    }

    /// Every registered card, in registration order.
    pub fn list_all(&self) -> (res: Vec<AgentCard>)
        ensures
            res@.map_values(|c: AgentCard| c@) == self.cards(),
    {
        let mut out: Vec<AgentCard> = Vec::new();
        let mut i: usize = 0;
        while i < self.agents.len()
            invariant
                i <= self.agents@.len(),
                out@.len() == i,
                forall|k: int| 0 <= k < i ==> #[trigger] out@[k]@ == self.agents@[k]@,
            decreases self.agents@.len() - i,
        {
            out.push(self.agents[i].clone());
            i = i + 1;
        }
        assert(out@.map_values(|c: AgentCard| c@) =~= self.cards());
        out
    }
}

/// A card registered under an id is what a lookup of that id then finds.
pub proof fn law_get_after_register(before: AgentRegistry, after: AgentRegistry, card: AgentCardView)
    requires
        after.view_map() == before.view_map().insert(card.agent_id, card),
    ensures
        after.view_map().contains_key(card.agent_id),
        after.view_map()[card.agent_id] == card,
{
}

/// Registering a new agent and then removing it leaves the registry as it was.
pub proof fn law_deregister_undoes_register(
    before: AgentRegistry,
    middle: AgentRegistry,
    after: AgentRegistry,
    card: AgentCardView,
)
    requires
        !before.view_map().contains_key(card.agent_id),
        middle.view_map() == before.view_map().insert(card.agent_id, card),
        after.view_map() == middle.view_map().remove(card.agent_id),
    ensures
        after.view_map() == before.view_map(),
{
    assert(after.view_map() =~= before.view_map());
}

/// Changing an agent's status changes nothing else: every other agent keeps
/// its card, and the agent keeps every other field.
pub proof fn law_update_status_is_local(
    before: AgentRegistry,
    after: AgentRegistry,
    agent_id: Seq<char>,
    status: AgentStatus,
)
    requires
        before.view_map().contains_key(agent_id),
        after.view_map() == before.view_map().insert(
            agent_id,
            AgentCardView { status, ..before.view_map()[agent_id] },
        ),
    ensures
        after.view_map().dom() == before.view_map().dom(),
        forall|id: Seq<char>|
            #[trigger] before.view_map().contains_key(id) && id != agent_id ==> after.view_map()[id]
                == before.view_map()[id],
        after.view_map()[agent_id].status == status,
        after.view_map()[agent_id].capabilities == before.view_map()[agent_id].capabilities,
        after.view_map()[agent_id].name == before.view_map()[agent_id].name,
{
    assert(after.view_map().dom() =~= before.view_map().dom());
}

} // verus!
