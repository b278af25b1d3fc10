//! The interactive session of `enki join`: what each typed line asks for, and
//! the session ids handed to the runtime.
use crate::manifest::AgentConfig;
use crate::text::{
    cat3, chars_eq, chars_of, char_index, find_char, lower_chars, lower_seq, slice_to_vec,
    starts_with, string_from, trim, trim_chars, trim_seq, u128_to_string, decimal,
};
use vstd::prelude::*;

verus! {

pub struct InteractiveCliClient {
    default_agent_id: String,
    agent_ids: Vec<String>,
    session_counter: u64,
}

pub enum ClientEvent {
    Quit,
    ShowAgents,
    ShowHelp,
    SendMessage { agent_id: String, message: String },
}

/// What a `ClientEvent` says, over plain sequences.
pub enum ClientEventView {
    Quit,
    ShowAgents,
    ShowHelp,
    SendMessage { agent_id: Seq<char>, message: Seq<char> },
}

impl View for ClientEvent {
    type V = ClientEventView;

    open spec fn view(&self) -> ClientEventView {
        match self {
            ClientEvent::Quit => ClientEventView::Quit,
            ClientEvent::ShowAgents => ClientEventView::ShowAgents,
            ClientEvent::ShowHelp => ClientEventView::ShowHelp,
            ClientEvent::SendMessage { agent_id, message } => ClientEventView::SendMessage {
                agent_id: agent_id@,
                message: message@,
            },
        }
    }
}

pub open spec fn event_result_view(r: Result<ClientEvent, String>) -> Result<ClientEventView, Seq<char>> {
    match r {
        Ok(e) => Ok(e@),
        Err(m) => Err(m@),
    }
}

pub open spec fn target_result_view(r: Result<(String, String), String>) -> Result<
    (Seq<char>, Seq<char>),
    Seq<char>,
> {
    match r {
        Ok(p) => Ok((p.0@, p.1@)),
        Err(m) => Err(m@),
    }
}

pub open spec fn unknown_agent_message(agent_id: Seq<char>) -> Seq<char> {
    "unknown agent '"@ + agent_id + "'. Type /agents to see available agents."@
}

/// Where a message line goes: `@agent-id <message>` names an agent, which must
/// be known and get a non-empty message; any other line goes to the default
/// agent unchanged.
pub open spec fn target_spec(default: Seq<char>, ids: Seq<Seq<char>>, input: Seq<char>) -> Result<
    (Seq<char>, Seq<char>),
    Seq<char>,
> {
    if input.len() > 0 && input[0] == '@' {
        match char_index(input, ' ') {
            None => Err("usage: @agent-id <message>"@),
            Some(sp) => {
                let agent_id = input.subrange(1, sp);
                let message = trim_seq(input.subrange(sp + 1, input.len() as int));
                if !ids.contains(agent_id) {
                    Err(unknown_agent_message(agent_id))
                } else if message.len() == 0 {
                    Err("message cannot be empty"@)
                } else {
                    Ok((agent_id, message))
                }
            },
        }
    } else {
        Ok((default, input))
    }
}

pub open spec fn is_quit_word(s: Seq<char>) -> bool {
    let l = lower_seq(s);
    l == "quit"@ || l == "exit"@ || l == "q"@
}

pub open spec fn use_prefix(input: Seq<char>) -> bool {
    input.len() >= 5 && input.subrange(0, 5) == "/use "@
}

/// The agent named by a `/use <agent-id>` line.
pub open spec fn use_argument(input: Seq<char>) -> Seq<char> {
    trim_seq(input.subrange(5, input.len() as int))
}

/// The event a typed line stands for, or the message shown for it.
pub open spec fn line_spec(default: Seq<char>, ids: Seq<Seq<char>>, line: Seq<char>) -> Result<
    ClientEventView,
    Seq<char>,
> {
    let input = trim_seq(line);
    if input.len() == 0 {
        Ok(ClientEventView::ShowHelp)
    } else if is_quit_word(input) {
        Ok(ClientEventView::Quit)
    } else if input == "/agents"@ {
        Ok(ClientEventView::ShowAgents)
    } else if input == "/help"@ {
        Ok(ClientEventView::ShowHelp)
    } else if use_prefix(input) {
        let agent_id = use_argument(input);
        if agent_id.len() == 0 {
            Err("usage: /use <agent-id>"@)
        } else if !ids.contains(agent_id) {
            Err(unknown_agent_message(agent_id))
        } else {
            Ok(ClientEventView::ShowAgents)
        }
    } else {
        match target_spec(default, ids, input) {
            Ok(p) => Ok(ClientEventView::SendMessage { agent_id: p.0, message: p.1 }),
            Err(m) => Err(m),
        }
    }
}

/// The default agent after a line: a successful `/use` switches to the
/// named agent; every other line leaves it.
pub open spec fn default_after(default: Seq<char>, ids: Seq<Seq<char>>, line: Seq<char>) -> Seq<char> {
    let input = trim_seq(line);
    if input.len() > 0 && !is_quit_word(input) && input != "/agents"@ && input != "/help"@
        && use_prefix(input) && use_argument(input).len() > 0 && ids.contains(use_argument(input)) {
        use_argument(input)
    } else {
        default
    }
}

/// A line that is an ordinary message: after trimming it is not empty, not a
/// command, and names no agent with `@`.
pub open spec fn plain_message(line: Seq<char>) -> bool {
    let input = trim_seq(line);
    &&& input.len() > 0
    &&& !is_quit_word(input)
    &&& input != "/agents"@
    &&& input != "/help"@
    &&& !use_prefix(input)
    &&& input[0] != '@'
}

/// After a successful `/use <agent-id>`, an ordinary message goes to that
/// agent, trimmed.
pub proof fn law_use_redirects_messages(default: Seq<char>, ids: Seq<Seq<char>>, use_line: Seq<char>, line: Seq<char>)
    requires
        use_prefix(trim_seq(use_line)),
        line_spec(default, ids, use_line) == Ok::<ClientEventView, Seq<char>>(ClientEventView::ShowAgents),
        plain_message(line),
    ensures
        default_after(default, ids, use_line) == use_argument(trim_seq(use_line)),
        line_spec(default_after(default, ids, use_line), ids, line) == Ok::<ClientEventView, Seq<char>>(
            ClientEventView::SendMessage { agent_id: use_argument(trim_seq(use_line)), message: trim_seq(line) },
        ),
{
    let input = trim_seq(use_line);
    reveal_strlit("/agents");
    reveal_strlit("/help");
    reveal_strlit("/use ");
    assert(input.subrange(0, 5) == "/use "@);
    assert(input.subrange(0, 5)[0] == input[0]);
    assert(input.subrange(0, 5)[1] == input[1]);
}

pub open spec fn session_id_spec(agent_id: Seq<char>, n: nat) -> Seq<char> {
    "join-"@ + agent_id + "-"@ + decimal(n)
}

impl InteractiveCliClient {
    pub closed spec fn default_agent(&self) -> Seq<char> {
        self.default_agent_id@
    }

    pub closed spec fn known_ids(&self) -> Seq<Seq<char>> {
        self.agent_ids@.map_values(|s: String| s@)
    }

    /// How many session ids have been handed out.
    pub closed spec fn sessions(&self) -> nat {
        self.session_counter as nat
    }

    pub fn new(default_agent_id: &str, agents: &[AgentConfig]) -> (c: Self)
        ensures
            c.default_agent() == default_agent_id@,
            c.known_ids() == agents@.map_values(|a: AgentConfig| a.id@),
            c.sessions() == 0,
    {
        let mut ids: Vec<String> = Vec::new();
        let mut i: usize = 0;
        while i < agents.len()
            invariant
                i <= agents@.len(),
                ids@.len() == i,
                forall|k: int| 0 <= k < i ==> #[trigger] ids@[k]@ == agents@[k].id@,
            decreases agents@.len() - i,
        {
            ids.push(agents[i].id.clone());
            i = i + 1;
        }
        assert(ids@.map_values(|s: String| s@) =~= agents@.map_values(|a: AgentConfig| a.id@));
        InteractiveCliClient {
            default_agent_id: default_agent_id.to_owned(),
            agent_ids: ids,
            session_counter: 0,
        }
    }

    pub fn default_agent_id(&self) -> (res: &str)
        ensures
            res@ == self.default_agent(),
    {
        self.default_agent_id.as_str()
    }

    /// A fresh session id for `agent_id`, numbered from 1 in the order handed out.
    pub fn next_session_id(&mut self, agent_id: &str) -> (id: String)
        requires
            old(self).sessions() < u64::MAX,
        ensures
            final(self).sessions() == old(self).sessions() + 1,
            final(self).default_agent() == old(self).default_agent(),
            final(self).known_ids() == old(self).known_ids(),
            id@ == session_id_spec(agent_id@, final(self).sessions()),
    {
        self.session_counter = self.session_counter + 1;
        let n = u128_to_string(self.session_counter as u128);
        let prefix = cat3("join-", agent_id, "-");
        let id = cat3(prefix.as_str(), n.as_str(), "");
        proof {
            reveal_strlit("");
            assert(id@ =~= session_id_spec(agent_id@, self.sessions()));
        }
        id
    }

    fn ensure_agent_exists(&self, agent_id: &str) -> (res: Result<(), String>)
        ensures
            res is Ok <==> self.known_ids().contains(agent_id@),
            res matches Err(m) ==> m@ == unknown_agent_message(agent_id@),
    {
        let mut i: usize = 0;
        while i < self.agent_ids.len()
            invariant
                i <= self.agent_ids@.len(),
                forall|k: int| 0 <= k < i ==> self.agent_ids@[k]@ != agent_id@,
            decreases self.agent_ids@.len() - i,
        {
            if crate::text::str_eq(self.agent_ids[i].as_str(), agent_id) {
                proof {
                    assert(self.known_ids()[i as int] == agent_id@);
                }
                return Ok(());
            }
            i = i + 1;
        }
        proof {
            if self.known_ids().contains(agent_id@) {
                let k = choose|k: int| 0 <= k < self.known_ids().len() && self.known_ids()[k] == agent_id@;
                assert(self.agent_ids@[k]@ == agent_id@);
            }
        }
        Err(cat3("unknown agent '", agent_id, "'. Type /agents to see available agents."))
    }

    /// The agent and message a line is sent as (see `target_spec`).
    pub fn parse_message_target(&self, input: &str) -> (res: Result<(String, String), String>)
        ensures
            target_result_view(res) == target_spec(self.default_agent(), self.known_ids(), input@),
    {
        let chars = chars_of(input);
        if chars.len() > 0 && chars[0] == '@' {
            let space = find_char(&chars, ' ');
            match space {
                None => {
                    return Err("usage: @agent-id <message>".to_owned());
                },
                Some(sp) => {
                    let id_chars = slice_to_vec(&chars, 1, sp);
                    let rest = slice_to_vec(&chars, sp + 1, chars.len());
                    let msg_chars = trim_chars(&rest);
                    let agent_id = string_from(&id_chars);
                    match self.ensure_agent_exists(agent_id.as_str()) {
                        Err(e) => {
                            return Err(e);
                        },
                        Ok(()) => {},
                    }
                    if msg_chars.len() == 0 {
                        return Err("message cannot be empty".to_owned());
                    }
                    let message = string_from(&msg_chars);
                    return Ok((agent_id, message));
                },
            }
        }
        Ok((self.default_agent_id.clone(), input.to_owned()))
    }

    /// What a typed line asks for (see `line_spec`); a successful
    /// `/use <agent-id>` also makes that agent the default.
    pub fn event_for_line(&mut self, line: &str) -> (res: Result<ClientEvent, String>)
        ensures
            event_result_view(res) == line_spec(old(self).default_agent(), old(self).known_ids(), line@),
            final(self).default_agent() == default_after(
                old(self).default_agent(),
                old(self).known_ids(),
                line@,
            ),
            final(self).known_ids() == old(self).known_ids(),
            final(self).sessions() == old(self).sessions(),
    {
        let input = trim(line);
        let chars = chars_of(input.as_str());
        if chars.len() == 0 {
            return Ok(ClientEvent::ShowHelp);
        }
        let lowered = lower_chars(&chars);
        let quit = chars_of("quit");
        let exit = chars_of("exit");
        let q = chars_of("q");
        if chars_eq(&lowered, &quit) || chars_eq(&lowered, &exit) || chars_eq(&lowered, &q) {
            return Ok(ClientEvent::Quit);
        }
        if chars_eq(&chars, &chars_of("/agents")) {
            return Ok(ClientEvent::ShowAgents);
        }
        if chars_eq(&chars, &chars_of("/help")) {
            return Ok(ClientEvent::ShowHelp);
        }
        let use_cmd = chars_of("/use ");
        if starts_with(&chars, &use_cmd) {
            proof {
                reveal_strlit("/use ");
            }
            let rest = slice_to_vec(&chars, 5, chars.len());
            let arg = trim_chars(&rest);
            if arg.len() == 0 {
                return Err("usage: /use <agent-id>".to_owned());
            }
            let agent_id = string_from(&arg);
            match self.ensure_agent_exists(agent_id.as_str()) {
                Err(e) => {
                    return Err(e);
                },
                Ok(()) => {},
            }
            self.default_agent_id = agent_id;
            return Ok(ClientEvent::ShowAgents);
        }
        proof {
            reveal_strlit("/use ");
        }
        match self.parse_message_target(input.as_str()) {
            Ok(p) => Ok(ClientEvent::SendMessage { agent_id: p.0, message: p.1 }),
            Err(e) => Err(e),
        }
    }
}

} // verus!
