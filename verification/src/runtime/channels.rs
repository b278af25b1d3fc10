//! Command-line channels: a single request given as program arguments, or an
//! interactive session fed line by line. The caller reads the terminal and
//! prints; these types decide which requests the runtime gets.
use crate::runtime::types::{is_request_id, RuntimeRequest};
use crate::text::{cat3, join, join_strings, string_views, str_eq, trim, trim_seq};
use vstd::prelude::*;

verus! {

pub struct CliChannel {
    pending: Option<RuntimeRequest>,
}

pub open spec fn usage_message(program: Seq<char>) -> Seq<char> {
    "Usage: "@ + program + " <session_id> '<message>'"@
}

/// A request of the command-line channel: made on channel `cli`, for nobody
/// in particular, with the given session and content.
pub open spec fn cli_request(r: RuntimeRequest, session_id: Seq<char>, content: Seq<char>) -> bool {
    &&& is_request_id(r.request_id@)
    &&& r.session_id@ == session_id
    &&& r.channel_id@ == "cli"@
    &&& r.user_id is None
    &&& r.content@ == content
}

impl CliChannel {
    /// The request waiting to be received, if any.
    pub closed spec fn pending_view(&self) -> Option<RuntimeRequest> {
        self.pending
    }

    /// `<program> <session_id> <message...>`: the message is the remaining
    /// arguments joined by spaces.
    pub fn from_args(args: Vec<String>) -> (res: Result<Self, String>)
        ensures
            match res {
                Err(e) => args@.len() < 3 && e@ == usage_message(
                    if args@.len() > 0 {
                        args@[0]@
                    } else {
                        "core-next"@
                    },
                ),
                Ok(c) => args@.len() >= 3 && (c.pending_view() matches Some(r) && cli_request(
                    r,
                    args@[1]@,
                    join(string_views(args@.skip(2)), " "@),
                )),
            },
    {
        if args.len() < 3 {
            let program: &str = if args.len() > 0 {
                args[0].as_str()
            } else {
                "core-next"
            };
            return Err(cat3("Usage: ", program, " <session_id> '<message>'"));
        }
        let mut rest: Vec<String> = Vec::new();
        let mut i: usize = 2;
        while i < args.len()
            invariant
                2 <= i <= args@.len(),
                rest@.len() == i - 2,
                forall|k: int| 0 <= k < rest@.len() ==> (#[trigger] rest@[k])@ == args@[k + 2]@,
            decreases args@.len() - i,
        {
            rest.push(args[i].clone());
            i = i + 1;
        }
        proof {
            assert(string_views(rest@) =~= string_views(args@.skip(2)));
        }
        let message = join_strings(&rest, " ");
        let request = RuntimeRequest::new(args[1].as_str(), "cli", message.as_str());
        Ok(CliChannel { pending: Some(request) })
    }

    /// The waiting request; the channel is single-shot, so afterwards none.
    pub fn recv(&mut self) -> (res: Option<RuntimeRequest>)
        ensures
            res == old(self).pending_view(),
            final(self).pending_view() is None,
    {
        self.pending.take()
    }

    /// Queues the human's reply to an agent's question as the next request,
    /// in session `human-reply`.
    pub fn queue_human_reply(&mut self, reply: &str)
        ensures
            final(self).pending_view() matches Some(r) && cli_request(r, "human-reply"@, trim_seq(reply@)),
    {
        let text = trim(reply);
        self.pending = Some(RuntimeRequest::new("human-reply", "cli", text.as_str()));
    }
}

/// What a line typed in an interactive session asks for.
pub enum InputOutcome {
    /// A blank line: read the next one.
    Skip,
    /// End of input or an exit word: the session ends.
    Stop,
    /// A message for the agent.
    Request(RuntimeRequest),
}

pub open spec fn is_exit_word(s: Seq<char>) -> bool {
    s == "exit"@ || s == "quit"@ || s == "/exit"@ || s == "/quit"@
}

/// A channel that keeps a session open, one typed line after another, until
/// the user leaves.
pub struct InteractiveChannel {
    session_id: String,
    pending: Option<RuntimeRequest>,
    done: bool,
}

impl InteractiveChannel {
    pub closed spec fn session(&self) -> Seq<char> {
        self.session_id@
    }

    pub closed spec fn pending_view(&self) -> Option<RuntimeRequest> {
        self.pending
    }

    pub closed spec fn finished(&self) -> bool {
        self.done
    }

    /// A channel for `session_id`; with an initial message, that is the first
    /// request.
    pub fn new(session_id: &str, initial_message: Option<String>) -> (c: Self)
        ensures
            c.session() == session_id@,
            !c.finished(),
            match initial_message {
                Some(m) => c.pending_view() matches Some(r) && cli_request(r, session_id@, m@),
                None => c.pending_view() is None,
            },
    {
        let pending = match initial_message {
            Some(m) => Some(RuntimeRequest::new(session_id, "cli", m.as_str())),
            None => None,
        };
        InteractiveChannel { session_id: session_id.to_owned(), pending, done: false }
    }

    /// The queued request, if any (the caller reads a line only when there is none).
    pub fn take_queued(&mut self) -> (res: Option<RuntimeRequest>)
        ensures
            res == old(self).pending_view(),
            final(self).pending_view() is None,
            final(self).session() == old(self).session(),
            final(self).finished() == old(self).finished(),
    {
        self.pending.take()
    }

    pub fn is_done(&self) -> (res: bool)
        ensures
            res == self.finished(),
    {
        self.done
    }

    /// Takes the next typed line, or `None` at end of input.
    pub fn accept_line(&mut self, line: Option<&str>) -> (res: InputOutcome)
        ensures
            final(self).session() == old(self).session(),
            final(self).pending_view() == old(self).pending_view(),
            match line {
                None => res is Stop && final(self).finished(),
                Some(l) => {
                    let t = trim_seq(l@);
                    if t.len() == 0 {
                        res is Skip && final(self).finished() == old(self).finished()
                    } else if is_exit_word(t) {
                        res is Stop && final(self).finished()
                    } else {
                        (res matches InputOutcome::Request(r) && cli_request(r, old(self).session(), t))
                            && final(self).finished() == old(self).finished()
                    }
                },
            },
    {
        match line {
            None => {
                self.done = true;
                InputOutcome::Stop
            },
            Some(l) => {
                let t = trim(l);
                if t.as_str().unicode_len() == 0 {
                    return InputOutcome::Skip;
                }
                if str_eq(t.as_str(), "exit") || str_eq(t.as_str(), "quit") || str_eq(t.as_str(), "/exit")
                    || str_eq(t.as_str(), "/quit") {
                    self.done = true;
                    return InputOutcome::Stop;
                }
                InputOutcome::Request(RuntimeRequest::new(self.session_id.as_str(), "cli", t.as_str()))
            },
        }
    }

    /// Queues the human's reply to an agent's question as the next request,
    /// in session `human-reply`.
    pub fn queue_human_reply(&mut self, reply: &str)
        ensures
            final(self).pending_view() matches Some(r) && cli_request(r, "human-reply"@, trim_seq(reply@)),
            final(self).session() == old(self).session(),
            final(self).finished() == old(self).finished(),
    {
        let text = trim(reply);
        self.pending = Some(RuntimeRequest::new("human-reply", "cli", text.as_str()));
    }
}

} // verus!
