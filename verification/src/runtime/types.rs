//! What flows through a runtime: requests from channels, the session each is
//! handled in, and the responses and events sent back.
use crate::agent::types::ExecutionStep;
use crate::text::{cat3, cat5, concat, decimal, u128_to_string, usize_to_string};
use vstd::prelude::*;

verus! {

pub struct RuntimeRequest {
    pub request_id: String,
    pub session_id: String,
    pub channel_id: String,
    pub user_id: Option<String>,
    pub content: String,
}

/// The id of a request made at `nanos` nanoseconds after the Unix epoch.
pub open spec fn request_id_spec(nanos: nat) -> Seq<char> {
    "rt-req-"@ + decimal(nanos)
}

/// `s` is the id of a request made at some time.
pub open spec fn is_request_id(s: Seq<char>) -> bool {
    exists|t: nat| #[trigger] request_id_spec(t) == s
}

/// The current time: `SystemTime::now()` as nanoseconds since the Unix
/// epoch, or 0 when the clock reads earlier. Nothing is promised of the
/// value.
#[verifier::external_body]
pub(crate) fn current_timestamp_nanos() -> (res: u128) {
    std::time::SystemTime::now().duration_since(std::time::UNIX_EPOCH).map(|d| d.as_nanos()).unwrap_or_default()
}

impl RuntimeRequest {
    /// A request made at time `nanos`, from no particular user.
    pub fn at_time(nanos: u128, session_id: &str, channel_id: &str, content: &str) -> (r: Self)
        ensures
            r.request_id@ == request_id_spec(nanos as nat),
            r.session_id@ == session_id@,
            r.channel_id@ == channel_id@,
            r.user_id is None,
            r.content@ == content@,
    {
        let n = u128_to_string(nanos);
        RuntimeRequest {
            request_id: concat("rt-req-", n.as_str()),
            session_id: session_id.to_owned(),
            channel_id: channel_id.to_owned(),
            user_id: None,
            content: content.to_owned(),
        }
    }

    /// A request made now: its id is `rt-req-` and the current time in
    /// nanoseconds.
    pub fn new(session_id: &str, channel_id: &str, content: &str) -> (r: Self)
        ensures
            is_request_id(r.request_id@),
            r.session_id@ == session_id@,
            r.channel_id@ == channel_id@,
            r.user_id is None,
            r.content@ == content@,
    {
        let now = current_timestamp_nanos();
        let r = RuntimeRequest::at_time(now, session_id, channel_id, content);
        proof {
            assert(request_id_spec(now as nat) == r.request_id@);
        }
        r
    }

    pub fn with_user_id(self, user_id: &str) -> (r: Self)
        ensures
            r.user_id matches Some(u) && u@ == user_id@,
            r.request_id == self.request_id,
            r.session_id == self.session_id,
            r.channel_id == self.channel_id,
            r.content == self.content,
    {
        RuntimeRequest { user_id: Some(user_id.to_owned()), ..self }
    }
}

/// The session a request is handled in, and its place in that session.
pub struct SessionContext {
    pub session_id: String,
    pub channel_id: String,
    pub sequence: u64,
}

pub struct RuntimeResponse {
    pub request_id: String,
    pub session_id: String,
    pub channel_id: String,
    pub sequence: u64,
    pub content: String,
}

pub struct RuntimeDetailedResponse {
    pub response: RuntimeResponse,
    pub steps: Vec<ExecutionStep>,
}

impl RuntimeResponse {
    /// The response to `request`, handled in `session`, with `content`.
    pub fn answer(request: &RuntimeRequest, session: &SessionContext, content: String) -> (r: Self)
        ensures
            r.request_id == request.request_id,
            r.session_id == session.session_id,
            r.channel_id == session.channel_id,
            r.sequence == session.sequence,
            r.content == content,
    {
        RuntimeResponse {
            request_id: request.request_id.clone(),
            session_id: session.session_id.clone(),
            channel_id: session.channel_id.clone(),
            sequence: session.sequence,
            content,
        }
    }
}

/// What a runtime sends back on a channel while serving it.
pub enum RuntimeEvent {
    Step { request_id: String, session_id: String, channel_id: String, sequence: u64, step: ExecutionStep },
    HumanRequest { request_id: String, session_id: String, channel_id: String, query: String },
    Final(RuntimeResponse),
}

pub open spec fn step_line_spec(step: ExecutionStep) -> Seq<char> {
    decimal(step.index as nat) + ". ["@ + step.phase@ + "] "@ + step.kind@ + ": "@ + step.detail@
}

/// How a command-line channel prints a step: `index. [phase] kind: detail`.
pub fn step_line(step: &ExecutionStep) -> (res: String)
    ensures
        res@ == step_line_spec(*step),
{
    let n = usize_to_string(step.index);
    let head = cat5(n.as_str(), ". [", step.phase.as_str(), "] ", step.kind.as_str());
    cat3(head.as_str(), ": ", step.detail.as_str())
}

} // verus!
