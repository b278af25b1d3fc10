use enki::agent::types::ExecutionStep;
use enki::registry::{AgentCard, AgentStatus};
use enki::runtime::channels::{CliChannel, InputOutcome, InteractiveChannel};
use enki::runtime::select::{online_candidates, select_by_capabilities, sort_strings, str_le};
use enki::runtime::session::SessionSequencer;
use enki::runtime::types::{step_line, RuntimeRequest, RuntimeResponse};

#[test]
fn requests_of_one_session_are_numbered_in_order() {
    let mut seq = SessionSequencer::new();
    let first = seq.acquire("session-a", "cli");
    let second = seq.acquire("session-a", "http");
    assert_eq!(first.sequence, 1);
    assert_eq!(second.sequence, 2);
    assert_eq!(second.channel_id, "http");
    assert_eq!(second.session_id, "session-a");
}

#[test]
fn sessions_are_numbered_independently() {
    let mut seq = SessionSequencer::new();
    assert_eq!(seq.acquire("session-a", "cli").sequence, 1);
    assert_eq!(seq.acquire("session-b", "cli").sequence, 1);
    assert_eq!(seq.acquire("session-a", "cli").sequence, 2);
    assert_eq!(seq.acquire("session-b", "cli").sequence, 2);
    assert_eq!(seq.acquire("session-c", "cli").sequence, 1);
}

#[test]
fn request_ids_carry_the_time() {
    let r = RuntimeRequest::at_time(42, "s", "cli", "hi");
    assert_eq!(r.request_id, "rt-req-42");
    assert_eq!(r.user_id, None);
    let r = r.with_user_id("ada");
    assert_eq!(r.user_id.as_deref(), Some("ada"));
    assert_eq!(r.content, "hi");
    let now = RuntimeRequest::new("s", "cli", "hi");
    assert!(now.request_id.starts_with("rt-req-"));
}

#[test]
fn responses_echo_request_and_session() {
    let req = RuntimeRequest::at_time(7, "s", "cli", "hi");
    let mut seq = SessionSequencer::new();
    let ctx = seq.acquire("s", "cli");
    let resp = RuntimeResponse::answer(&req, &ctx, "done".to_string());
    assert_eq!(resp.request_id, "rt-req-7");
    assert_eq!(resp.sequence, 1);
    assert_eq!(resp.content, "done");
}

#[test]
fn step_lines_are_numbered() {
    let step = ExecutionStep {
        index: 3,
        phase: "Act".to_string(),
        kind: "tool_call".to_string(),
        detail: "exec".to_string(),
    };
    assert_eq!(step_line(&step), "3. [Act] tool_call: exec");
}

#[test]
fn cli_channel_takes_session_and_message_from_arguments() {
    let args = vec!["prog".to_string(), "s1".to_string(), "hello".to_string(), "world".to_string()];
    let mut ch = CliChannel::from_args(args).ok().unwrap();
    let r = ch.recv().unwrap();
    assert_eq!(r.session_id, "s1");
    assert_eq!(r.channel_id, "cli");
    assert_eq!(r.content, "hello world");
    assert!(ch.recv().is_none());
    ch.queue_human_reply("  yes  ");
    let r = ch.recv().unwrap();
    assert_eq!(r.session_id, "human-reply");
    assert_eq!(r.content, "yes");
}

#[test]
fn cli_channel_needs_a_message() {
    let err = CliChannel::from_args(vec!["prog".to_string(), "s1".to_string()]).err().unwrap();
    assert_eq!(err, "Usage: prog <session_id> '<message>'");
    let err = CliChannel::from_args(vec![]).err().unwrap();
    assert_eq!(err, "Usage: core-next <session_id> '<message>'");
}

#[test]
fn interactive_channel_reads_until_exit() {
    let mut ch = InteractiveChannel::new("chat", Some("first".to_string()));
    assert_eq!(ch.take_queued().unwrap().content, "first");
    assert!(ch.take_queued().is_none());
    assert!(matches!(ch.accept_line(Some("   ")), InputOutcome::Skip));
    match ch.accept_line(Some("  next one ")) {
        InputOutcome::Request(r) => {
            assert_eq!(r.content, "next one");
            assert_eq!(r.session_id, "chat");
        }
        _ => panic!("expected a request"),
    }
    assert!(!ch.is_done());
    assert!(matches!(ch.accept_line(Some("/quit")), InputOutcome::Stop));
    assert!(ch.is_done());
    let mut ch = InteractiveChannel::new("chat", None);
    assert!(matches!(ch.accept_line(None), InputOutcome::Stop));
    assert!(ch.is_done());
}

#[test]
fn strings_sort_in_text_order() {
    let v = vec!["b".to_string(), "a".to_string(), "ab".to_string(), "B".to_string()];
    assert_eq!(sort_strings(&v), vec!["B", "a", "ab", "b"]);
    assert!(str_le("a", "ab"));
    assert!(!str_le("b", "ab"));
}

fn cand(id: &str, caps: &[&str]) -> (String, Vec<String>) {
    (id.to_string(), caps.iter().map(|c| c.to_string()).collect())
}

#[test]
fn capability_selection_needs_exactly_one_agent() {
    let cands = vec![
        cand("writer", &["write"]),
        cand("critic-b", &["audit", "write"]),
        cand("critic-a", &["audit"]),
    ];
    let need = |caps: &[&str]| caps.iter().map(|c| c.to_string()).collect::<Vec<_>>();
    assert_eq!(
        select_by_capabilities(&cands, &need(&["audit", "write"]), "none: ").ok().unwrap(),
        "critic-b"
    );
    assert_eq!(
        select_by_capabilities(&cands, &need(&["audit"]), "none: ").err().unwrap(),
        "Multiple agents matched workflow capabilities audit: critic-a, critic-b"
    );
    assert_eq!(
        select_by_capabilities(&cands, &need(&["deploy", "test"]), "No agent for ").err().unwrap(),
        "No agent for deploy, test"
    );
}

#[test]
fn only_online_agents_are_candidates() {
    let cards = vec![
        AgentCard::new("a", "A", "...", vec!["x".into()]),
        AgentCard::new("b", "B", "...", vec!["y".into()]).with_status(AgentStatus::Offline),
        AgentCard::new("c", "C", "...", vec![]).with_status(AgentStatus::Busy),
    ];
    let out = online_candidates(&cards);
    assert_eq!(out, vec![("a".to_string(), vec!["x".to_string()])]);
}
