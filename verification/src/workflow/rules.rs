//! The text rules of a workflow run: how a human's answer is read, how
//! conditions and prompt templates are taken apart, and the names a run gives
//! to sessions and interventions. Looking values up in the run's JSON context
//! is left to the caller.
use crate::text::{
    cat3, cat4, cat5, chars_of, concat, decimal, find_char_from, find_str_from, lemma_char_index_from_bounds,
    lemma_occurrence_from_bounds, char_index_from, lower_chars, lower_seq, occurrence_from, slice_to_vec,
    string_from, trim, trim_chars, trim_seq, u128_to_string, usize_to_string,
};
use crate::workflow::types::{NodeStatus, WorkflowStatus};
use vstd::prelude::*;

verus! {

// ---------------------------------------------------------------------------
// Answers
// ---------------------------------------------------------------------------

/// A text answer counts as yes unless, trimmed and lower-cased, it is empty,
/// `false`, `0` or `no`.
pub open spec fn text_truthy(s: Seq<char>) -> bool {
    let n = lower_seq(trim_seq(s));
    !(n.len() == 0 || n == "false"@ || n == "0"@ || n == "no"@)
}

pub fn string_truthy(s: &str) -> (res: bool)
    ensures
        res == text_truthy(s@),
{
    let n = lower_chars(&trim_chars(&chars_of(s)));
    let v = string_from(&n);
    !(n.len() == 0 || crate::text::str_eq(v.as_str(), "false") || crate::text::str_eq(v.as_str(), "0")
        || crate::text::str_eq(v.as_str(), "no"))
}

/// What an answer to a failed step's intervention asks for.
#[derive(PartialEq, Eq, Structural, Clone, Copy, Debug)]
pub enum InterventionAction {
    Retry,
    Skip,
    Continue,
    Fail,
}

/// `retry`, `skip` and `continue`, in any case and surrounded by any
/// whitespace, name their action; any other answer, or none, fails the node.
pub open spec fn intervention_action_spec(response: Option<Seq<char>>) -> InterventionAction {
    let n = match response {
        Some(r) => lower_seq(trim_seq(r)),
        None => seq![],
    };
    if n == "retry"@ {
        InterventionAction::Retry
    } else if n == "skip"@ {
        InterventionAction::Skip
    } else if n == "continue"@ {
        InterventionAction::Continue
    } else {
        InterventionAction::Fail
    }
}

pub fn intervention_action(response: Option<&str>) -> (res: InterventionAction)
    ensures
        res == intervention_action_spec(
            match response {
                Some(r) => Some(r@),
                None => None,
            },
        ),
{
    let raw: &str = match response {
        Some(r) => r,
        None => "",
    };
    proof {
        reveal_strlit("");
        assert(lower_seq(trim_seq(""@)) =~= seq![]) by {
            assert(""@ =~= Seq::<char>::empty());
        }
    }
    let n = string_from(&lower_chars(&trim_chars(&chars_of(raw))));
    if crate::text::str_eq(n.as_str(), "retry") {
        InterventionAction::Retry
    } else if crate::text::str_eq(n.as_str(), "skip") {
        InterventionAction::Skip
    } else if crate::text::str_eq(n.as_str(), "continue") {
        InterventionAction::Continue
    } else {
        InterventionAction::Fail
    }
}

/// What an action does to the node and the run: retry sends the node back to
/// pending, skip skips it, continue fails it and lets the run go on, fail
/// fails both. The flag says whether the node joins the failed nodes.
pub open spec fn action_effect_spec(a: InterventionAction) -> (NodeStatus, WorkflowStatus, bool) {
    match a {
        InterventionAction::Retry => (NodeStatus::Pending, WorkflowStatus::Running, false),
        InterventionAction::Skip => (NodeStatus::Skipped, WorkflowStatus::Running, false),
        InterventionAction::Continue => (NodeStatus::Failed, WorkflowStatus::Running, true),
        InterventionAction::Fail => (NodeStatus::Failed, WorkflowStatus::Failed, true),
    }
}

pub fn action_effect(a: InterventionAction) -> (res: (NodeStatus, WorkflowStatus, bool))
    ensures
        res == action_effect_spec(a),
{
    match a {
        InterventionAction::Retry => (NodeStatus::Pending, WorkflowStatus::Running, false),
        InterventionAction::Skip => (NodeStatus::Skipped, WorkflowStatus::Running, false),
        InterventionAction::Continue => (NodeStatus::Failed, WorkflowStatus::Running, true),
        InterventionAction::Fail => (NodeStatus::Failed, WorkflowStatus::Failed, true),
    }
}

// ---------------------------------------------------------------------------
// Names
// ---------------------------------------------------------------------------

pub open spec fn attempt_session_spec(run_id: Seq<char>, node_id: Seq<char>, attempt: nat) -> Seq<char> {
    "wf-"@ + run_id + "-"@ + node_id + "-attempt-"@ + decimal(attempt)
}

/// The agent session of one attempt of a task node.
pub fn attempt_session_id(run_id: &str, node_id: &str, attempt: usize) -> (res: String)
    ensures
        res@ == attempt_session_spec(run_id@, node_id@, attempt as nat),
{
    let n = usize_to_string(attempt);
    let head = cat4("wf-", run_id, "-", node_id);
    cat3(head.as_str(), "-attempt-", n.as_str())
}

pub open spec fn failure_prompt_spec(node_id: Seq<char>, attempt: nat) -> Seq<char> {
    "Node '"@ + node_id + "' failed after "@ + decimal(attempt)
        + " attempt(s). Reply with retry, skip, continue, or fail."@
}

/// The question asked when a node's failure pauses the run.
pub fn failure_prompt(node_id: &str, attempt: usize) -> (res: String)
    ensures
        res@ == failure_prompt_spec(node_id@, attempt as nat),
{
    let n = usize_to_string(attempt);
    cat5("Node '", node_id, "' failed after ", n.as_str(), " attempt(s). Reply with retry, skip, continue, or fail.")
}

/// Why a failure intervention was opened.
pub fn failure_reason(error: &str) -> (res: String)
    ensures
        res@ == "step_failure:"@ + error@,
{
    concat("step_failure:", error)
}

/// The id of an intervention opened at `nanos` nanoseconds after the epoch.
pub fn intervention_id(nanos: u128) -> (res: String)
    ensures
        res@ == "int-"@ + decimal(nanos as nat),
{
    let n = u128_to_string(nanos);
    concat("int-", n.as_str())
}

// ---------------------------------------------------------------------------
// Paths
// ---------------------------------------------------------------------------

/// `str::strip_prefix("context.")`, else the path itself.
pub open spec fn normalize_path_spec(p: Seq<char>) -> Seq<char> {
    if p.len() >= 8 && p.subrange(0, 8) == "context."@ {
        p.subrange(8, p.len() as int)
    } else {
        p
    }
}

pub fn normalize_path(p: &str) -> (res: String)
    ensures
        res@ == normalize_path_spec(p@),
{
    let v = chars_of(p);
    let prefix = chars_of("context.");
    proof {
        reveal_strlit("context.");
    }
    if crate::text::starts_with(&v, &prefix) {
        string_from(&slice_to_vec(&v, 8, v.len()))
    } else {
        p.to_owned()
    }
}

/// The pieces of `s[off..]` between dots (`str::split('.')`).
pub open spec fn split_dots_from(s: Seq<char>, off: int) -> Seq<Seq<char>>
    decreases s.len() - off,
{
    if off < 0 || off > s.len() {
        seq![]
    } else {
        match char_index_from(s, '.', off) {
            None => seq![s.subrange(off, s.len() as int)],
            Some(i) => {
                proof {
                    lemma_char_index_from_bounds(s, '.', off);
                }
                seq![s.subrange(off, i)] + split_dots_from(s, i + 1)
            },
        }
    }
}

/// The keys a context path walks through: none for an empty path, else its
/// pieces between dots.
pub open spec fn path_segments_spec(path: Seq<char>) -> Option<Seq<Seq<char>>> {
    if path.len() == 0 {
        None
    } else {
        Some(split_dots_from(path, 0))
    }
}

/// `str::split('.')`: the pieces of `path` between dots.
pub fn split_path(path: &str) -> (res: Vec<String>)
    ensures
        crate::text::string_views(res@) == split_dots_from(path@, 0),
{
    let s = chars_of(path);
    let mut out: Vec<String> = Vec::new();
    let mut off: usize = 0;
    loop
        invariant_except_break
            crate::text::string_views(out@) + split_dots_from(s@, off as int) == split_dots_from(s@, 0),
        invariant
            s@ == path@,
            off <= s@.len(),
        ensures
            crate::text::string_views(out@) == split_dots_from(s@, 0),
        decreases s@.len() - off,
    {
        let ghost before = crate::text::string_views(out@);
        match find_char_from(&s, '.', off) {
            None => {
                out.push(string_from(&slice_to_vec(&s, off, s.len())));
                proof {
                    assert(crate::text::string_views(out@) =~= before + split_dots_from(s@, off as int));
                }
                break;
            },
            Some(i) => {
                out.push(string_from(&slice_to_vec(&s, off, i)));
                proof {
                    assert(crate::text::string_views(out@) =~= before.push(s@.subrange(off as int, i as int)));
                    assert(before + split_dots_from(s@, off as int) =~= crate::text::string_views(out@)
                        + split_dots_from(s@, i + 1));
                }
                off = i + 1;
            },
        }
    }
    out
}

pub fn path_segments(path: &str) -> (res: Option<Vec<String>>)
    ensures
        match res {
            Some(v) => path_segments_spec(path@) == Some(crate::text::string_views(v@)),
            None => path_segments_spec(path@) is None,
        },
{
    if path.unicode_len() == 0 {
        return None;
    }
    Some(split_path(path))
}

// ---------------------------------------------------------------------------
// Conditions
// ---------------------------------------------------------------------------

/// A condition on an edge or a decision node, taken apart: a comparison of
/// the value at a context path with a literal, a negated path, or a path.
pub enum Condition {
    Equals { path: String, literal: String },
    NotEquals { path: String, literal: String },
    Negated { path: String },
    Truthy { path: String },
}

pub enum ConditionView {
    Equals { path: Seq<char>, literal: Seq<char> },
    NotEquals { path: Seq<char>, literal: Seq<char> },
    Negated { path: Seq<char> },
    Truthy { path: Seq<char> },
}

impl View for Condition {
    type V = ConditionView;

    open spec fn view(&self) -> ConditionView {
        match self {
            Condition::Equals { path, literal } => ConditionView::Equals { path: path@, literal: literal@ },
            Condition::NotEquals { path, literal } => ConditionView::NotEquals { path: path@, literal: literal@ },
            Condition::Negated { path } => ConditionView::Negated { path: path@ },
            Condition::Truthy { path } => ConditionView::Truthy { path: path@ },
        }
    }
}

/// The condition, trimmed, split at its first `==`, else at its first `!=`;
/// else a leading `!` negates the path. Paths drop a `context.` prefix.
pub open spec fn condition_spec(raw: Seq<char>) -> ConditionView {
    let c = trim_seq(raw);
    match occurrence_from(c, "=="@, 0) {
        Some(i) => ConditionView::Equals {
            path: normalize_path_spec(trim_seq(c.subrange(0, i))),
            literal: trim_seq(c.subrange(i + 2, c.len() as int)),
        },
        None => match occurrence_from(c, "!="@, 0) {
            Some(i) => ConditionView::NotEquals {
                path: normalize_path_spec(trim_seq(c.subrange(0, i))),
                literal: trim_seq(c.subrange(i + 2, c.len() as int)),
            },
            None => if c.len() > 0 && c[0] == '!' {
                ConditionView::Negated { path: normalize_path_spec(trim_seq(c.subrange(1, c.len() as int))) }
            } else {
                ConditionView::Truthy { path: normalize_path_spec(c) }
            },
        },
    }
}

pub fn parse_condition(raw: &str) -> (res: Condition)
    ensures
        res@ == condition_spec(raw@),
{
    let c = trim_chars(&chars_of(raw));
    let n = c.len();
    let eq = chars_of("==");
    let ne = chars_of("!=");
    proof {
        reveal_strlit("==");
        reveal_strlit("!=");
    }
    match find_str_from(&c, &eq, 0) {
        Some(i) => {
            let left = string_from(&trim_chars(&slice_to_vec(&c, 0, i)));
            let right = string_from(&trim_chars(&slice_to_vec(&c, i + 2, c.len())));
            return Condition::Equals { path: normalize_path(left.as_str()), literal: right };
        },
        None => {},
    }
    match find_str_from(&c, &ne, 0) {
        Some(i) => {
            let left = string_from(&trim_chars(&slice_to_vec(&c, 0, i)));
            let right = string_from(&trim_chars(&slice_to_vec(&c, i + 2, c.len())));
            return Condition::NotEquals { path: normalize_path(left.as_str()), literal: right };
        },
        None => {},
    }
    if c.len() > 0 && c[0] == '!' {
        let rest = string_from(&trim_chars(&slice_to_vec(&c, 1, c.len())));
        return Condition::Negated { path: normalize_path(rest.as_str()) };
    }
    Condition::Truthy { path: normalize_path(string_from(&c).as_str()) }
}

/// A literal on the right of a comparison: a quoted text, a boolean, null, or
/// anything else (a number when it reads as one, else a text).
pub enum Literal {
    Text(String),
    Bool(bool),
    Null,
    Other(String),
}

pub enum LiteralView {
    Text(Seq<char>),
    Bool(bool),
    Null,
    Other(Seq<char>),
}

impl View for Literal {
    type V = LiteralView;

    open spec fn view(&self) -> LiteralView {
        match self {
            Literal::Text(s) => LiteralView::Text(s@),
            Literal::Bool(b) => LiteralView::Bool(*b),
            Literal::Null => LiteralView::Null,
            Literal::Other(s) => LiteralView::Other(s@),
        }
    }
}

pub open spec fn is_quoted(r: Seq<char>) -> bool {
    r.len() > 0 && ((r[0] == '"' && r.last() == '"') || (r[0] == '\'' && r.last() == '\''))
}

pub open spec fn literal_spec(raw: Seq<char>) -> LiteralView {
    let r = trim_seq(raw);
    if is_quoted(r) {
        LiteralView::Text(r.subrange(1, r.len() - 1))
    } else if lower_seq(r) == "true"@ {
        LiteralView::Bool(true)
    } else if lower_seq(r) == "false"@ {
        LiteralView::Bool(false)
    } else if lower_seq(r) == "null"@ {
        LiteralView::Null
    } else {
        LiteralView::Other(r)
    }
}

/// Reads a literal. A lone quote character is left out: it cannot be cut
/// down to the text between two quotes.
pub fn parse_literal(raw: &str) -> (res: Literal)
    requires
        !(trim_seq(raw@).len() == 1 && is_quoted(trim_seq(raw@))),
    ensures
        res@ == literal_spec(raw@),
{
    let r = trim_chars(&chars_of(raw));
    let n = r.len();
    if n > 0 && ((r[0] == '"' && r[n - 1] == '"') || (r[0] == '\'' && r[n - 1] == '\'')) {
        return Literal::Text(string_from(&slice_to_vec(&r, 1, n - 1)));
    }
    let l = string_from(&lower_chars(&r));
    if crate::text::str_eq(l.as_str(), "true") {
        Literal::Bool(true)
    } else if crate::text::str_eq(l.as_str(), "false") {
        Literal::Bool(false)
    } else if crate::text::str_eq(l.as_str(), "null") {
        Literal::Null
    } else {
        Literal::Other(string_from(&r))
    }
}

// ---------------------------------------------------------------------------
// Prompt templates
// ---------------------------------------------------------------------------

/// A piece of a prompt template: text kept as it is, or a `{{ key }}`
/// placeholder (trimmed key).
pub enum TemplatePiece {
    Text(String),
    Key(String),
}

pub enum TemplatePieceView {
    Text(Seq<char>),
    Key(Seq<char>),
}

impl View for TemplatePiece {
    type V = TemplatePieceView;

    open spec fn view(&self) -> TemplatePieceView {
        match self {
            TemplatePiece::Text(s) => TemplatePieceView::Text(s@),
            TemplatePiece::Key(s) => TemplatePieceView::Key(s@),
        }
    }
}

/// The pieces of `s[off..]`: text up to the next `{{`, then the key up to the
/// following `}}`; an unclosed `{{` and what follows stay text.
pub open spec fn template_pieces_from(s: Seq<char>, off: int) -> Seq<TemplatePieceView>
    decreases s.len() - off,
{
    if off < 0 || off > s.len() {
        seq![]
    } else {
        match occurrence_from(s, "{{"@, off) {
            None => seq![TemplatePieceView::Text(s.subrange(off, s.len() as int))],
            Some(st) => match occurrence_from(s, "}}"@, st + 2) {
                Some(e) => {
                    proof {
                        reveal_strlit("{{");
                        reveal_strlit("}}");
                        lemma_occurrence_from_bounds(s, "{{"@, off);
                        lemma_occurrence_from_bounds(s, "}}"@, st + 2);
                    }
                    seq![
                        TemplatePieceView::Text(s.subrange(off, st)),
                        TemplatePieceView::Key(trim_seq(s.subrange(st + 2, e))),
                    ] + template_pieces_from(s, e + 2)
                },
                None => seq![
                    TemplatePieceView::Text(s.subrange(off, st)),
                    TemplatePieceView::Text(s.subrange(st, s.len() as int)),
                ],
            },
        }
    }
}

pub open spec fn pieces_view(v: Seq<TemplatePiece>) -> Seq<TemplatePieceView> {
    v.map_values(|p: TemplatePiece| p@)
}

/// Takes a prompt template apart; rendering puts the pieces back with each
/// key replaced by its value.
pub fn template_pieces(template: &str) -> (res: Vec<TemplatePiece>)
    ensures
        pieces_view(res@) == template_pieces_from(template@, 0),
{
    let s = chars_of(template);
    let n = s.len();
    let open = chars_of("{{");
    let close = chars_of("}}");
    proof {
        reveal_strlit("{{");
        reveal_strlit("}}");
    }
    let mut out: Vec<TemplatePiece> = Vec::new();
    let mut off: usize = 0;
    loop
        invariant_except_break
            pieces_view(out@) + template_pieces_from(s@, off as int) == template_pieces_from(s@, 0),
        invariant
            s@ == template@,
            n == s@.len(),
            open@.len() == 2,
            close@.len() == 2,
            open@ == "{{"@,
            close@ == "}}"@,
            off <= s@.len(),
        ensures
            pieces_view(out@) == template_pieces_from(s@, 0),
        decreases s@.len() - off,
    {
        let ghost before = pieces_view(out@);
        match find_str_from(&s, &open, off) {
            None => {
                out.push(TemplatePiece::Text(string_from(&slice_to_vec(&s, off, s.len()))));
                proof {
                    assert(pieces_view(out@) =~= before + template_pieces_from(s@, off as int));
                }
                break;
            },
            Some(st) => {
                match find_str_from(&s, &close, st + 2) {
                    Some(e) => {
                        out.push(TemplatePiece::Text(string_from(&slice_to_vec(&s, off, st))));
                        let key = string_from(&trim_chars(&slice_to_vec(&s, st + 2, e)));
                        out.push(TemplatePiece::Key(key));
                        proof {
                            assert(pieces_view(out@) =~= before + seq![
                                TemplatePieceView::Text(s@.subrange(off as int, st as int)),
                                TemplatePieceView::Key(trim_seq(s@.subrange(st + 2, e as int))),
                            ]);
                            assert(before + template_pieces_from(s@, off as int) =~= pieces_view(out@)
                                + template_pieces_from(s@, e + 2));
                        }
                        off = e + 2;
                    },
                    None => {
                        out.push(TemplatePiece::Text(string_from(&slice_to_vec(&s, off, st))));
                        out.push(TemplatePiece::Text(string_from(&slice_to_vec(&s, st, s.len()))));
                        proof {
                            assert(pieces_view(out@) =~= before + template_pieces_from(s@, off as int));
                        }
                        break;
                    },
                }
            },
        }
    }
    out
}

/// Where a placeholder's value comes from: an `input.` key is looked up in
/// the task input first (at the path after `input.`); every key is then
/// looked up in the run context, without a `context.` prefix.
pub open spec fn key_sources_spec(key: Seq<char>) -> (Option<Seq<char>>, Seq<char>) {
    (
        if key.len() >= 6 && key.subrange(0, 6) == "input."@ {
            Some(key.subrange(6, key.len() as int))
        } else {
            None
        },
        normalize_path_spec(key),
    )
}

pub fn key_sources(key: &str) -> (res: (Option<String>, String))
    ensures
        (match res.0 {
            Some(p) => Some(p@),
            None => None,
        }, res.1@) == key_sources_spec(key@),
{
    let v = chars_of(key);
    let prefix = chars_of("input.");
    proof {
        reveal_strlit("input.");
    }
    let input_path = if crate::text::starts_with(&v, &prefix) {
        Some(string_from(&slice_to_vec(&v, 6, v.len())))
    } else {
        None
    };
    (input_path, normalize_path(key))
}

} // verus!
