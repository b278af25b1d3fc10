//! The decisions of the default agent loop. A run alternates model turns and
//! tool calls with bookkeeping: this module decides, from the loop's state and
//! what the last turn produced, what the run records in its trace, how its
//! budget moves, and whether it goes on, recovers, or ends. The caller makes
//! the model and tool calls and keeps the session transcript.
use crate::agent::types::{AgentRunResult, ExecutionStep, StepOutcome, ToolCallTrace};
use crate::text::{
    opt_string, string_views,
    cat3, cat4, concat, decimal, join, join_strings, truncate_detail, truncate_spec, u128_to_string,
};
use vstd::prelude::*;

verus! {

#[derive(PartialEq, Eq, Structural, Clone, Copy, Debug)]
pub enum LoopPhase {
    Understand,
    Plan,
    Act,
    Observe,
    Recover,
    Finalize,
}

impl LoopPhase {
    pub open spec fn name(self) -> Seq<char> {
        match self {
            LoopPhase::Understand => "Understand"@,
            LoopPhase::Plan => "Plan"@,
            LoopPhase::Act => "Act"@,
            LoopPhase::Observe => "Observe"@,
            LoopPhase::Recover => "Recover"@,
            LoopPhase::Finalize => "Finalize"@,
        }
    }

    /// The name a trace records for the phase.
    pub fn name_str(&self) -> (res: &'static str)
        ensures
            res@ == self.name(),
    {
        match self {
            LoopPhase::Understand => "Understand",
            LoopPhase::Plan => "Plan",
            LoopPhase::Act => "Act",
            LoopPhase::Observe => "Observe",
            LoopPhase::Recover => "Recover",
            LoopPhase::Finalize => "Finalize",
        }
    }
}

/// What a run has spent so far.
#[derive(PartialEq, Eq, Structural, Clone, Copy, Debug)]
pub struct BudgetState {
    pub llm_calls: usize,
    pub tool_calls: usize,
    pub iterations: usize,
    pub retries: usize,
}

impl Default for BudgetState {
    fn default() -> (b: Self)
        ensures
            b.llm_calls == 0 && b.tool_calls == 0 && b.iterations == 0 && b.retries == 0,
    {
        BudgetState { llm_calls: 0, tool_calls: 0, iterations: 0, retries: 0 }
    }
}

/// Where a run stands: its phase, its budget, and the last error it recovered from.
pub struct ExecutionState {
    pub phase: LoopPhase,
    pub budget: BudgetState,
    pub last_error: Option<String>,
}

impl Default for ExecutionState {
    fn default() -> (s: Self)
        ensures
            s.phase == LoopPhase::Understand,
            s.budget == (BudgetState { llm_calls: 0, tool_calls: 0, iterations: 0, retries: 0 }),
            s.last_error is None,
    {
        ExecutionState { phase: LoopPhase::Understand, budget: BudgetState::default(), last_error: None }
    }
}

/// What the loop does after a model turn.
pub enum LoopDirective {
    Continue {
        next_phase: LoopPhase,
        tool_calls_made: usize,
        tool_names: Vec<String>,
        tool_traces: Vec<ToolCallTrace>,
    },
    Retry { reason: String, next_phase: LoopPhase },
    Final(String),
}

/// What the caller does next.
pub enum LoopAction {
    /// Save the transcript and run the next iteration.
    Continue,
    /// Add `message` to the transcript as the assistant's, save, and run the
    /// next iteration.
    Recover { message: String },
    /// End the run with `content`, recorded as the assistant's last message.
    Fail { content: String },
    /// End the run with the model's final reply `content`.
    Succeed { content: String },
}

pub struct DefaultAgentLoop;

// ---------------------------------------------------------------------------
// The trace
// ---------------------------------------------------------------------------

/// A trace entry without its index: (phase, kind, detail).
pub open spec fn entry(s: ExecutionStep) -> (Seq<char>, Seq<char>, Seq<char>) {
    (s.phase@, s.kind@, s.detail@)
}

pub open spec fn entries(v: Seq<ExecutionStep>) -> Seq<(Seq<char>, Seq<char>, Seq<char>)> {
    v.map_values(|s: ExecutionStep| entry(s))
}

/// The trace is numbered 1, 2, 3, ... in order.
pub open spec fn numbered(v: Seq<ExecutionStep>) -> bool {
    forall|k: int| 0 <= k < v.len() ==> (#[trigger] v[k]).index == k + 1
}

pub open spec fn start_detail(session_id: Seq<char>) -> Seq<char> {
    "Starting run for session `"@ + session_id + "`"@
}

pub open spec fn init_failure_detail(error: Seq<char>) -> Seq<char> {
    "Failed to initialize session: "@ + error
}

pub open spec fn iteration_detail(iteration: nat, phase: LoopPhase) -> Seq<char> {
    "Iteration "@ + decimal(iteration) + " entered "@ + phase.name()
}

pub open spec fn tool_call_detail(t: ToolCallTrace) -> Seq<char> {
    "Calling tool `"@ + t.name@ + "` with args "@ + truncate_spec(t.args@, 160)
}

pub open spec fn tool_result_detail(t: ToolCallTrace) -> Seq<char> {
    "Tool `"@ + t.name@ + "` returned "@ + truncate_spec(t.result@, 160)
}

pub open spec fn continue_detail(tool_names: Seq<Seq<char>>, next: LoopPhase) -> Seq<char> {
    if tool_names.len() == 0 {
        "No tool call. Advancing to "@ + next.name()
    } else {
        "Executed tool(s): "@ + join(tool_names, ", "@) + ". Advancing to "@ + next.name()
    }
}

/// The two entries each tool call adds to the trace: the call, then its result.
pub open spec fn trace_entries(phase: Seq<char>, traces: Seq<ToolCallTrace>) -> Seq<
    (Seq<char>, Seq<char>, Seq<char>),
>
    decreases traces.len(),
{
    if traces.len() == 0 {
        seq![]
    } else {
        trace_entries(phase, traces.drop_last()) + seq![
            (phase, "tool_call"@, tool_call_detail(traces.last())),
            (phase, "tool_result"@, tool_result_detail(traces.last())),
        ]
    }
}

/// Why a run stops before its next iteration: its iteration budget, then its
/// model-call budget (both the agent's `max_iterations`).
pub open spec fn stop_reason_spec(max_iterations: nat, budget: BudgetState) -> Option<Seq<char>> {
    if budget.iterations >= max_iterations {
        Some("Max iterations reached."@)
    } else if budget.llm_calls >= max_iterations {
        Some("LLM call budget exhausted."@)
    } else {
        None
    }
}



/// A run makes at most `max_iterations` model calls: an iteration that goes
/// on stays within the budget, none goes on when the budget is zero, and when
/// every iteration made exactly one call the run ends with "Max iterations
/// reached." once `max_iterations` iterations were made.
pub proof fn law_model_calls_within_budget(max_iterations: nat, budget: BudgetState)
    requires
        budget.llm_calls <= max_iterations,
    ensures
        stop_reason_spec(max_iterations, budget) is None ==> budget.llm_calls + 1 <= max_iterations,
        max_iterations == 0 ==> stop_reason_spec(max_iterations, budget) is Some,
        budget.iterations == budget.llm_calls && budget.iterations == max_iterations ==> stop_reason_spec(
            max_iterations,
            budget,
        ) == Some("Max iterations reached."@),
{
}

/// One iteration that went on: `begin_iteration` found no reason to stop at
/// `before` and counted the iteration and its model call; the directive that
/// followed kept the run going and left both counts as they were.
pub open spec fn iteration_went_on(max_iterations: nat, before: BudgetState, after: BudgetState) -> bool {
    &&& stop_reason_spec(max_iterations, before) is None
    &&& after.iterations == before.iterations + 1
    &&& after.llm_calls == before.llm_calls + 1
}

/// Over a whole run: starting from a fresh budget, after any number of
/// iterations that went on, the run has made one model call per iteration
/// and never more than `max_iterations`; once it has made `max_iterations`
/// of them the next iteration stops it with "Max iterations reached.", so a
/// run whose every turn goes on makes exactly `max_iterations` calls (none
/// when it is zero).
pub proof fn law_run_calls_bounded(max_iterations: nat, run: Seq<BudgetState>)
    requires
        run.len() > 0,
        run[0].llm_calls == 0,
        run[0].iterations == 0,
        forall|i: int| 0 <= i < run.len() - 1 ==> iteration_went_on(max_iterations, #[trigger] run[i], run[i + 1]),
    ensures
        run.last().llm_calls == run.len() - 1,
        run.last().iterations == run.len() - 1,
        run.len() - 1 <= max_iterations,
        run.len() - 1 == max_iterations ==> stop_reason_spec(max_iterations, run.last()) == Some(
            "Max iterations reached."@,
        ),
    decreases run.len(),
{
    if run.len() > 1 {
        let prefix = run.drop_last();
        assert forall|i: int| 0 <= i < prefix.len() - 1 implies iteration_went_on(
            max_iterations,
            #[trigger] prefix[i],
            prefix[i + 1],
        ) by {
            assert(prefix[i] == run[i] && prefix[i + 1] == run[i + 1]);
        }
        law_run_calls_bounded(max_iterations, prefix);
        assert(iteration_went_on(max_iterations, run[run.len() - 2], run[run.len() - 1]));
    }
}

/// Appends one entry to a run's trace, numbered after the entries before it.
pub fn push_step(steps: &mut Vec<ExecutionStep>, phase: LoopPhase, kind: &str, detail: String)
    requires
        old(steps)@.len() < usize::MAX,
    ensures
        entries(final(steps)@) == entries(old(steps)@).push((phase.name(), kind@, detail@)),
        final(steps)@.len() == old(steps)@.len() + 1,
        final(steps)@.drop_last() == old(steps)@,
        final(steps)@.last().index == old(steps)@.len() + 1,
        numbered(old(steps)@) ==> numbered(final(steps)@),
{
    let ghost before = steps@;
    let step = ExecutionStep {
        index: steps.len() + 1,
        phase: phase.name_str().to_owned(),
        kind: kind.to_owned(),
        detail,
    };
    steps.push(step);
    proof {
        assert(steps@.drop_last() =~= before);
        assert(entries(steps@) =~= entries(before).push((phase.name(), kind@, detail@)));
    }
}

impl DefaultAgentLoop {
    /// How many failed turns a run recovers from before it gives up.
    pub fn max_retries(&self) -> (res: usize)
        ensures
            res == 2,
    {
        2
    }

    pub fn should_stop(&self, max_iterations: usize, state: &ExecutionState) -> (res: Option<String>)
        ensures
            opt_string(res) == stop_reason_spec(max_iterations as nat, state.budget),
    {
        if state.budget.iterations >= max_iterations {
            return Some("Max iterations reached.".to_owned());
        }
        if state.budget.llm_calls >= max_iterations {
            return Some("LLM call budget exhausted.".to_owned());
        }
        None
    }

    /// The result of a run whose session could not be set up.
    pub fn init_failure(&self, error: String) -> (res: AgentRunResult)
        ensures
            res.content@ == error@,
            entries(res.steps@) == seq![(LoopPhase::Understand.name(), "error"@, init_failure_detail(error@))],
            numbered(res.steps@),
    {
        let mut steps: Vec<ExecutionStep> = Vec::new();
        let detail = concat("Failed to initialize session: ", error.as_str());
        push_step(&mut steps, LoopPhase::Understand, "error", detail);
        proof {
            assert(entries(Seq::<ExecutionStep>::empty()) =~= seq![]);
        }
        AgentRunResult { content: error, steps }
    }

    /// The state a run starts in; records the start of the run.
    pub fn start_run(&self, session_id: &str, steps: &mut Vec<ExecutionStep>) -> (state: ExecutionState)
        requires
            old(steps)@.len() < usize::MAX,
        ensures
            state.phase == LoopPhase::Understand,
            state.budget == (BudgetState { llm_calls: 0, tool_calls: 0, iterations: 0, retries: 0 }),
            state.last_error is None,
            entries(final(steps)@) == entries(old(steps)@).push(
                (LoopPhase::Understand.name(), "start"@, start_detail(session_id@)),
            ),
            final(steps)@.len() == old(steps)@.len() + 1,
            numbered(old(steps)@) ==> numbered(final(steps)@),
    {
        let state = ExecutionState::default();
        let detail = cat3("Starting run for session `", session_id, "`");
        push_step(steps, LoopPhase::Understand, "start", detail);
        state
    }

    /// Opens an iteration: records it, then either stops the run (returning
    /// why) when the budget is spent, or counts the iteration and the model
    /// call it is about to make.
    pub fn begin_iteration(
        &self,
        max_iterations: usize,
        state: &mut ExecutionState,
        steps: &mut Vec<ExecutionStep>,
    ) -> (stop: Option<String>)
        requires
            old(steps)@.len() + 2 < usize::MAX,
        ensures
            opt_string(stop) == stop_reason_spec(max_iterations as nat, old(state).budget),
            final(steps)@.len() == old(steps)@.len() + (if stop is Some { 2int } else { 1int }),
            old(state).budget.llm_calls <= max_iterations ==> final(state).budget.llm_calls <= max_iterations,
            final(state).phase == old(state).phase,
            final(state).last_error == old(state).last_error,
            final(state).budget.tool_calls == old(state).budget.tool_calls,
            final(state).budget.retries == old(state).budget.retries,
            match stop {
                Some(reason) => {
                    &&& final(state).budget == old(state).budget
                    &&& entries(final(steps)@) == entries(old(steps)@) + seq![
                        (old(state).phase.name(), "iteration"@, iteration_detail((old(state).budget.iterations + 1) as nat, old(state).phase)),
                        (old(state).phase.name(), "stop"@, reason@),
                    ]
                },
                None => {
                    &&& final(state).budget.iterations == old(state).budget.iterations + 1
                    &&& final(state).budget.llm_calls == old(state).budget.llm_calls + 1
                    &&& final(state).budget.iterations <= max_iterations
                    &&& entries(final(steps)@) == entries(old(steps)@).push(
                        (old(state).phase.name(), "iteration"@, iteration_detail((old(state).budget.iterations + 1) as nat, old(state).phase)),
                    )
                },
            },
            numbered(old(steps)@) ==> numbered(final(steps)@),
    {
        let n = u128_to_string(state.budget.iterations as u128 + 1);
        let detail = cat4("Iteration ", n.as_str(), " entered ", state.phase.name_str());
        push_step(steps, state.phase, "iteration", detail);
        match self.should_stop(max_iterations, state) {
            Some(reason) => {
                let ghost mid = entries(steps@);
                push_step(steps, state.phase, "stop", reason.clone());
                proof {
                    assert(entries(steps@) =~= mid.push((state.phase.name(), "stop"@, reason@)));
                }
                Some(reason)
            },
            None => {
                state.budget.iterations = state.budget.iterations + 1;
                state.budget.llm_calls = state.budget.llm_calls + 1;
                None
            },
        }
    }

    /// The directive of a phase that makes no model turn: the `Finalize`
    /// phase ends the run. Every other phase needs a turn.
    pub fn directive_without_step(&self, phase: LoopPhase) -> (res: Option<LoopDirective>)
        ensures
            phase == LoopPhase::Finalize ==> (res matches Some(LoopDirective::Final(c)) && c@ == "Done."@),
            phase != LoopPhase::Finalize ==> res is None,
    {
        match phase {
            LoopPhase::Finalize => Some(LoopDirective::Final("Done.".to_owned())),
            _ => None,
        }
    }

    /// The directive after a model turn: a failed turn is retried from the
    /// `Recover` phase; a final reply ends the run; otherwise the run goes on,
    /// to `Observe` when the turn made new tool calls and to `Act` when not.
    pub fn directive_after_step(
        &self,
        outcome: Result<StepOutcome, String>,
        tool_calls_before: usize,
        tool_calls_after: usize,
    ) -> (res: LoopDirective)
        ensures
            match outcome {
                Err(e) => res matches LoopDirective::Retry { reason, next_phase } && reason@ == e@
                    && next_phase == LoopPhase::Recover,
                Ok(StepOutcome::Final(c)) => res matches LoopDirective::Final(d) && d@ == c@,
                Ok(StepOutcome::Continue { tool_names, tool_traces }) => {
                    let made: int = if tool_calls_after > tool_calls_before {
                        tool_calls_after - tool_calls_before
                    } else {
                        0
                    };
                    res matches LoopDirective::Continue { next_phase, tool_calls_made, tool_names: n, tool_traces: t }
                        && tool_calls_made == made && n@ == tool_names@ && t@ == tool_traces@
                        && next_phase == (if made > 0 {
                        LoopPhase::Observe
                    } else {
                        LoopPhase::Act
                    })
                },
            },
    {
        match outcome {
            Err(e) => LoopDirective::Retry { reason: e, next_phase: LoopPhase::Recover },
            Ok(StepOutcome::Final(c)) => LoopDirective::Final(c),
            Ok(StepOutcome::Continue { tool_names, tool_traces }) => {
                let made = tool_calls_after.saturating_sub(tool_calls_before);
                let next_phase = if made > 0 {
                    LoopPhase::Observe
                } else {
                    LoopPhase::Act
                };
                LoopDirective::Continue { next_phase, tool_calls_made: made, tool_names, tool_traces }
            },
        }
    }

    /// Records the tool calls of a turn, in order.
    fn push_trace_steps(&self, phase: LoopPhase, traces: &Vec<ToolCallTrace>, steps: &mut Vec<ExecutionStep>)
        requires
            old(steps)@.len() + 2 * traces@.len() < usize::MAX,
        ensures
            entries(final(steps)@) == entries(old(steps)@) + trace_entries(phase.name(), traces@),
            final(steps)@.len() == old(steps)@.len() + 2 * traces@.len(),
            numbered(old(steps)@) ==> numbered(final(steps)@),
    {
        let ghost start = steps@;
        let mut k: usize = 0;
        proof {
            assert(traces@.take(0) =~= Seq::<ToolCallTrace>::empty());
            assert(entries(start) + trace_entries(phase.name(), traces@.take(0)) =~= entries(start));
        }
        while k < traces.len()
            invariant
                k <= traces@.len(),
                start.len() + 2 * traces@.len() < usize::MAX,
                steps@.len() == start.len() + 2 * k,
                entries(steps@) == entries(start) + trace_entries(phase.name(), traces@.take(k as int)),
                numbered(start) ==> numbered(steps@),
            decreases traces@.len() - k,
        {
            let t = &traces[k];
            let call = cat4("Calling tool `", t.name.as_str(), "` with args ", truncate_detail(t.args.as_str(), 160).as_str());
            push_step(steps, phase, "tool_call", call);
            let result = cat4("Tool `", t.name.as_str(), "` returned ", truncate_detail(t.result.as_str(), 160).as_str());
            push_step(steps, phase, "tool_result", result);
            k = k + 1;
            proof {
                assert(traces@.take(k as int).drop_last() =~= traces@.take(k - 1));
                assert(traces@.take(k as int).last() == traces@[k - 1]);
                assert(entries(steps@) =~= entries(start) + trace_entries(phase.name(), traces@.take(k as int)));
            }
        }
        proof {
            assert(traces@.take(traces@.len() as int) =~= traces@);
        }
    }

    /// Carries out a directive: records it in the trace, moves the phase and
    /// the budget, and tells the caller what to do next. A retry beyond
    /// `max_retries` ends the run with the error.
    pub fn apply_directive(
        &self,
        state: &mut ExecutionState,
        steps: &mut Vec<ExecutionStep>,
        directive: LoopDirective,
    ) -> (action: LoopAction)
        requires
            old(steps)@.len() + 2 < usize::MAX,
            directive matches LoopDirective::Continue { tool_calls_made, tool_traces, .. } ==> old(
                state,
            ).budget.tool_calls + tool_calls_made <= usize::MAX && old(steps)@.len() + 2 * tool_traces@.len() + 1
                < usize::MAX,
            old(state).budget.retries <= 2,
        ensures
            numbered(old(steps)@) ==> numbered(final(steps)@),
            final(state).budget.iterations == old(state).budget.iterations,
            final(state).budget.llm_calls == old(state).budget.llm_calls,
            final(steps)@.len() == old(steps)@.len() + match directive {
                LoopDirective::Continue { tool_traces, .. } => 2 * tool_traces@.len() + 1int,
                LoopDirective::Retry { .. } => if old(state).budget.retries + 1 > 2 {
                    2int
                } else {
                    1int
                },
                LoopDirective::Final(_) => 1int,
            },
            match directive {
                LoopDirective::Continue { next_phase, tool_calls_made, tool_names, tool_traces } => {
                    &&& action is Continue
                    &&& final(state).phase == next_phase
                    &&& final(state).budget.tool_calls == old(state).budget.tool_calls + tool_calls_made
                    &&& final(state).budget.retries == old(state).budget.retries
                    &&& final(state).last_error is None
                    &&& entries(final(steps)@) == entries(old(steps)@) + trace_entries(
                        old(state).phase.name(),
                        tool_traces@,
                    ) + seq![
                        (old(state).phase.name(), "continue"@, continue_detail(string_views(tool_names@), next_phase)),
                    ]
                },
                LoopDirective::Retry { reason, next_phase } => {
                    &&& final(state).phase == next_phase
                    &&& final(state).budget.tool_calls == old(state).budget.tool_calls
                    &&& final(state).budget.retries == old(state).budget.retries + 1
                    &&& opt_string(final(state).last_error) == Some(reason@)
                    &&& if old(state).budget.retries + 1 > 2 {
                        &&& action matches LoopAction::Fail { content } && content@ == "LLM error: "@ + reason@
                        &&& entries(final(steps)@) == entries(old(steps)@) + seq![
                            (old(state).phase.name(), "retry"@, "Retrying after error: "@ + reason@),
                            (next_phase.name(), "failed"@, "LLM error: "@ + reason@),
                        ]
                    } else {
                        &&& action matches LoopAction::Recover { message } && message@ == "Recovering from error: "@ + reason@
                        &&& entries(final(steps)@) == entries(old(steps)@).push(
                            (old(state).phase.name(), "retry"@, "Retrying after error: "@ + reason@),
                        )
                    }
                },
                LoopDirective::Final(content) => {
                    &&& action matches LoopAction::Succeed { content: c } && c@ == content@
                    &&& final(state).phase == LoopPhase::Finalize
                    &&& final(state).budget == old(state).budget
                    &&& opt_string(final(state).last_error) == opt_string(old(state).last_error)
                    &&& entries(final(steps)@) == entries(old(steps)@).push(
                        (LoopPhase::Finalize.name(), "final"@, "Agent produced a final response"@),
                    )
                },
            },
    {
        match directive {
            LoopDirective::Continue { next_phase, tool_calls_made, tool_names, tool_traces } => {
                let phase = state.phase;
                self.push_trace_steps(phase, &tool_traces, steps);
                let detail = if tool_names.len() == 0 {
                    concat("No tool call. Advancing to ", next_phase.name_str())
                } else {
                    let names = join_strings(&tool_names, ", ");
                    cat4("Executed tool(s): ", names.as_str(), ". Advancing to ", next_phase.name_str())
                };
                let ghost mid = entries(steps@);
                push_step(steps, phase, "continue", detail);
                state.phase = next_phase;
                state.budget.tool_calls = state.budget.tool_calls + tool_calls_made;
                state.last_error = None;
                proof {
                    assert(entries(steps@) =~= mid.push((phase.name(), "continue"@, detail@)));
                }
                LoopAction::Continue
            },
            LoopDirective::Retry { reason, next_phase } => {
                let phase = state.phase;
                let detail = concat("Retrying after error: ", reason.as_str());
                let ghost e0 = entries(steps@);
                push_step(steps, phase, "retry", detail);
                state.budget.retries = state.budget.retries + 1;
                state.last_error = Some(reason.clone());
                state.phase = next_phase;
                if state.budget.retries > self.max_retries() {
                    let content = concat("LLM error: ", reason.as_str());
                    push_step(steps, next_phase, "failed", content.clone());
                    proof {
                        assert(entries(steps@) =~= e0 + seq![
                            (phase.name(), "retry"@, "Retrying after error: "@ + reason@),
                            (next_phase.name(), "failed"@, "LLM error: "@ + reason@),
                        ]);
                    }
                    LoopAction::Fail { content }
                } else {
                    LoopAction::Recover { message: concat("Recovering from error: ", reason.as_str()) }
                }
            },
            LoopDirective::Final(content) => {
                state.phase = LoopPhase::Finalize;
                push_step(steps, LoopPhase::Finalize, "final", "Agent produced a final response".to_owned());
                LoopAction::Succeed { content }
            },
        }
    }
}

} // verus!
