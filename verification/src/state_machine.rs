//! The transition engine. One instance owns a configuration, the key of the
//! state it is in, and the response context accumulated by the last state.
//! Per state, every action runs and reports an outcome; the outcomes, in the
//! actions' declaration order, are collected into the next response context,
//! and the resolved next-state template decides whether the run continues.
//!
//! Running the actions themselves (HTTP calls, channel waits, spawned
//! sub-engines) is the caller's concern: the caller hands each state's
//! outcomes to `step`, which performs every decision of the loop.

use crate::config::{AgentConfig, Config};
use crate::models::LlmData;
use crate::template::{
    buffer_context, process_placeholders, resolve_spec, EnvMap,
};
use vstd::prelude::*;
use vstd::string::StringExecFns;

verus! {

/// What one action's run came to: a string result, completion without
/// output, or a failure (carrying a description for the log). A failure is
/// absorbed: it contributes nothing and never aborts the state.
#[derive(Debug)]
pub enum ActionOutcome {
    Output(String),
    NoOutput,
    Failed(String),
}

/// How one receive attempt of `WaitForInput` ended.
#[derive(Debug)]
pub enum RecvOutcome {
    Received(String),
    Closed,
    Lagged(u64),
    TimedOut,
    NoChannel,
}

/// Whether the run goes on to another state or stops here.
#[derive(Debug, PartialEq, Eq, Structural)]
pub enum StepStatus {
    Continue,
    Stop,
}

/// The response context that a list of outcomes yields: the results of the
/// output-producing outcomes, in order, each resolved as a template against
/// the previous context value `ctx`.
pub open spec fn collect_spec(
    outcomes: Seq<ActionOutcome>,
    ctx: Seq<char>,
    env: Map<Seq<char>, Seq<char>>,
) -> Seq<Seq<char>>
    decreases outcomes.len(),
{
    if outcomes.len() == 0 {
        Seq::empty()
    } else {
        let rest = collect_spec(outcomes.drop_first(), ctx, env);
        match outcomes[0] {
            ActionOutcome::Output(s) => seq![resolve_spec(s@, ctx, env)] + rest,
            _ => rest,
        }
    }
}

proof fn lemma_collect_push(
    outcomes: Seq<ActionOutcome>,
    o: ActionOutcome,
    ctx: Seq<char>,
    env: Map<Seq<char>, Seq<char>>,
)
    ensures
        collect_spec(outcomes.push(o), ctx, env) == collect_spec(outcomes, ctx, env) + (match o {
            ActionOutcome::Output(s) => seq![resolve_spec(s@, ctx, env)],
            _ => Seq::empty(),
        }),
    decreases outcomes.len(),
{
    let tail = match o {
        ActionOutcome::Output(s) => seq![resolve_spec(s@, ctx, env)],
        _ => Seq::<Seq<char>>::empty(),
    };
    if outcomes.len() == 0 {
        assert(outcomes.push(o)[0] == o);
        assert(outcomes.push(o).drop_first() =~= Seq::<ActionOutcome>::empty());
        assert(collect_spec(outcomes.push(o).drop_first(), ctx, env) =~= Seq::<Seq<char>>::empty());
        assert(collect_spec(outcomes.push(o), ctx, env) =~= tail);
        assert(collect_spec(outcomes, ctx, env) + tail =~= tail);
    } else {
        assert(outcomes.push(o).drop_first() =~= outcomes.drop_first().push(o));
        lemma_collect_push(outcomes.drop_first(), o, ctx, env);
        assert(collect_spec(outcomes.push(o), ctx, env) =~= collect_spec(outcomes, ctx, env)
            + tail);
    }
}

/// Whether an outcome contributes a result.
pub open spec fn outcome_is_output(o: ActionOutcome) -> bool {
    o matches ActionOutcome::Output(_)
}

/// The contribution of an output-producing outcome: its result, resolved
/// as a template against the previous context value `ctx`.
pub open spec fn outcome_resolved(
    o: ActionOutcome,
    ctx: Seq<char>,
    env: Map<Seq<char>, Seq<char>>,
) -> Seq<char> {
    match o {
        ActionOutcome::Output(s) => resolve_spec(s@, ctx, env),
        _ => Seq::empty(),
    }
}

/// Result ordering: for any list of outcomes, the collected response
/// context equals exactly the output-producing subset, in its original
/// declaration order, each element resolved against the previous context
/// value. Which action finished first plays no part: the outcomes stand in
/// declaration order, and collection keeps that order.
pub proof fn lemma_result_ordering(
    outcomes: Seq<ActionOutcome>,
    ctx: Seq<char>,
    env: Map<Seq<char>, Seq<char>>,
)
    ensures
        collect_spec(outcomes, ctx, env) == outcomes.filter(
            |o: ActionOutcome| outcome_is_output(o),
        ).map_values(|o: ActionOutcome| outcome_resolved(o, ctx, env)),
    decreases outcomes.len(),
{
    reveal(Seq::filter);
    let pred = |o: ActionOutcome| outcome_is_output(o);
    let f = |o: ActionOutcome| outcome_resolved(o, ctx, env);
    if outcomes.len() == 0 {
        assert(collect_spec(outcomes, ctx, env) =~= outcomes.filter(pred).map_values(f));
    } else {
        let init = outcomes.drop_last();
        let last = outcomes.last();
        lemma_result_ordering(init, ctx, env);
        assert(outcomes =~= init.push(last));
        lemma_collect_push(init, last, ctx, env);
        assert(init.push(last).drop_last() =~= init);
        match last {
            ActionOutcome::Output(s) => {
                assert(outcomes.filter(pred) =~= init.filter(pred).push(last));
                assert(outcomes.filter(pred).map_values(f) =~= init.filter(pred).map_values(
                    f,
                ).push(f(last)));
                assert(collect_spec(outcomes, ctx, env) =~= init.filter(pred).map_values(f).push(
                    f(last),
                ));
            },
            _ => {
                assert(outcomes.filter(pred) =~= init.filter(pred));
                assert(collect_spec(outcomes, ctx, env) =~= collect_spec(init, ctx, env));
            },
        }
    }
}

/// A silent state: where no action produces output (each fails or
/// completes without output), the response context handed to the next
/// state is the empty list, and an `input` or `output` marker resolved
/// against that empty context gives the empty string.
pub proof fn lemma_all_actions_silent(
    outcomes: Seq<ActionOutcome>,
    ctx: Seq<char>,
    env: Map<Seq<char>, Seq<char>>,
)
    requires
        forall|i: int|
            0 <= i < outcomes.len() ==> !outcome_is_output(#[trigger] outcomes[i]),
    ensures
        collect_spec(outcomes, ctx, env) == Seq::<Seq<char>>::empty(),
        buffer_context(collect_spec(outcomes, ctx, env)) == Seq::<char>::empty(),
        crate::template::marker_value(
            "input"@,
            buffer_context(collect_spec(outcomes, ctx, env)),
            env,
        ) == Seq::<char>::empty(),
        crate::template::marker_value(
            "output"@,
            buffer_context(collect_spec(outcomes, ctx, env)),
            env,
        ) == Seq::<char>::empty(),
    decreases outcomes.len(),
{
    if outcomes.len() > 0 {
        assert(forall|i: int|
            0 <= i < outcomes.drop_first().len() ==> outcomes.drop_first()[i] == outcomes[i + 1]);
        lemma_all_actions_silent(outcomes.drop_first(), ctx, env);
        assert(!outcome_is_output(outcomes[0]));
    }
}

/// Collects the outcomes of one state's actions into the next response
/// context. Failures and missing outputs contribute nothing; each surviving
/// result is template-resolved against the first element of the previous
/// context, `prev`.
pub fn collect_responses(outcomes: &Vec<ActionOutcome>, prev: &Vec<String>, env: &EnvMap) -> (r:
    Vec<String>)
    ensures
        r.deep_view() == collect_spec(outcomes@, buffer_context(prev.deep_view()), env@),
{
    let ghost ctx = buffer_context(prev.deep_view());
    let ctx_ref: Option<&String> = if prev.len() > 0 {
        Some(&prev[0])
    } else {
        None
    };
    proof {
        assert(crate::template::context_view(ctx_ref) == ctx);
    }
    let mut r: Vec<String> = Vec::new();
    let mut i: usize = 0;
    proof {
        assert(outcomes@.take(0) =~= Seq::<ActionOutcome>::empty());
        assert(r.deep_view() =~= collect_spec(outcomes@.take(0), ctx, env@));
    }
    while i < outcomes.len()
        invariant
            i <= outcomes@.len(),
            crate::template::context_view(ctx_ref) == ctx,
            r.deep_view() == collect_spec(outcomes@.take(i as int), ctx, env@),
        decreases outcomes@.len() - i,
    {
        let ghost prefix = outcomes@.take(i as int);
        match &outcomes[i] {
            ActionOutcome::Output(s) => {
                let resolved = process_placeholders(s.as_str(), ctx_ref, env);
                r.push(resolved);
            },
            ActionOutcome::NoOutput => {},
            ActionOutcome::Failed(_) => {},
        }
        proof {
            assert(outcomes@.take(i + 1) =~= prefix.push(outcomes@[i as int]));
            lemma_collect_push(prefix, outcomes@[i as int], ctx, env@);
            assert(r.deep_view() =~= collect_spec(outcomes@.take(i + 1), ctx, env@));
        }
        i = i + 1;
    }
    proof {
        assert(outcomes@.take(outcomes@.len() as int) =~= outcomes@);
    }
    r
}

/// The result of `WaitForInput`, given how its one receive attempt ended:
/// a received message is the action's result; a closed channel, a lag
/// notice, a timeout, and a missing channel all yield no output.
pub fn input_wait_result(outcome: RecvOutcome) -> (r: Option<String>)
    ensures
        match outcome {
            RecvOutcome::Received(s) => r == Some(s),
            _ => r is None,
        },
{
    match outcome {
        RecvOutcome::Received(s) => Some(s),
        RecvOutcome::Closed => None,
        RecvOutcome::Lagged(_) => None,
        RecvOutcome::TimedOut => None,
        RecvOutcome::NoChannel => None,
    }
}

/// The body sent with a `CallApi` request: the configured body, or the
/// empty string where the action carries none.
pub fn request_body(d: &crate::models::CallApiData) -> (r: String)
    ensures
        r@ == match d.body {
            Some(b) => b@,
            None => Seq::<char>::empty(),
        },
{
    match &d.body {
        Some(b) => b.clone(),
        None => String::new(),
    }
}

/// The prompts of an `Llm` action, each resolved against the first element
/// of the current response context.
pub fn resolve_llm_prompts(llm: &LlmData, response_buffer: &Vec<String>, env: &EnvMap) -> (r: (
    String,
    Option<String>,
))
    ensures
        r.0@ == resolve_spec(
            llm.user_prompt@,
            buffer_context(response_buffer.deep_view()),
            env@,
        ),
        match llm.system_prompt {
            Some(sp) => r.1 matches Some(resolved) && resolved@ == resolve_spec(
                sp@,
                buffer_context(response_buffer.deep_view()),
                env@,
            ),
            None => r.1 is None,
        },
{
    let ctx_ref: Option<&String> = if response_buffer.len() > 0 {
        Some(&response_buffer[0])
    } else {
        None
    };
    let user = process_placeholders(llm.user_prompt.as_str(), ctx_ref, env);
    let system = match &llm.system_prompt {
        Some(sp) => Some(process_placeholders(sp.as_str(), ctx_ref, env)),
        None => None,
    };
    (user, system)
}

/// The lines of a spawned child's full result, joined with a line
/// separator; the parent takes this as the spawn action's single result.
pub open spec fn joined_lines(lines: Seq<Seq<char>>) -> Seq<char>
    decreases lines.len(),
{
    if lines.len() == 0 {
        Seq::empty()
    } else if lines.len() == 1 {
        lines[0]
    } else {
        lines[0] + seq!['\n'] + joined_lines(lines.drop_first())
    }
}

proof fn lemma_joined_push(lines: Seq<Seq<char>>, x: Seq<char>)
    ensures
        joined_lines(lines.push(x)) == if lines.len() == 0 {
            x
        } else {
            joined_lines(lines) + seq!['\n'] + x
        },
    decreases lines.len(),
{
    if lines.len() == 0 {
        assert(joined_lines(lines.push(x)) == lines.push(x)[0]);
        assert(lines.push(x)[0] == x);
    } else {
        assert(lines.push(x).drop_first() =~= lines.drop_first().push(x));
        lemma_joined_push(lines.drop_first(), x);
        if lines.len() == 1 {
            assert(joined_lines(lines) == lines[0]);
            assert(joined_lines(lines.push(x)) =~= joined_lines(lines) + seq!['\n'] + x);
        } else {
            assert(joined_lines(lines.push(x)) =~= joined_lines(lines) + seq!['\n'] + x);
        }
    }
}

/// Joins the lines with `\n`, as `joined_lines` describes.
pub fn join_lines(lines: &Vec<String>) -> (r: String)
    ensures
        r@ == joined_lines(lines.deep_view()),
{
    let mut r = String::new();
    let mut i: usize = 0;
    proof {
        assert(lines.deep_view().take(0) =~= Seq::<Seq<char>>::empty());
    }
    while i < lines.len()
        invariant
            i <= lines@.len(),
            r@ == joined_lines(lines.deep_view().take(i as int)),
        decreases lines@.len() - i,
    {
        let ghost prefix = lines.deep_view().take(i as int);
        if i > 0 {
            r.append("\n");
            proof {
                reveal_strlit("\n");
                assert("\n"@ =~= seq!['\n']);
            }
        }
        r.append(lines[i].as_str());
        proof {
            assert(lines.deep_view().take(i + 1) =~= prefix.push(lines@[i as int]@));
            lemma_joined_push(prefix, lines@[i as int]@);
        }
        i = i + 1;
    }
    proof {
        assert(lines.deep_view().take(lines@.len() as int) =~= lines.deep_view());
    }
    r
}

/// One running engine instance: its active configuration, the key of the
/// state it is in, and the response context of the last completed state.
pub struct StateMachine {
    pub config: Config,
    pub current_state_key: String,
    pub response_buffer: Vec<String>,
}

impl StateMachine {
    /// A fresh instance of the given configuration, standing in its initial
    /// state with an empty response context.
    pub fn new_with_config(config: Config) -> (r: StateMachine)
        ensures
            r.config == config,
            r.current_state_key@ == config.initial_state_key@,
            r.response_buffer@ =~= Seq::<String>::empty(),
    {
        let current_state_key = config.initial_state_key.clone();
        StateMachine { config, current_state_key, response_buffer: Vec::new() }
    }

    /// The definition of the state the instance is in, if the active
    /// configuration has one; a run whose key has no state stops.
    pub fn current_state(&self) -> (r: Option<&AgentConfig>)
        ensures
            match r {
                Some(st) => self.config.has_state(self.current_state_key@) && *st
                    == self.config.states_map()[self.current_state_key@],
                None => !self.config.has_state(self.current_state_key@),
            },
    {
        self.config.get_state(&self.current_state_key)
    }

    /// Completes the state the instance is in, given the outcomes of that
    /// state's actions in declaration order. The outcomes become the new
    /// response context; then the next-state template, resolved against that
    /// context's first element, decides: no template, or a resolved key that
    /// names no state, stops the run; a key that names a state continues
    /// there. The accumulated response context is `response_buffer` either
    /// way, and the active configuration is never changed here.
    pub fn step(&mut self, outcomes: &Vec<ActionOutcome>, env: &EnvMap) -> (status: StepStatus)
        ensures
            final(self).config == old(self).config,
            ({
                let key = old(self).current_state_key@;
                let c = old(self).config;
                if !c.has_state(key) {
                    &&& status == StepStatus::Stop
                    &&& *final(self) == *old(self)
                } else {
                    let newbuf = collect_spec(
                        outcomes@,
                        buffer_context(old(self).response_buffer.deep_view()),
                        env@,
                    );
                    &&& final(self).response_buffer.deep_view() == newbuf
                    &&& match c.states_map()[key].next_state {
                        None => status == StepStatus::Stop && final(self).current_state_key == old(
                            self,
                        ).current_state_key,
                        Some(t) => {
                            let k = resolve_spec(t@, buffer_context(newbuf), env@);
                            if c.has_state(k) {
                                status == StepStatus::Continue && final(self).current_state_key@
                                    == k
                            } else {
                                status == StepStatus::Stop && final(self).current_state_key == old(
                                    self,
                                ).current_state_key
                            }
                        },
                    }
                }
            }),
    {
        let next_state_template: Option<String> = match self.config.get_state(
            &self.current_state_key,
        ) {
            None => {
                return StepStatus::Stop;
            },
            Some(st) => match &st.next_state {
                Some(t) => Some(t.clone()),
                None => None,
            },
        };
        let newbuf = collect_responses(outcomes, &self.response_buffer, env);
        self.response_buffer = newbuf;
        match next_state_template {
            None => StepStatus::Stop,
            Some(template) => {
                let ctx_ref: Option<&String> = if self.response_buffer.len() > 0 {
                    Some(&self.response_buffer[0])
                } else {
                    None
                };
                proof {
                    assert(crate::template::context_view(ctx_ref) == buffer_context(
                        self.response_buffer.deep_view(),
                    ));
                }
                let resolved = process_placeholders(template.as_str(), ctx_ref, env);
                if self.config.contains_state(&resolved) {
                    self.current_state_key = resolved;
                    StepStatus::Continue
                } else {
                    StepStatus::Stop
                }
            },
        }
    }

    /// Installs a replacement configuration from the reload inbox. The
    /// instance's notion of its state resets to the new configuration's
    /// initial state, which the next iteration of the loop looks up; the
    /// response context carries over.
    pub fn apply_config_update(&mut self, config: Config)
        ensures
            final(self).config == config,
            final(self).current_state_key@ == config.initial_state_key@,
            final(self).response_buffer == old(self).response_buffer,
    {
        let current_state_key = config.initial_state_key.clone();
        self.config = config;
        self.current_state_key = current_state_key;
    }
}

} // verus!
