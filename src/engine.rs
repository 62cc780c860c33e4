//! The conversation engine: a run is a state machine that asks its host for
//! model completions and function results, and decides everything else.
//!
//! The host starts a run with [`Swarm::start_run`], performs each
//! [`Action`] it is handed (a model request, or a call of one of the agent's
//! functions), and feeds the outcome back through [`Run::on_completion`] or
//! [`Run::on_function_result`], until the action is [`Action::Done`].
use vstd::prelude::*;
use crate::context::ContextVariables;
use crate::dispatch::{
    bad_result_text, call_arguments, check_function_result, dispatch_function_call, function_message_view,
    function_result_message, last_function_index, message_view, not_found_view, opt_view, MessageView,
    FunctionDispatch,
};
use crate::error::{SwarmError, SwarmResult};
use crate::steps::{
    extract_xml_steps, extracted, parse_program, parse_steps_from_xml, step_views, StepSpec,
};
use crate::text::{blank, is_blank, trim};
use crate::json::json_string_object;
use crate::types::{
    default_config, duplicate_messages, same_agent, Agent, AgentFunction, ChatCompletionResponse, FunctionCall,
    Instructions, Message,
    Response, ResultType, Step, SwarmConfig,
};
use crate::validation::{build_ok, request_error, request_ok, validate_api_request, validate_build};
use crate::context::str_eq;

verus! {

/// An engine: its key, its registry of agents, and its settings.
pub struct Swarm {
    pub api_key: String,
    pub agent_registry: Vec<Agent>,
    pub config: SwarmConfig,
}

/// Collects the settings, agents and key of an engine before building it.
pub struct SwarmBuilder {
    api_key: Option<String>,
    agents: Vec<Agent>,
    config: SwarmConfig,
}

/// No two agents share a name.
pub open spec fn names_unique(agents: Seq<Agent>) -> bool {
    forall|i: int, j: int|
        0 <= i < j < agents.len() ==> (#[trigger] agents[i]).name@ != (#[trigger] agents[j]).name@
}

impl SwarmBuilder {
    pub closed spec fn agents(&self) -> Seq<Agent> {
        self.agents@
    }

    pub closed spec fn config(&self) -> SwarmConfig {
        self.config
    }

    pub closed spec fn api_key(&self) -> Option<String> {
        self.api_key
    }

    /// A builder with the default settings, no agents and no key.
    pub fn new() -> (r: SwarmBuilder)
        ensures
            r.agents().len() == 0,
            r.api_key() is None,
            default_config(r.config()),
    {
        SwarmBuilder { api_key: None, agents: Vec::new(), config: SwarmConfig::default() }
    }

    pub fn with_config(self, config: SwarmConfig) -> (r: SwarmBuilder)
        ensures
            r.config() == config,
            r.agents() == self.agents(),
            r.api_key() == self.api_key(),
    {
        SwarmBuilder { config, ..self }
    }

    pub fn with_api_url(self, api_url: String) -> (r: SwarmBuilder)
        ensures
            r.config().api_url == api_url,
            r.agents() == self.agents(),
            r.api_key() == self.api_key(),
    {
        let mut b = self;
        b.config.api_url = api_url;
        b
    }

    pub fn with_api_version(self, version: String) -> (r: SwarmBuilder)
        ensures
            r.config().api_version == version,
            r.agents() == self.agents(),
            r.api_key() == self.api_key(),
    {
        let mut b = self;
        b.config.api_version = version;
        b
    }

    pub fn with_request_timeout(self, timeout: u64) -> (r: SwarmBuilder)
        ensures
            r.config().request_timeout == timeout,
            r.agents() == self.agents(),
            r.api_key() == self.api_key(),
    {
        let mut b = self;
        b.config.request_timeout = timeout;
        b
    }

    pub fn with_connect_timeout(self, timeout: u64) -> (r: SwarmBuilder)
        ensures
            r.config().connect_timeout == timeout,
            r.agents() == self.agents(),
            r.api_key() == self.api_key(),
    {
        let mut b = self;
        b.config.connect_timeout = timeout;
        b
    }

    pub fn with_max_retries(self, retries: u32) -> (r: SwarmBuilder)
        ensures
            r.config().max_retries == retries,
            r.agents() == self.agents(),
            r.api_key() == self.api_key(),
    {
        let mut b = self;
        b.config.max_retries = retries;
        b
    }

    pub fn with_max_loop_iterations(self, iterations: u32) -> (r: SwarmBuilder)
        ensures
            r.config().max_loop_iterations == iterations,
            r.agents() == self.agents(),
            r.api_key() == self.api_key(),
    {
        let mut b = self;
        b.config.max_loop_iterations = iterations;
        b
    }

    pub fn with_valid_model_prefixes(self, prefixes: Vec<String>) -> (r: SwarmBuilder)
        ensures
            r.config().valid_model_prefixes == prefixes,
            r.agents() == self.agents(),
            r.api_key() == self.api_key(),
    {
        let mut b = self;
        b.config.valid_model_prefixes = prefixes;
        b
    }

    pub fn with_valid_api_url_prefixes(self, prefixes: Vec<String>) -> (r: SwarmBuilder)
        ensures
            r.config().valid_api_url_prefixes == prefixes,
            r.agents() == self.agents(),
            r.api_key() == self.api_key(),
    {
        let mut b = self;
        b.config.valid_api_url_prefixes = prefixes;
        b
    }

    pub fn with_api_key(self, api_key: String) -> (r: SwarmBuilder)
        ensures
            r.api_key() == Some(api_key),
            r.agents() == self.agents(),
            r.config() == self.config(),
    {
        SwarmBuilder { api_key: Some(api_key), ..self }
    }

    /// Registers `agent`, replacing an agent of the same name.
    pub fn with_agent(self, agent: Agent) -> (r: SwarmBuilder)
        ensures
            r.config() == self.config(),
            r.api_key() == self.api_key(),
            names_unique(self.agents()) ==> names_unique(r.agents()),
            exists|i: int| 0 <= i < r.agents().len() && r.agents()[i] == agent,
            forall|i: int|
                0 <= i < self.agents().len() && (#[trigger] self.agents()[i]).name@ != agent.name@
                    ==> r.agents().contains(self.agents()[i]),
            r.agents().len() >= self.agents().len(),
    {
        let mut b = self;
        let mut i: usize = 0;
        while i < b.agents.len()
            invariant
                b.agents@ == self.agents@,
                b.config == self.config,
                b.api_key == self.api_key,
                0 <= i <= b.agents@.len(),
                forall|k: int| 0 <= k < i ==> (#[trigger] b.agents@[k]).name@ != agent.name@,
            decreases b.agents@.len() - i,
        {
            if str_eq(b.agents[i].name.as_str(), agent.name.as_str()) {
                let ghost before = b.agents@;
                b.agents.set(i, agent);
                proof {
                    assert(b.agents@[i as int] == agent);
                    assert forall|k: int|
                        0 <= k < before.len() && (#[trigger] before[k]).name@ != agent.name@
                            implies b.agents@.contains(before[k]) by {
                        assert(k != i);
                        assert(b.agents@[k] == before[k]);
                    }
                    if names_unique(before) {
                        assert forall|x: int, y: int|
                            0 <= x < y < b.agents@.len() implies (#[trigger] b.agents@[x]).name@
                            != (#[trigger] b.agents@[y]).name@ by {
                            if x == i as int {
                                assert(before[y].name@ != before[x].name@);
                            } else if y == i as int {
                                assert(before[x].name@ != before[y].name@);
                            } else {
                                assert(b.agents@[x] == before[x] && b.agents@[y] == before[y]);
                            }
                        }
                    }
                }
                return b;
            }
            i = i + 1;
        }
        let ghost before = b.agents@;
        b.agents.push(agent);
        proof {
            assert(b.agents@[before.len() as int] == agent);
            assert forall|k: int|
                0 <= k < before.len() && (#[trigger] before[k]).name@ != agent.name@
                    implies b.agents@.contains(before[k]) by {
                assert(b.agents@[k] == before[k]);
            }
            if names_unique(before) {
                assert forall|x: int, y: int|
                    0 <= x < y < b.agents@.len() implies (#[trigger] b.agents@[x]).name@ != (
                    #[trigger] b.agents@[y]).name@ by {
                    if y == before.len() {
                        assert(b.agents@[x] == before[x]);
                    } else {
                        assert(b.agents@[x] == before[x] && b.agents@[y] == before[y]);
                    }
                }
            }
        }
        b
    }

    /// Registers each of `agents` in turn.
    pub fn with_agents(self, agents: &Vec<Agent>) -> (r: SwarmBuilder)
        ensures
            r.config() == self.config(),
            r.api_key() == self.api_key(),
            names_unique(self.agents()) ==> names_unique(r.agents()),
    {
        let mut b = self;
        let mut i: usize = 0;
        while i < agents.len()
            invariant
                0 <= i <= agents@.len(),
                b.config == self.config,
                b.api_key == self.api_key,
                names_unique(self.agents@) ==> names_unique(b.agents@),
            decreases agents@.len() - i,
        {
            b = b.with_agent(agents[i].duplicate());
            i = i + 1;
        }
        b
    }

    /// The engine, after checking the settings, every agent, the key and the
    /// API address.
    pub fn build(self) -> (r: SwarmResult<Swarm>)
        ensures
            r is Ok <==> build_ok(self.config(), self.agents(), self.api_key()),
            r matches Ok(s) ==> s.agent_registry@ == self.agents() && s.config == self.config()
                && Some(s.api_key) == self.api_key(),
            r matches Err(e) ==> e is ValidationError,
    {
        Swarm::new(self.config, self.agents, self.api_key)
    }
}

/// Index of the agent registered under `name`; a later registration wins.
pub open spec fn registry_index(reg: Seq<Agent>, name: Seq<char>) -> Option<int>
    decreases reg.len(),
{
    if reg.len() == 0 {
        None
    } else if reg.last().name@ == name {
        Some(reg.len() - 1)
    } else {
        registry_index(reg.drop_last(), name)
    }
}

pub proof fn lemma_registry_index_bound(reg: Seq<Agent>, name: Seq<char>)
    ensures
        registry_index(reg, name) matches Some(i) ==> 0 <= i < reg.len() && reg[i].name@ == name,
    decreases reg.len(),
{
    if reg.len() > 0 && reg.last().name@ != name {
        lemma_registry_index_bound(reg.drop_last(), name);
    }
}

/// The context asks a `loop` step to stop.
pub open spec fn loop_end_requested(ctx: Map<Seq<char>, Seq<char>>) -> bool {
    ctx.contains_key("end_loop"@) && ctx["end_loop"@] == "true"@
}

/// Whether a `loop` step runs another cycle after `done` cycles.
pub open spec fn loop_goes_on(
    done: int,
    cap: int,
    ctx: Map<Seq<char>, Seq<char>>,
    history_len: int,
    max_turns: int,
) -> bool {
    !loop_end_requested(ctx) && done < cap && history_len < max_turns
}

pub open spec fn is_run_once(st: Step) -> bool {
    st.action@ == "run_once"@
}

pub open spec fn is_loop(st: Step) -> bool {
    st.action@ == "loop"@
}

/// A step can start: a positive number, a prompt, a known action, and an
/// agent override that the registry holds.
pub open spec fn step_startable(st: Step, reg: Seq<Agent>) -> bool {
    &&& st.number > 0
    &&& !blank(st.prompt@)
    &&& (st.agent matches Some(n) ==> registry_index(reg, n@) is Some)
    &&& (is_run_once(st) || is_loop(st))
}

/// A run can start: the request passes validation, the turn bound is within
/// the settings, the loop cap is positive and the engine has a key.
pub open spec fn run_ready(
    swarm: Swarm,
    agent: Agent,
    messages: Seq<Message>,
    model_override: Option<String>,
    max_turns: int,
) -> bool {
    &&& request_ok(agent, messages, model_override, max_turns)
    &&& max_turns <= swarm.config.max_loop_iterations
    &&& swarm.config.loop_control.default_max_iterations > 0
    &&& swarm.api_key@.len() > 0
}

/// `post` is `pre` with its instructions replaced by the text `rest`.
pub open spec fn stripped_agent(post: Agent, pre: Agent, rest: Seq<char>) -> bool {
    &&& post.name == pre.name
    &&& post.model == pre.model
    &&& post.functions@ == pre.functions@
    &&& post.function_call == pre.function_call
    &&& post.parallel_tool_calls == pre.parallel_tool_calls
    &&& post.instructions is Text
    &&& post.instructions->Text_0@ == rest
}

/// A fresh run, waiting on its first model reply.
pub open spec fn run_begun(
    run: Run,
    a: Action,
    messages: Seq<Message>,
    ctx: Map<Seq<char>, Seq<char>>,
    model_override: Option<String>,
    max_turns: int,
    cap: int,
) -> bool {
    &&& run.wf()
    &&& run.turns() == 0
    &&& run.start_len() == messages.len()
    &&& run.context_view() == ctx
    &&& run.model_override() == opt_view(model_override)
    &&& run.max_turns() == max_turns
    &&& run.cap() == cap
    &&& run.step_index() == 0
    &&& run.iterations() == 0
    &&& a is RequestCompletion
    &&& action_matches(run, a)
}

/// How a ready run starts when the agent's instructions read `g`: the step
/// program is cut out of them; without a program (or with an empty one) the
/// default turn is asked for; otherwise the first step starts, or the error
/// says why it cannot.
pub open spec fn started(
    g: Seq<char>,
    swarm: Swarm,
    agent: Agent,
    messages: Seq<Message>,
    ctx: Map<Seq<char>, Seq<char>>,
    model_override: Option<String>,
    max_turns: int,
    r: SwarmResult<(Run, Action)>,
) -> bool {
    let rest = extracted(g).0;
    let reg = swarm.agent_registry@;
    let cap = swarm.config.loop_control.default_max_iterations as int;
    let program = match extracted(g).1 {
        None => Some(Seq::<StepSpec>::empty()),
        Some(b) => parse_program(b),
    };
    match program {
        None => r matches Err(SwarmError::XmlError(_)),
        Some(ss) => if ss.len() == 0 {
            if messages.len() == 0 {
                r matches Err(SwarmError::ValidationError(_))
            } else {
                &&& r is Ok
                &&& run_begun(r->Ok_0.0, r->Ok_0.1, messages, ctx, model_override, max_turns, cap)
                &&& r->Ok_0.0.is_default()
                &&& r->Ok_0.0.history() == messages
                &&& stripped_agent(r->Ok_0.0.agent_spec(), agent, rest)
            }
        } else {
            let first = ss[0];
            let valid = first.0 > 0 && !blank(first.3);
            let known = first.2 is Some ==> registry_index(reg, first.2->0) is Some;
            let action_known = first.1 == "run_once"@ || first.1 == "loop"@;
            &&& (!valid ==> r matches Err(SwarmError::ValidationError(_)))
            &&& (valid && !known ==> r matches Err(SwarmError::AgentNotFoundError(_)))
            &&& (valid && known && !action_known ==> r matches Err(SwarmError::ValidationError(_)))
            &&& (valid && known && action_known ==> {
                &&& r is Ok
                &&& run_begun(r->Ok_0.0, r->Ok_0.1, messages, ctx, model_override, max_turns, cap)
                &&& step_views(r->Ok_0.0.program()) == ss
                &&& appended(messages, r->Ok_0.0.history(), user_view(first.3))
                &&& match first.2 {
                    Some(n) => same_agent(r->Ok_0.0.agent_spec(), reg[registry_index(reg, n)->0]),
                    None => stripped_agent(r->Ok_0.0.agent_spec(), agent, rest),
                }
            })
        },
    }
}

/// Where a run stands.
pub enum Phase {
    /// A model request is out.
    AwaitingCompletion,
    /// A function call is out.
    AwaitingFunction,
    /// The run is over.
    Finished,
}

/// A model request: the model to use and the messages, system message first.
pub struct CompletionRequest {
    pub model: String,
    pub messages: Vec<Message>,
}

/// What the host is to do next.
pub enum Action {
    /// Send this request and hand the completion to [`Run::on_completion`].
    RequestCompletion(CompletionRequest),
    /// Run the active agent's function at `index`, named `name`, with `args`,
    /// and hand its result to [`Run::on_function_result`].
    InvokeFunction { index: usize, name: String, args: ContextVariables },
    /// The run is over; [`Run::into_response`] gives its outcome.
    Done,
}

/// The state of one run.
pub struct Run {
    agent: Agent,
    history: Vec<Message>,
    context: ContextVariables,
    steps: Vec<Step>,
    step: usize,
    iterations: usize,
    turns: usize,
    max_turns: usize,
    max_iterations: usize,
    model_override: Option<String>,
    phase: Phase,
    pending: Option<String>,
    start_len: Ghost<nat>,
}

/// The instructions text of `agent` for the context `ctx`.
fn resolve_instructions(agent: &Agent, ctx: &ContextVariables) -> (r: String)
    requires
        ctx.wf(),
    ensures
        agent.instructions matches Instructions::Text(t) ==> r@ == t@,
{
    match &agent.instructions {
        Instructions::Text(t) => t.clone(),
        Instructions::Function(g) => g.generate(ctx.duplicate()),
    }
}

impl Swarm {
    /// A builder with the default settings.
    pub fn builder() -> (r: SwarmBuilder)
        ensures
            r.agents().len() == 0,
            r.api_key() is None,
            default_config(r.config()),
    {
        SwarmBuilder::new()
    }

    /// An engine over `agents`, after every check that building makes.
    pub fn new(config: SwarmConfig, agents: Vec<Agent>, api_key: Option<String>) -> (r:
        SwarmResult<Swarm>)
        ensures
            r is Ok <==> build_ok(config, agents@, api_key),
            r matches Ok(s) ==> s.agent_registry@ == agents@ && s.config == config && Some(
                s.api_key,
            ) == api_key,
            r matches Err(e) ==> e is ValidationError,
    {
        let key = validate_build(&config, &agents, api_key)?;
        Ok(Swarm { api_key: key, agent_registry: agents, config })
    }

    fn find_agent(&self, name: &str) -> (r: Option<usize>)
        ensures
            match r {
                Some(i) => registry_index(self.agent_registry@, name@) == Some(i as int),
                None => registry_index(self.agent_registry@, name@) is None,
            },
    {
        let mut i: usize = self.agent_registry.len();
        assert(self.agent_registry@.subrange(0, i as int) =~= self.agent_registry@);
        while i > 0
            invariant
                0 <= i <= self.agent_registry@.len(),
                registry_index(self.agent_registry@, name@) == registry_index(
                    self.agent_registry@.subrange(0, i as int),
                    name@,
                ),
            decreases i,
        {
            let ghost pre = self.agent_registry@.subrange(0, i as int);
            assert(pre.drop_last() =~= self.agent_registry@.subrange(0, i - 1));
            if str_eq(self.agent_registry[i - 1].name.as_str(), name) {
                return Some(i - 1);
            }
            i = i - 1;
        }
        None
    }

    /// A copy of the agent registered under `name`.
    pub fn get_agent_by_name(&self, name: &str) -> (r: SwarmResult<Agent>)
        ensures
            match registry_index(self.agent_registry@, name@) {
                Some(i) => r matches Ok(a) && same_agent(a, self.agent_registry@[i]),
                None => (r matches Err(SwarmError::AgentNotFoundError(n)) && n@ == name@),
            },
    {
        match self.find_agent(name) {
            Some(i) => {
                proof {
                    lemma_registry_index_bound(self.agent_registry@, name@);
                }
                Ok(self.agent_registry[i].duplicate())
            },
            None => Err(SwarmError::AgentNotFoundError(name.to_string())),
        }
    }

    /// Starts a run: checks the request, takes any step program out of the
    /// agent's instructions, and asks for the first model reply (of the first
    /// step, or of the single default turn when there is no program).
    pub fn start_run(
        &self,
        agent: Agent,
        messages: Vec<Message>,
        context_variables: ContextVariables,
        model_override: Option<String>,
        max_turns: usize,
    ) -> (r: SwarmResult<(Run, Action)>)
        requires
            context_variables.wf(),
        ensures
            !request_ok(agent, messages@, model_override, max_turns as int) ==> (r matches Err(
                SwarmError::ValidationError(m),
            ) && m@ == request_error(agent, messages@, model_override, max_turns as int)),
            request_ok(agent, messages@, model_override, max_turns as int) && max_turns
                > self.config.max_loop_iterations ==> r matches Err(SwarmError::ValidationError(_)),
            request_ok(agent, messages@, model_override, max_turns as int) && max_turns
                <= self.config.max_loop_iterations
                && self.config.loop_control.default_max_iterations == 0 ==> r matches Err(
                SwarmError::ConfigError(_),
            ),
            request_ok(agent, messages@, model_override, max_turns as int) && max_turns
                <= self.config.max_loop_iterations
                && self.config.loop_control.default_max_iterations > 0 && self.api_key@.len() == 0
                ==> r matches Err(SwarmError::ValidationError(_)),
            r is Ok ==> run_ready(*self, agent, messages@, model_override, max_turns as int),
            run_ready(*self, agent, messages@, model_override, max_turns as int) ==> match agent.instructions {
                Instructions::Text(t) => started(
                    t@,
                    *self,
                    agent,
                    messages@,
                    context_variables.view(),
                    model_override,
                    max_turns as int,
                    r,
                ),
                Instructions::Function(_) => exists|g: Seq<char>|
                    #[trigger] started(
                        g,
                        *self,
                        agent,
                        messages@,
                        context_variables.view(),
                        model_override,
                        max_turns as int,
                        r,
                    ),
            },
    {
        validate_api_request(&agent, &messages, &model_override, max_turns)?;
        if max_turns > self.config.max_loop_iterations as usize {
            return Err(SwarmError::ValidationError(
                "max_turns exceeds configured max_loop_iterations".to_string(),
            ));
        }
        let cap = self.config.loop_control.default_max_iterations;
        if cap == 0 {
            return Err(SwarmError::ConfigError(
                "default_max_iterations must be greater than 0".to_string(),
            ));
        }
        if self.api_key.as_str().is_empty() {
            return Err(SwarmError::ValidationError("API key cannot be empty".to_string()));
        }
        let ghost agent0 = agent;
        let ghost ctx0 = context_variables.view();
        let ghost msgs0 = messages@;
        let ghost mo = model_override;
        let instructions = resolve_instructions(&agent, &context_variables);
        let (rest, block) = extract_xml_steps(instructions.as_str())?;
        let steps = match block {
            Some(b) => match parse_steps_from_xml(b.as_str()) {
                Ok(st) => st.steps,
                Err(e) => {
                    let res: SwarmResult<(Run, Action)> = Err(e);
                    proof {
                        assert(started(instructions@, *self, agent0, msgs0, ctx0, mo, max_turns as int, res));
                    }
                    return res;
                },
            },
            None => Vec::new(),
        };
        let mut agent = agent;
        agent.instructions = Instructions::Text(rest);
        let ghost n = messages@.len();
        let mut run = Run {
            agent,
            history: messages,
            context: context_variables,
            steps,
            step: 0,
            iterations: 0,
            turns: 0,
            max_turns,
            max_iterations: cap as usize,
            model_override,
            phase: Phase::AwaitingCompletion,
            pending: None,
            start_len: Ghost(n),
        };
        assert(run.history@.subrange(0, n as int) =~= run.history@);
        if run.steps.len() == 0 {
            if run.history.len() == 0 {
                let res: SwarmResult<(Run, Action)> = Err(
                    SwarmError::ValidationError("Message history cannot be empty".to_string()),
                );
                proof {
                    assert(started(instructions@, *self, agent0, msgs0, ctx0, mo, max_turns as int, res));
                }
                return res;
            }
            let request = run.completion_request();
            proof {
                assert(request.messages@.subrange(1, request.messages@.len() as int) == run.history());
                assert(request_matches(run, request));
            }
            let res: SwarmResult<(Run, Action)> = Ok((run, Action::RequestCompletion(request)));
            proof {
                assert(started(instructions@, *self, agent0, msgs0, ctx0, mo, max_turns as int, res));
            }
            return res;
        }
        let ghost h = run.history@;
        let ghost run0 = run;
        proof {
            assert(step_views(run.steps@)[0] == crate::steps::step_view(run.steps@[0]));
        }
        let begun = run.begin_step(self);
        let res: SwarmResult<(Run, Action)> = match begun {
            Ok(action) => {
                assert(run.history@.subrange(0, n as int) =~= h);
                Ok((run, action))
            },
            Err(e) => Err(e),
        };
        proof {
            assert(started(instructions@, *self, agent0, msgs0, ctx0, mo, max_turns as int, res));
        }
        res
    }

    /// Resolves a function call against `functions` and prepares its arguments.
    pub fn handle_function_call(
        &self,
        function_call: &FunctionCall,
        functions: &Vec<AgentFunction>,
        context_variables: &ContextVariables,
    ) -> (r: SwarmResult<FunctionDispatch>)
        requires
            context_variables.wf(),
        ensures
            blank(function_call.name@) ==> r matches Err(SwarmError::ValidationError(_)),
            !blank(function_call.name@) ==> match last_function_index(
                functions@,
                function_call.name@,
            ) {
                None => (r matches Ok(FunctionDispatch::NotFound(m)) && message_view(m)
                    == not_found_view(function_call.name@)),
                Some(i) => match json_string_object(function_call.arguments@) {
                    None => r matches Err(SwarmError::JsonError(_)),
                    Some(obj) => match r {
                        Ok(FunctionDispatch::Invoke { index, args }) => index == i && args.wf()
                            && args.view() == call_arguments(
                            obj,
                            functions@[i].accepts_context_variables,
                            context_variables.view(),
                        ),
                        _ => false,
                    },
                },
            },
    {
        dispatch_function_call(function_call, functions, context_variables)
    }

    /// Accepts a function's result when it is a value or an agent.
    pub fn handle_function_result(&self, result: ResultType, debug: bool) -> (r: SwarmResult<
        ResultType,
    >)
        ensures
            (result is Value || result is Agent) ==> (r matches Ok(x) && x == result),
            result is ContextVariables ==> (r matches Err(SwarmError::FunctionError(m)) && m@
                == bad_result_text(result->ContextVariables_0.entries())),
    {
        check_function_result(result)
    }
}

/// The user message that carries `prompt`.
pub open spec fn user_view(prompt: Seq<char>) -> MessageView {
    ("user"@, Some(prompt), None, None)
}

/// `after` is `before` with one more message, whose view is `v`.
pub open spec fn appended(before: Seq<Message>, after: Seq<Message>, v: MessageView) -> bool {
    &&& after.len() == before.len() + 1
    &&& after.subrange(0, before.len() as int) == before
    &&& message_view(after[before.len() as int]) == v
}

/// The request asks the run's model (the override, else the agent's) about
/// the run's history, preceded by the agent's instructions as a system message.
pub open spec fn request_matches(run: Run, req: CompletionRequest) -> bool {
    &&& req.messages@.len() == run.history().len() + 1
    &&& req.messages@.subrange(1, req.messages@.len() as int) == run.history()
    &&& req.messages@[0].role@ == "system"@
    &&& req.messages@[0].name is None
    &&& req.messages@[0].function_call is None
    &&& (run.agent_spec().instructions matches Instructions::Text(t) ==> opt_view(
        req.messages@[0].content,
    ) == Some(t@))
    &&& req.model@ == match run.model_override() {
        Some(m) => m,
        None => run.agent_spec().model@,
    }
}

/// The action fits the state the run is left in.
pub open spec fn action_matches(run: Run, a: Action) -> bool {
    match a {
        Action::RequestCompletion(req) => run.phase() is AwaitingCompletion && request_matches(
            run,
            req,
        ),
        Action::InvokeFunction { .. } => run.phase() is AwaitingFunction,
        Action::Done => run.phase() is Finished,
    }
}

/// What a transition never changes: the program, the limits, the context,
/// the model override and the starting history length.
pub open spec fn frame_kept(a: Run, b: Run) -> bool {
    &&& b.program() == a.program()
    &&& b.cap() == a.cap()
    &&& b.max_turns() == a.max_turns()
    &&& b.context_view() == a.context_view()
    &&& b.model_override() == a.model_override()
    &&& b.start_len() == a.start_len()
}

/// Starting the step `st` on history `h` with active agent `ag`: it starts
/// exactly when it is startable, appending its prompt and switching agent if
/// it names one; otherwise the error says why.
pub open spec fn step_begun(
    st: Step,
    h: Seq<Message>,
    ag: Agent,
    reg: Seq<Agent>,
    post: Run,
    r: SwarmResult<Action>,
) -> bool {
    let valid = st.number > 0 && !blank(st.prompt@);
    let known_agent = st.agent is Some ==> registry_index(reg, st.agent->0@) is Some;
    &&& (r is Ok <==> step_startable(st, reg))
    &&& (!valid ==> r matches Err(SwarmError::ValidationError(_)))
    &&& (valid && !known_agent ==> (r matches Err(SwarmError::AgentNotFoundError(n)) && n@
        == st.agent->0@))
    &&& (valid && known_agent && !is_run_once(st) && !is_loop(st) ==> r matches Err(
        SwarmError::ValidationError(_),
    ))
    &&& (r is Ok ==> {
        &&& r->Ok_0 is RequestCompletion
        &&& action_matches(post, r->Ok_0)
        &&& post.wf()
        &&& post.iterations() == 0
        &&& appended(h, post.history(), user_view(st.prompt@))
        &&& match st.agent {
            Some(n) => same_agent(post.agent_spec(), reg[registry_index(reg, n@)->0]),
            None => post.agent_spec() == ag,
        }
    })
}

/// Moving past the current step of `pre`: the run ends after the last step,
/// else the next step starts.
pub open spec fn step_moved(
    pre: Run,
    h: Seq<Message>,
    ag: Agent,
    reg: Seq<Agent>,
    post: Run,
    r: SwarmResult<Action>,
) -> bool {
    let k = pre.step_index() + 1;
    &&& post.step_index() == k
    &&& if k >= pre.program().len() {
        &&& r matches Ok(Action::Done)
        &&& post.phase() is Finished
        &&& post.history() == h
        &&& post.agent_spec() == ag
        &&& post.wf()
    } else {
        step_begun(pre.program()[k as int], h, ag, reg, post, r)
    }
}

/// Closing a turn cycle of `pre` with history `h` and active agent `ag`: the
/// default turn ends the run; a `loop` step goes on (appending its prompt
/// again) while `loop_goes_on` holds; otherwise the run moves past the step.
pub open spec fn turn_closed(
    pre: Run,
    h: Seq<Message>,
    ag: Agent,
    reg: Seq<Agent>,
    post: Run,
    r: SwarmResult<Action>,
) -> bool {
    if pre.is_default() {
        &&& r matches Ok(Action::Done)
        &&& post.phase() is Finished
        &&& post.history() == h
        &&& post.agent_spec() == ag
        &&& post.wf()
    } else {
        let st = pre.program()[pre.step_index() as int];
        if is_loop(st) && loop_goes_on(
            pre.iterations() as int + 1,
            pre.cap() as int,
            pre.context_view(),
            h.len() as int,
            pre.max_turns() as int,
        ) {
            &&& r is Ok
            &&& r->Ok_0 is RequestCompletion
            &&& action_matches(post, r->Ok_0)
            &&& post.wf()
            &&& post.step_index() == pre.step_index()
            &&& post.iterations() == pre.iterations() + 1
            &&& post.agent_spec() == ag
            &&& appended(h, post.history(), user_view(st.prompt@))
        } else {
            step_moved(pre, h, ag, reg, post, r)
        }
    }
}

impl Run {
    pub closed spec fn wf(&self) -> bool {
        &&& self.context.wf()
        &&& self.max_iterations > 0
        &&& self.step <= self.steps@.len()
        &&& self.iterations <= self.max_iterations
        &&& self.history@.len() >= self.start_len@ + self.turns
        &&& (self.phase is AwaitingFunction ==> self.pending is Some)
        &&& (self.steps@.len() == 0 ==> {
            &&& self.turns <= 1
            &&& (self.phase is AwaitingCompletion ==> self.turns == 0 && self.history@.len()
                == self.start_len@)
            &&& (self.phase is AwaitingFunction ==> self.turns == 1 && self.history@.len()
                == self.start_len@ + 1)
            &&& (self.phase is Finished ==> self.turns == 1 && (self.history@.len()
                == self.start_len@ + 1 || self.history@.len() == self.start_len@ + 2))
        })
        &&& (self.steps@.len() > 0 && !(self.phase is Finished) ==> {
            &&& self.step < self.steps@.len()
            &&& (is_run_once(self.steps@[self.step as int]) || is_loop(
                self.steps@[self.step as int],
            ))
            &&& (is_loop(self.steps@[self.step as int]) ==> self.iterations
                < self.max_iterations)
        })
    }

    /// The history so far.
    pub closed spec fn history(&self) -> Seq<Message> {
        self.history@
    }

    /// The length of the history the run started with.
    pub closed spec fn start_len(&self) -> nat {
        self.start_len@
    }

    /// The run has no step program and performs one default turn.
    pub closed spec fn is_default(&self) -> bool {
        self.steps@.len() == 0
    }

    /// The step program.
    pub closed spec fn program(&self) -> Seq<Step> {
        self.steps@
    }

    /// The index of the current step.
    pub closed spec fn step_index(&self) -> nat {
        self.step as nat
    }

    /// Completed cycles of the current `loop` step.
    pub closed spec fn iterations(&self) -> nat {
        self.iterations as nat
    }

    /// The most cycles a `loop` step may run.
    pub closed spec fn cap(&self) -> nat {
        self.max_iterations as nat
    }

    /// Model replies received so far.
    pub closed spec fn turns(&self) -> nat {
        self.turns as nat
    }

    pub closed spec fn phase(&self) -> Phase {
        self.phase
    }

    pub closed spec fn context_view(&self) -> Map<Seq<char>, Seq<char>> {
        self.context.view()
    }

    /// The active agent.
    pub closed spec fn agent_spec(&self) -> Agent {
        self.agent
    }

    /// The step after the current one would start, but names an agent that
    /// `reg` does not hold.
    pub closed spec fn next_step_blocked(&self, reg: Seq<Agent>) -> bool {
        let k = self.step + 1;
        &&& self.steps@.len() > 0
        &&& k < self.steps@.len()
        &&& self.steps@[k].number > 0
        &&& !blank(self.steps@[k].prompt@)
        &&& self.steps@[k].agent is Some
        &&& registry_index(reg, self.steps@[k].agent->0@) is None
    }

    /// The model that overrides the agent's, if any.
    pub closed spec fn model_override(&self) -> Option<Seq<char>> {
        opt_view(self.model_override)
    }

    /// The name of the function whose result the run awaits.
    pub closed spec fn pending_name(&self) -> Seq<char> {
        match self.pending {
            Some(n) => n@,
            None => Seq::empty(),
        }
    }

    pub closed spec fn max_turns(&self) -> nat {
        self.max_turns as nat
    }

    /// The active agent.
    pub fn agent(&self) -> (r: &Agent)
        ensures
            *r == self.agent_spec(),
    {
        &self.agent
    }

    /// The history so far.
    pub fn history_messages(&self) -> (r: &Vec<Message>)
        ensures
            r@ == self.history(),
    {
        &self.history
    }

    /// The running context.
    pub fn context(&self) -> (r: &ContextVariables)
        ensures
            r.view() == self.context_view(),
    {
        &self.context
    }

    /// The request for the next model reply: the active agent's instructions as
    /// a system message, then the history.
    fn completion_request(&self) -> (r: CompletionRequest)
        requires
            self.context.wf(),
        ensures
            r.messages@.len() == self.history@.len() + 1,
            r.messages@.subrange(1, r.messages@.len() as int) == self.history@,
            r.messages@[0].role@ == "system"@,
            r.messages@[0].name is None,
            r.messages@[0].function_call is None,
            self.agent.instructions matches Instructions::Text(t) ==> opt_view(
                r.messages@[0].content,
            ) == Some(t@),
            r.model@ == match self.model_override {
                Some(m) => m@,
                None => self.agent.model@,
            },
    {
        let instructions = resolve_instructions(&self.agent, &self.context);
        let mut messages: Vec<Message> = Vec::new();
        messages.push(Message::text("system", instructions));
        let mut rest = duplicate_messages(&self.history);
        let ghost first = messages@;
        messages.append(&mut rest);
        assert(messages@.subrange(1, messages@.len() as int) =~= self.history@);
        let model = match &self.model_override {
            Some(m) => m.clone(),
            None => self.agent.model.clone(),
        };
        CompletionRequest { model, messages }
    }

    /// Starts the step at `self.step`: checks it, switches agent if it says
    /// so, appends its prompt and asks for a reply.
    fn begin_step(&mut self, swarm: &Swarm) -> (r: SwarmResult<Action>)
        requires
            old(self).context.wf(),
            old(self).max_iterations > 0,
            old(self).step < old(self).steps@.len(),
            old(self).history@.len() >= old(self).start_len@ + old(self).turns,
            old(self).steps@.len() > 0,
        ensures
            final(self).steps@ == old(self).steps@,
            final(self).step == old(self).step,
            final(self).start_len == old(self).start_len,
            final(self).max_turns == old(self).max_turns,
            final(self).max_iterations == old(self).max_iterations,
            final(self).turns == old(self).turns,
            final(self).context == old(self).context,
            r is Ok <==> step_startable(old(self).steps@[old(self).step as int], swarm.agent_registry@),
            r matches Ok(a) ==> (a is RequestCompletion && final(self).wf() && final(self).phase is AwaitingCompletion
                && final(self).iterations == 0
                && final(self).history@ == old(self).history@.push(final(self).history@.last())
                && message_view(final(self).history@.last()) == (
                "user"@,
                Some(old(self).steps@[old(self).step as int].prompt@),
                None::<Seq<char>>,
                None::<(Seq<char>, Seq<char>)>,
            ) && match old(self).steps@[old(self).step as int].agent {
                Some(n) => same_agent(
                    final(self).agent,
                    swarm.agent_registry@[registry_index(swarm.agent_registry@, n@)->0],
                ),
                None => final(self).agent == old(self).agent,
            }),
            ({
                let st = old(self).steps@[old(self).step as int];
                (st.number > 0 && !blank(st.prompt@) && st.agent is Some && registry_index(
                    swarm.agent_registry@,
                    st.agent->0@,
                ) is None) ==> r matches Err(SwarmError::AgentNotFoundError(_))
            }),
            step_begun(
                old(self).steps@[old(self).step as int],
                old(self).history@,
                old(self).agent,
                swarm.agent_registry@,
                *final(self),
                r,
            ),
            frame_kept(*old(self), *final(self)),
            final(self).step_index() == old(self).step_index(),
    {
        let ghost h0 = self.history@;
        let step = &self.steps[self.step];
        if is_blank(step.prompt.as_str()) {
            return Err(SwarmError::ValidationError("Step prompt cannot be empty".to_string()));
        }
        if step.number == 0 {
            return Err(SwarmError::ValidationError("Step number must be greater than 0".to_string()));
        }
        let run_once = str_eq(step.action.as_str(), "run_once");
        let looping = str_eq(step.action.as_str(), "loop");
        let prompt = step.prompt.clone();
        let switch_to = match &step.agent {
            Some(name) => Some(swarm.get_agent_by_name(name.as_str())?),
            None => None,
        };
        if !run_once && !looping {
            let mut msg = "Unknown action: ".to_string();
            msg.append(self.steps[self.step].action.as_str());
            return Err(SwarmError::ValidationError(msg));
        }
        if let Some(a) = switch_to {
            self.agent = a;
        }
        self.history.push(Message::text("user", prompt));
        self.iterations = 0;
        self.phase = Phase::AwaitingCompletion;
        proof {
            reveal_strlit("run_once");
            reveal_strlit("loop");
            reveal_strlit("user");
        }
        let req = self.completion_request();
        proof {
            assert(req.messages@.subrange(1, req.messages@.len() as int) == self.history());
            assert(request_matches(*self, req));
            assert(self.history@.subrange(0, h0.len() as int) =~= h0);
        }
        Ok(Action::RequestCompletion(req))
    }

    /// Moves to the next step, or ends the run after the last one.
    fn advance(&mut self, swarm: &Swarm) -> (r: SwarmResult<Action>)
        requires
            old(self).context.wf(),
            old(self).max_iterations > 0,
            old(self).step < old(self).steps@.len(),
            old(self).iterations <= old(self).max_iterations,
            old(self).history@.len() >= old(self).start_len@ + old(self).turns,
        ensures
            final(self).step == old(self).step + 1,
            final(self).steps@ == old(self).steps@,
            final(self).start_len == old(self).start_len,
            final(self).max_turns == old(self).max_turns,
            final(self).max_iterations == old(self).max_iterations,
            final(self).turns == old(self).turns,
            final(self).context == old(self).context,
            r is Ok ==> final(self).history@.len() >= old(self).history@.len()
                && final(self).history@.subrange(0, old(self).history@.len() as int)
                == old(self).history@,
            r is Ok ==> final(self).wf(),
            old(self).step + 1 == old(self).steps@.len() ==> (r matches Ok(Action::Done)
                && final(self).phase is Finished && final(self).history@ == old(self).history@
                && final(self).agent == old(self).agent),
            old(self).step + 1 < old(self).steps@.len() ==> (r is Ok <==> step_startable(
                old(self).steps@[old(self).step + 1],
                swarm.agent_registry@,
            )),
            r matches Ok(a) ==> (a is Done || a is RequestCompletion),
            r matches Ok(Action::Done) ==> final(self).phase is Finished,
            r matches Ok(Action::RequestCompletion(_)) ==> final(self).phase is AwaitingCompletion,
            old(self).next_step_blocked(swarm.agent_registry@) ==> r matches Err(
                SwarmError::AgentNotFoundError(_),
            ),
            step_moved(
                *old(self),
                old(self).history@,
                old(self).agent,
                swarm.agent_registry@,
                *final(self),
                r,
            ),
            frame_kept(*old(self), *final(self)),
    {
        let n = self.steps.len();
        self.step = self.step + 1;
        if self.step == n {
            self.phase = Phase::Finished;
            assert(self.history@.subrange(0, self.history@.len() as int) =~= self.history@);
            return Ok(Action::Done);
        }
        let ghost h = self.history@;
        let r = self.begin_step(swarm);
        proof {
            if r is Ok {
                assert(self.history@.subrange(0, h.len() as int) =~= h);
            }
        }
        r
    }

    /// Ends a turn cycle: the default turn ends the run; a `run_once` step
    /// moves on; a `loop` step runs again unless the context asks it to stop,
    /// its cap is reached or the history has reached the turn bound.
    fn finish_turn(&mut self, swarm: &Swarm) -> (r: SwarmResult<Action>)
        requires
            old(self).context.wf(),
            old(self).max_iterations > 0,
            old(self).step <= old(self).steps@.len(),
            old(self).iterations <= old(self).max_iterations,
            old(self).history@.len() >= old(self).start_len@ + old(self).turns,
            old(self).steps@.len() == 0 ==> old(self).turns == 1 && (old(self).history@.len()
                == old(self).start_len@ + 1 || old(self).history@.len() == old(self).start_len@
                + 2),
            old(self).steps@.len() > 0 ==> {
                &&& old(self).step < old(self).steps@.len()
                &&& (is_run_once(old(self).steps@[old(self).step as int]) || is_loop(
                    old(self).steps@[old(self).step as int],
                ))
                &&& (is_loop(old(self).steps@[old(self).step as int]) ==> old(self).iterations
                    < old(self).max_iterations)
            },
        ensures
            final(self).steps@ == old(self).steps@,
            final(self).start_len == old(self).start_len,
            final(self).max_turns == old(self).max_turns,
            final(self).max_iterations == old(self).max_iterations,
            final(self).turns == old(self).turns,
            final(self).context == old(self).context,
            r is Ok ==> final(self).wf(),
            r is Ok ==> final(self).history@.len() >= old(self).history@.len()
                && final(self).history@.subrange(0, old(self).history@.len() as int)
                == old(self).history@,
            r matches Ok(a) ==> (a is Done || a is RequestCompletion),
            r matches Ok(Action::Done) ==> final(self).phase is Finished,
            r matches Ok(Action::RequestCompletion(_)) ==> final(self).phase is AwaitingCompletion,
            old(self).steps@.len() == 0 ==> (r matches Ok(Action::Done) && final(self).history@
                == old(self).history@ && final(self).agent == old(self).agent),
            old(self).steps@.len() > 0 && is_run_once(old(self).steps@[old(self).step as int])
                ==> final(self).step == old(self).step + 1,
            old(self).steps@.len() > 0 && is_loop(old(self).steps@[old(self).step as int]) ==> {
                if loop_goes_on(
                    old(self).iterations + 1,
                    old(self).max_iterations as int,
                    old(self).context.view(),
                    old(self).history@.len() as int,
                    old(self).max_turns as int,
                ) {
                    &&& r matches Ok(Action::RequestCompletion(_))
                    &&& final(self).step == old(self).step
                    &&& final(self).iterations == old(self).iterations + 1
                    &&& final(self).agent == old(self).agent
                    &&& final(self).history@ == old(self).history@.push(final(self).history@.last())
                    &&& message_view(final(self).history@.last()) == (
                        "user"@,
                        Some(old(self).steps@[old(self).step as int].prompt@),
                        None::<Seq<char>>,
                        None::<(Seq<char>, Seq<char>)>,
                    )
                } else {
                    final(self).step == old(self).step + 1
                }
            },
            old(self).steps@.len() > 0 && old(self).next_step_blocked(swarm.agent_registry@) && (
            is_run_once(old(self).steps@[old(self).step as int]) || !loop_goes_on(
                old(self).iterations + 1,
                old(self).max_iterations as int,
                old(self).context.view(),
                old(self).history@.len() as int,
                old(self).max_turns as int,
            )) ==> r matches Err(SwarmError::AgentNotFoundError(_)),
            turn_closed(
                *old(self),
                old(self).history@,
                old(self).agent,
                swarm.agent_registry@,
                *final(self),
                r,
            ),
            frame_kept(*old(self), *final(self)),
    {
        let ghost h0 = self.history@;
        if self.steps.len() == 0 {
            self.phase = Phase::Finished;
            return Ok(Action::Done);
        }
        let looping = str_eq(self.steps[self.step].action.as_str(), "loop");
        proof {
            reveal_strlit("loop");
            reveal_strlit("run_once");
            assert("run_once"@.len() != "loop"@.len());
        }
        if !looping {
            return self.advance(swarm);
        }
        self.iterations = self.iterations + 1;
        let stop = match self.context.get("end_loop") {
            Some(v) => str_eq(v.as_str(), "true"),
            None => false,
        };
        proof {
            reveal_strlit("end_loop");
            reveal_strlit("true");
        }
        if stop || self.iterations >= self.max_iterations || self.history.len() >= self.max_turns {
            return self.advance(swarm);
        }
        let prompt = self.steps[self.step].prompt.clone();
        self.history.push(Message::text("user", prompt));
        self.phase = Phase::AwaitingCompletion;
        proof {
            reveal_strlit("user");
        }
        let req = self.completion_request();
        proof {
            assert(req.messages@.subrange(1, req.messages@.len() as int) == self.history());
            assert(request_matches(*self, req));
            assert(self.history@.subrange(0, h0.len() as int) =~= h0);
        }
        Ok(Action::RequestCompletion(req))
    }

    /// Takes the model's reply: records the first choice's message, and either
    /// asks for the function it calls or ends the turn cycle. A call to a
    /// function the agent lacks is recorded as a note and the run goes on.
    pub fn on_completion(&mut self, swarm: &Swarm, completion: ChatCompletionResponse) -> (r:
        SwarmResult<Action>)
        requires
            old(self).wf(),
            old(self).phase() is AwaitingCompletion,
        ensures
            completion.choices@.len() == 0 ==> r matches Err(SwarmError::ApiError(_)),
            r is Ok ==> final(self).wf(),
            r is Ok ==> final(self).turns() == old(self).turns() + 1,
            r is Ok ==> final(self).history().len() > old(self).history().len()
                && final(self).history().subrange(0, old(self).history().len() as int)
                == old(self).history() && final(self).history()[old(self).history().len() as int]
                == completion.choices@[0].message,
            r matches Ok(Action::InvokeFunction { .. }) ==> final(self).phase() is AwaitingFunction
                && final(self).history().len() == old(self).history().len() + 1,
            old(self).is_default() ==> (r matches Ok(a) ==> !(a is RequestCompletion)),
            (!old(self).is_default() && completion.choices@.len() > 0
                && completion.choices@[0].message.function_call is None && is_loop(
                old(self).program()[old(self).step_index() as int],
            )) ==> if loop_goes_on(
                old(self).iterations() as int + 1,
                old(self).cap() as int,
                old(self).context_view(),
                old(self).history().len() as int + 1,
                old(self).max_turns() as int,
            ) {
                &&& r matches Ok(Action::RequestCompletion(_))
                &&& final(self).step_index() == old(self).step_index()
                &&& final(self).iterations() == old(self).iterations() + 1
            } else {
                final(self).step_index() == old(self).step_index() + 1
            },
            (!old(self).is_default() && completion.choices@.len() > 0
                && completion.choices@[0].message.function_call is None && is_run_once(
                old(self).program()[old(self).step_index() as int],
            )) ==> final(self).step_index() == old(self).step_index() + 1,
            (old(self).is_default() && completion.choices@.len() > 0
                && completion.choices@[0].message.function_call is None) ==> (r matches Ok(
                Action::Done,
            ) && final(self).history() == old(self).history().push(completion.choices@[0].message)),
            ({
                let m = completion.choices@[0].message;
                (completion.choices@.len() > 0 && m.function_call is Some && !blank(
                    m.function_call->0.name@,
                ) && crate::dispatch::last_function_index(
                    old(self).agent_spec().functions@,
                    m.function_call->0.name@,
                ) is None && r is Ok) ==> message_view(
                    final(self).history()[old(self).history().len() as int + 1],
                ) == not_found_view(m.function_call->0.name@)
            }),
            ({
                let m = completion.choices@[0].message;
                (old(self).is_default() && completion.choices@.len() > 0
                    && m.function_call is Some && !blank(m.function_call->0.name@)
                    && crate::dispatch::last_function_index(
                    old(self).agent_spec().functions@,
                    m.function_call->0.name@,
                ) is None) ==> r matches Ok(Action::Done)
            }),
            (!old(self).is_default() && completion.choices@.len() > 0
                && completion.choices@[0].message.function_call is None
                && old(self).next_step_blocked(swarm.agent_registry@) && (is_run_once(
                old(self).program()[old(self).step_index() as int],
            ) || !loop_goes_on(
                old(self).iterations() as int + 1,
                old(self).cap() as int,
                old(self).context_view(),
                old(self).history().len() as int + 1,
                old(self).max_turns() as int,
            ))) ==> r matches Err(SwarmError::AgentNotFoundError(_)),
            completion.choices@.len() == 0 ==> *final(self) == *old(self),
            frame_kept(*old(self), *final(self)),
            completion.choices@.len() > 0 ==> ({
                let m = completion.choices@[0].message;
                let h1 = old(self).history().push(m);
                let reg = swarm.agent_registry@;
                match m.function_call {
                    None => turn_closed(*old(self), h1, old(self).agent_spec(), reg, *final(self), r),
                    Some(fc) => if blank(fc.name@) {
                        r matches Err(SwarmError::ValidationError(_))
                    } else {
                        match last_function_index(old(self).agent_spec().functions@, fc.name@) {
                            None => exists|note: Message|
                                message_view(note) == not_found_view(fc.name@) && turn_closed(
                                    *old(self),
                                    #[trigger] h1.push(note),
                                    old(self).agent_spec(),
                                    reg,
                                    *final(self),
                                    r,
                                ),
                            Some(i) => match json_string_object(fc.arguments@) {
                                None => r matches Err(SwarmError::JsonError(_)),
                                Some(obj) => {
                                    &&& r is Ok
                                    &&& r->Ok_0 matches Action::InvokeFunction { index, name, args }
                                        && index == i && name@ == fc.name@ && args.wf()
                                        && args.view() == call_arguments(
                                        obj,
                                        old(self).agent_spec().functions@[i].accepts_context_variables,
                                        old(self).context_view(),
                                    )
                                    &&& final(self).phase() is AwaitingFunction
                                    &&& final(self).wf()
                                    &&& final(self).history() == h1
                                    &&& final(self).agent_spec() == old(self).agent_spec()
                                    &&& final(self).step_index() == old(self).step_index()
                                    &&& final(self).iterations() == old(self).iterations()
                                    &&& final(self).pending_name() == fc.name@
                                },
                            },
                        }
                    },
                }
            }),
    {
        let mut choices = completion.choices;
        if choices.len() == 0 {
            return Err(SwarmError::ApiError("No choices returned from the model".to_string()));
        }
        let ghost choices_first = choices@[0].message;
        let choice = choices.remove(0);
        let message = choice.message;
        let call = match &message.function_call {
            Some(fc) => Some(fc.duplicate()),
            None => None,
        };
        self.history.push(message);
        let n = self.history.len();
        self.turns = self.turns + 1;
        let ghost after_reply = self.history@;
        let ghost mid = *self;
        proof {
            assert(after_reply =~= old(self).history@.push(choices_first));
        }
        match call {
            None => {
                let r = self.finish_turn(swarm);
                proof {
                    assert(turn_closed(mid, after_reply, mid.agent, swarm.agent_registry@, *self, r));
                    if r is Ok {
                        assert(self.history@.subrange(0, old(self).history@.len() as int)
                            =~= after_reply.subrange(0, old(self).history@.len() as int));
                        assert(self.history@[old(self).history@.len() as int] == after_reply[old(
                            self,
                        ).history@.len() as int]);
                    }
                }
                r
            },
            Some(fc) => {
                match dispatch_function_call(&fc, &self.agent.functions, &self.context)? {
                    FunctionDispatch::NotFound(note) => {
                        let ghost note_g = note;
                        self.history.push(note);
                        let ghost after_note = self.history@;
                        let ghost mid2 = *self;
                        let r = self.finish_turn(swarm);
                        proof {
                            assert(after_note =~= old(self).history@.push(choices_first).push(note_g));
                            assert(turn_closed(mid2, after_note, mid2.agent, swarm.agent_registry@, *self, r));
                            assert(turn_closed(*old(self), old(self).history@.push(choices_first).push(note_g), old(self).agent, swarm.agent_registry@, *self, r));
                            if r is Ok {
                                assert(self.history@.subrange(0, after_note.len() as int)
                                    == after_note);
                                assert(self.history@[old(self).history@.len() as int]
                                    == after_note[old(self).history@.len() as int]);
                                assert(self.history@[old(self).history@.len() as int + 1]
                                    == after_note[old(self).history@.len() as int + 1]);
                                assert(self.history@.subrange(0, old(self).history@.len() as int)
                                    =~= after_note.subrange(0, old(self).history@.len() as int));
                            }
                        }
                        r
                    },
                    FunctionDispatch::Invoke { index, args } => {
                        self.pending = Some(fc.name.clone());
                        self.phase = Phase::AwaitingFunction;
                        Ok(Action::InvokeFunction { index, name: fc.name, args })
                    },
                }
            },
        }
    }

    /// Takes what the requested function returned: a value or an agent is
    /// recorded as a function message, an agent takes over (it must be
    /// registered), and the turn cycle ends. Any other shape aborts the run.
    pub fn on_function_result(&mut self, swarm: &Swarm, result: ResultType) -> (r: SwarmResult<
        Action,
    >)
        requires
            old(self).wf(),
            old(self).phase() is AwaitingFunction,
        ensures
            result is ContextVariables ==> (r matches Err(SwarmError::FunctionError(m)) && m@
                == bad_result_text(result->ContextVariables_0.entries())),
            (result is Agent && registry_index(swarm.agent_registry@, result->Agent_0.name@)
                is None) ==> (r matches Err(SwarmError::AgentNotFoundError(n)) && n@
                == result->Agent_0.name@),
            r is Ok ==> final(self).wf(),
            r is Ok ==> final(self).turns() == old(self).turns(),
            r is Ok ==> final(self).history().len() > old(self).history().len()
                && final(self).history().subrange(0, old(self).history().len() as int)
                == old(self).history() && message_view(
                final(self).history()[old(self).history().len() as int],
            ) == function_message_view(
                old(self).pending_name(),
                match result {
                    ResultType::Value(v) => v@,
                    _ => Seq::empty(),
                },
            ),
            old(self).is_default() ==> (r matches Ok(a) ==> a is Done),
            (old(self).is_default() && r is Ok) ==> final(self).history().len()
                == old(self).history().len() + 1 && match result {
                ResultType::Agent(a) => final(self).agent_spec() == a,
                _ => final(self).agent_spec() == old(self).agent_spec(),
            },
            (!old(self).is_default() && !(result is ContextVariables) && !(result matches ResultType::Agent(a) && registry_index(swarm.agent_registry@, a.name@) is None)
                && old(self).next_step_blocked(swarm.agent_registry@) && (is_run_once(
                old(self).program()[old(self).step_index() as int],
            ) || !loop_goes_on(
                old(self).iterations() as int + 1,
                old(self).cap() as int,
                old(self).context_view(),
                old(self).history().len() as int + 1,
                old(self).max_turns() as int,
            ))) ==> r matches Err(SwarmError::AgentNotFoundError(_)),
            frame_kept(*old(self), *final(self)),
            (result is Value || (result matches ResultType::Agent(a) && registry_index(
                swarm.agent_registry@,
                a.name@,
            ) is Some)) ==> exists|note: Message|
                message_view(note) == function_message_view(
                    old(self).pending_name(),
                    match result {
                        ResultType::Value(v) => v@,
                        _ => Seq::empty(),
                    },
                ) && turn_closed(
                    *old(self),
                    #[trigger] old(self).history().push(note),
                    match result {
                        ResultType::Agent(a) => a,
                        _ => old(self).agent_spec(),
                    },
                    swarm.agent_registry@,
                    *final(self),
                    r,
                ),
    {
        let result = check_function_result(result)?;
        let name = match &self.pending {
            Some(n) => n.clone(),
            None => String::new(),
        };
        let note = function_result_message(&name, &result);
        match result {
            ResultType::Agent(a) => {
                if swarm.find_agent(a.name.as_str()).is_none() {
                    return Err(SwarmError::AgentNotFoundError(a.name));
                }
                self.agent = a;
            },
            _ => {},
        }
        let ghost note_g = note;
        self.history.push(note);
        self.pending = None;
        let ghost after = self.history@;
        let ghost mid = *self;
        let r = self.finish_turn(swarm);
        proof {
            assert(after =~= old(self).history@.push(note_g));
            assert(turn_closed(mid, after, mid.agent, swarm.agent_registry@, *self, r));
            assert(turn_closed(*old(self), after, mid.agent, swarm.agent_registry@, *self, r));
            if result is Value || (result is Agent && registry_index(swarm.agent_registry@, result->Agent_0.name@) is Some) {
                assert(mid.agent == match result {
                    ResultType::Agent(a) => a,
                    _ => old(self).agent_spec(),
                });
                assert(old(self).history().push(note_g) == after);
            }
            assert(message_view(note_g) == function_message_view(
                old(self).pending_name(),
                match result {
                    ResultType::Value(v) => v@,
                    _ => Seq::empty(),
                },
            ));
            if r is Ok {
                assert(self.history@.subrange(0, old(self).history@.len() as int)
                    =~= after.subrange(0, old(self).history@.len() as int));
                assert(self.history@[old(self).history@.len() as int] == after[old(
                    self,
                ).history@.len() as int]);
            }
        }
        r
    }

    /// The outcome of the run: its history, final agent and final context.
    pub fn into_response(self) -> (r: Response)
        ensures
            r.messages@ == self.history(),
            r.agent == Some(self.agent_spec()),
            r.context_variables.view() == self.context_view(),
    {
        Response { messages: self.history, agent: Some(self.agent), context_variables: self.context }
    }
}


/// A run without a step program ends after exactly one model reply, having
/// added one message (the reply) or two (the reply, then a function message
/// or a note about an unknown function) to the history it started with.
pub proof fn lemma_default_run_single_turn(r: Run)
    requires
        r.wf(),
        r.is_default(),
        r.phase() is Finished,
    ensures
        r.turns() == 1,
        r.history().len() == r.start_len() + 1 || r.history().len() == r.start_len() + 2,
{
}

/// A `loop` step never runs more cycles than its cap: a run that waits on a
/// reply inside a loop step has run fewer cycles than the cap.
pub proof fn lemma_loop_within_cap(r: Run)
    requires
        r.wf(),
    ensures
        r.iterations() <= r.cap(),
        !(r.phase() is Finished) && !r.is_default() && is_loop(r.program()[r.step_index() as int])
            ==> r.iterations() < r.cap(),
{
}

/// A loop goes on only below its cap, and never once the context holds the
/// end marker.
pub proof fn lemma_loop_stops(
    done: int,
    cap: int,
    ctx: Map<Seq<char>, Seq<char>>,
    history_len: int,
    max_turns: int,
)
    ensures
        loop_goes_on(done, cap, ctx, history_len, max_turns) ==> done < cap && history_len
            < max_turns,
        loop_end_requested(ctx) ==> !loop_goes_on(done, cap, ctx, history_len, max_turns),
{
}


/// A `loop` step asks for another reply only below its cap: when closing a
/// cycle asks again within the same step, the cycles counted so far (one per
/// reply) stay below the cap, so a loop step issues at most `cap` requests.
pub proof fn lemma_loop_requests_within_cap(
    pre: Run,
    h: Seq<Message>,
    ag: Agent,
    reg: Seq<Agent>,
    post: Run,
    r: SwarmResult<Action>,
)
    requires
        pre.wf(),
        !pre.is_default(),
        !(pre.phase() is Finished),
        is_loop(pre.program()[pre.step_index() as int]),
        turn_closed(pre, h, ag, reg, post, r),
        frame_kept(pre, post),
        r matches Ok(Action::RequestCompletion(_)),
        post.step_index() == pre.step_index(),
    ensures
        post.iterations() == pre.iterations() + 1,
        post.iterations() < post.cap(),
{
}

} // verus!
