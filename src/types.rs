use vstd::prelude::*;
use crate::context::ContextVariables;

verus! {

/// Something that writes an agent's instructions from the current context.
pub trait InstructionSource {
    fn generate(&self, vars: ContextVariables) -> String;
}

/// Calls a host-supplied generator closure; Verus cannot see what the closure
/// asks of its argument, so the call is taken on trust.
#[verifier::external_body]
fn call_generator<F: Fn(ContextVariables) -> String>(f: &F, vars: ContextVariables) -> String {
    f(vars)
}

impl<F: Fn(ContextVariables) -> String> InstructionSource for F {
    fn generate(&self, vars: ContextVariables) -> String {
        call_generator(self, vars)
    }
}

/// A shareable instruction generator.
pub struct InstructionGenerator {
    source: Box<dyn InstructionSource>,
}

impl InstructionGenerator {
    pub fn new<F: Fn(ContextVariables) -> String + 'static>(f: F) -> (r: InstructionGenerator) {
        let source: Box<dyn InstructionSource> = Box::new(f);
        InstructionGenerator { source }
    }

    /// The instructions text for `vars`.
    pub fn generate(&self, vars: ContextVariables) -> String {
        self.source.generate(vars)
    }
}

/// An agent's instructions: a fixed text, or a generator run on the context.
#[derive(Clone)]
pub enum Instructions {
    Text(String),
    Function(std::sync::Arc<InstructionGenerator>),
}

impl Instructions {
    /// Instructions written by `f` from the context of each turn.
    pub fn function<F: Fn(ContextVariables) -> String + 'static>(f: F) -> (r: Instructions)
        ensures
            r is Function,
    {
        Instructions::Function(std::sync::Arc::new(InstructionGenerator::new(f)))
    }
}

/// A function that an agent offers the model. The capability itself is held
/// by the host, which runs it when the engine asks for it by name.
#[derive(Clone, Debug)]
pub struct AgentFunction {
    pub name: String,
    pub accepts_context_variables: bool,
}

impl AgentFunction {
    pub fn new(name: String, accepts_context_variables: bool) -> (r: AgentFunction)
        ensures
            r.name == name,
            r.accepts_context_variables == accepts_context_variables,
    {
        AgentFunction { name, accepts_context_variables }
    }

    pub fn duplicate(&self) -> (r: AgentFunction)
        ensures
            r == *self,
    {
        AgentFunction {
            name: self.name.clone(),
            accepts_context_variables: self.accepts_context_variables,
        }
    }
}

pub fn duplicate_option_string(s: &Option<String>) -> (r: Option<String>)
    ensures
        r == *s,
{
    match s {
        Some(v) => Some(v.clone()),
        None => None,
    }
}

/// A named persona: model, instructions and the functions it may call.
#[derive(Clone)]
pub struct Agent {
    pub name: String,
    pub model: String,
    pub instructions: Instructions,
    pub functions: Vec<AgentFunction>,
    pub function_call: Option<String>,
    pub parallel_tool_calls: bool,
}

/// Two agents that agree on everything but, possibly, the identity of an
/// instruction generator (which has no equality).
pub open spec fn same_agent(a: Agent, b: Agent) -> bool {
    &&& a.name == b.name
    &&& a.model == b.model
    &&& a.functions@ == b.functions@
    &&& a.function_call == b.function_call
    &&& a.parallel_tool_calls == b.parallel_tool_calls
    &&& (a.instructions is Text <==> b.instructions is Text)
    &&& (a.instructions is Text ==> a.instructions == b.instructions)
}

impl Agent {
    /// A copy of this agent, sharing its instruction generator if it has one.
    pub fn duplicate(&self) -> (r: Agent)
        ensures
            same_agent(r, *self),
    {
        let mut functions: Vec<AgentFunction> = Vec::new();
        let mut i: usize = 0;
        while i < self.functions.len()
            invariant
                0 <= i <= self.functions@.len(),
                functions@ == self.functions@.subrange(0, i as int),
            decreases self.functions@.len() - i,
        {
            functions.push(self.functions[i].duplicate());
            i = i + 1;
            assert(functions@ =~= self.functions@.subrange(0, i as int));
        }
        assert(functions@ =~= self.functions@);
        let instructions = match &self.instructions {
            Instructions::Text(t) => Instructions::Text(t.clone()),
            Instructions::Function(g) => Instructions::Function(std::sync::Arc::clone(g)),
        };
        Agent {
            name: self.name.clone(),
            model: self.model.clone(),
            instructions,
            functions,
            function_call: duplicate_option_string(&self.function_call),
            parallel_tool_calls: self.parallel_tool_calls,
        }
    }
}

/// What an agent function hands back.
#[derive(Clone)]
pub enum ResultType {
    Value(String),
    Agent(Agent),
    ContextVariables(ContextVariables),
}

impl ResultType {
    /// The text of a `Value`; empty otherwise.
    pub fn get_value(&self) -> (r: String)
        ensures
            match self {
                ResultType::Value(v) => r@ == v@,
                _ => r@ == Seq::<char>::empty(),
            },
    {
        match self {
            ResultType::Value(v) => v.clone(),
            _ => String::new(),
        }
    }

    /// A copy of the agent of an `Agent`; `None` otherwise.
    pub fn get_agent(&self) -> (r: Option<Agent>)
        ensures
            match self {
                ResultType::Agent(a) => r is Some && same_agent(r->0, *a),
                _ => r is None,
            },
    {
        match self {
            ResultType::Agent(a) => Some(a.duplicate()),
            _ => None,
        }
    }

    /// The delta of a `ContextVariables`; an empty context otherwise.
    pub fn get_context_variables(&self) -> (r: ContextVariables)
        requires
            self is ContextVariables ==> self->ContextVariables_0.wf(),
        ensures
            r.wf(),
            match self {
                ResultType::ContextVariables(c) => r.view() == c.view(),
                _ => r.view() == Map::<Seq<char>, Seq<char>>::empty(),
            },
    {
        match self {
            ResultType::ContextVariables(c) => c.duplicate(),
            _ => ContextVariables::new(),
        }
    }
}

/// A function call that the model asks for: a name and a JSON argument text.
#[derive(Clone, Debug)]
pub struct FunctionCall {
    pub name: String,
    pub arguments: String,
}

impl FunctionCall {
    pub fn duplicate(&self) -> (r: FunctionCall)
        ensures
            r == *self,
    {
        FunctionCall { name: self.name.clone(), arguments: self.arguments.clone() }
    }
}

/// One chat message.
#[derive(Clone, Debug)]
pub struct Message {
    pub role: String,
    pub content: Option<String>,
    pub name: Option<String>,
    pub function_call: Option<FunctionCall>,
}

impl Message {
    /// A message with a role and text, and no name or call.
    pub fn text(role: &str, content: String) -> (r: Message)
        ensures
            r.role@ == role@,
            r.content == Some(content),
            r.name is None,
            r.function_call is None,
    {
        Message { role: role.to_string(), content: Some(content), name: None, function_call: None }
    }

    pub fn duplicate(&self) -> (r: Message)
        ensures
            r == *self,
    {
        Message {
            role: self.role.clone(),
            content: duplicate_option_string(&self.content),
            name: duplicate_option_string(&self.name),
            function_call: match &self.function_call {
                Some(fc) => Some(fc.duplicate()),
                None => None,
            },
        }
    }
}

/// A copy of a list of messages.
pub fn duplicate_messages(ms: &Vec<Message>) -> (r: Vec<Message>)
    ensures
        r@ == ms@,
{
    let mut r: Vec<Message> = Vec::new();
    let mut i: usize = 0;
    while i < ms.len()
        invariant
            0 <= i <= ms@.len(),
            r@ == ms@.subrange(0, i as int),
        decreases ms@.len() - i,
    {
        r.push(ms[i].duplicate());
        i = i + 1;
        assert(r@ =~= ms@.subrange(0, i as int));
    }
    assert(r@ =~= ms@);
    r
}

/// Token counts of one completion.
#[derive(Clone, Debug)]
pub struct Usage {
    pub prompt_tokens: u32,
    pub completion_tokens: u32,
    pub total_tokens: u32,
}

/// One alternative of a completion.
#[derive(Clone, Debug)]
pub struct Choice {
    pub index: u32,
    pub message: Message,
    pub finish_reason: Option<String>,
}

/// A completion as the provider returns it.
#[derive(Clone, Debug)]
pub struct ChatCompletionResponse {
    pub id: String,
    pub object: String,
    pub created: u64,
    pub choices: Vec<Choice>,
    pub usage: Option<Usage>,
}

/// The outcome of a run: history, final agent and final context.
pub struct Response {
    pub messages: Vec<Message>,
    pub agent: Option<Agent>,
    pub context_variables: ContextVariables,
}

/// The step program parsed from an agent's instructions.
#[derive(Clone, Debug)]
pub struct Steps {
    pub steps: Vec<Step>,
}

/// One step of a step program.
#[derive(Clone, Debug)]
pub struct Step {
    pub number: usize,
    pub action: String,
    pub agent: Option<String>,
    pub prompt: String,
}

/// Limits on `loop` steps.
#[derive(Clone, Debug)]
pub struct LoopControl {
    pub default_max_iterations: u32,
    pub iteration_delay_ms: u64,
    pub break_conditions: Vec<String>,
}

/// Timeouts of one request, in seconds.
#[derive(Clone, Debug)]
pub struct TimeoutSettings {
    pub request_timeout: u64,
    pub connect_timeout: u64,
    pub read_timeout: u64,
    pub write_timeout: u64,
}

/// The static settings of an engine.
#[derive(Clone, Debug)]
pub struct SwarmConfig {
    pub api_url: String,
    pub api_version: String,
    pub request_timeout: u64,
    pub connect_timeout: u64,
    pub max_retries: u32,
    pub max_loop_iterations: u32,
    pub valid_model_prefixes: Vec<String>,
    pub valid_api_url_prefixes: Vec<String>,
    pub loop_control: LoopControl,
}

/// An error body of the provider.
#[derive(Clone, Debug)]
pub struct OpenAIErrorResponse {
    pub error: OpenAIError,
}

/// The detail of a provider error.
#[derive(Clone, Debug)]
pub struct OpenAIError {
    pub message: String,
    pub error_type: String,
    pub param: Option<String>,
    pub code: Option<String>,
}


impl Default for LoopControl {
    fn default() -> (r: LoopControl)
        ensures
            r.default_max_iterations == 10,
            r.iteration_delay_ms == 100,
            r.break_conditions@.len() == 1,
            r.break_conditions@[0]@ == "end_loop"@,
    {
        LoopControl {
            default_max_iterations: 10,
            iteration_delay_ms: 100,
            break_conditions: vec!["end_loop".to_string()],
        }
    }
}

/// The default settings.
pub open spec fn default_config(r: SwarmConfig) -> bool {
    &&& r.api_url@ == "https://api.openai.com/v1/chat/completions"@
    &&& r.api_version@ == "v1"@
    &&& r.request_timeout == 30
    &&& r.connect_timeout == 10
    &&& r.max_retries == 3
    &&& r.max_loop_iterations == 10
    &&& r.valid_model_prefixes@.len() == 4
    &&& r.valid_model_prefixes@[0]@ == "gpt-"@
    &&& r.valid_model_prefixes@[1]@ == "deepseek-"@
    &&& r.valid_model_prefixes@[2]@ == "openai-"@
    &&& r.valid_model_prefixes@[3]@ == "openrouter-"@
    &&& r.valid_api_url_prefixes@.len() == 2
    &&& r.valid_api_url_prefixes@[0]@ == "https://api.openai.com"@
    &&& r.valid_api_url_prefixes@[1]@ == "https://api.azure.com/openai"@
    &&& r.loop_control.default_max_iterations == 10
    &&& r.loop_control.iteration_delay_ms == 100
    &&& r.loop_control.break_conditions@.len() == 1
    &&& r.loop_control.break_conditions@[0]@ == "end_loop"@
}

impl Default for SwarmConfig {
    fn default() -> (r: SwarmConfig)
        ensures
            default_config(r),
    {
        SwarmConfig {
            api_url: crate::constants::OPENAI_DEFAULT_API_URL.to_string(),
            api_version: crate::constants::DEFAULT_API_VERSION.to_string(),
            request_timeout: crate::constants::DEFAULT_REQUEST_TIMEOUT,
            connect_timeout: crate::constants::DEFAULT_CONNECT_TIMEOUT,
            max_retries: 3,
            max_loop_iterations: 10,
            valid_model_prefixes: vec![
                "gpt-".to_string(),
                "deepseek-".to_string(),
                "openai-".to_string(),
                "openrouter-".to_string(),
            ],
            valid_api_url_prefixes: vec![
                "https://api.openai.com".to_string(),
                "https://api.azure.com/openai".to_string(),
            ],
            loop_control: LoopControl::default(),
        }
    }
}

} // verus!
