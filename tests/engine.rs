use rswarm::engine::{Action, Run};
use rswarm::types::{AgentFunction, ChatCompletionResponse, Choice, FunctionCall, ResultType};
use rswarm::{Agent, ContextVariables, Instructions, Message, Swarm, SwarmConfig, SwarmError};

fn agent(name: &str, instructions: &str, functions: Vec<AgentFunction>) -> Agent {
    Agent {
        name: name.to_string(),
        model: "gpt-4".to_string(),
        instructions: Instructions::Text(instructions.to_string()),
        functions,
        function_call: None,
        parallel_tool_calls: false,
    }
}

fn swarm_with(agents: Vec<Agent>, config: SwarmConfig) -> Swarm {
    let mut builder = Swarm::builder().with_api_key("sk-test123456789".to_string()).with_config(config);
    for a in agents {
        builder = builder.with_agent(a);
    }
    builder.build().expect("Failed to build Swarm")
}

fn user(text: &str) -> Message {
    Message { role: "user".to_string(), content: Some(text.to_string()), name: None, function_call: None }
}

fn reply(text: &str) -> ChatCompletionResponse {
    completion_of(Message {
        role: "assistant".to_string(),
        content: Some(text.to_string()),
        name: None,
        function_call: None,
    })
}

fn call_reply(name: &str, arguments: &str) -> ChatCompletionResponse {
    completion_of(Message {
        role: "assistant".to_string(),
        content: None,
        name: None,
        function_call: Some(FunctionCall { name: name.to_string(), arguments: arguments.to_string() }),
    })
}

fn completion_of(message: Message) -> ChatCompletionResponse {
    ChatCompletionResponse {
        id: "c1".to_string(),
        object: "chat.completion".to_string(),
        created: 0,
        choices: vec![Choice { index: 0, message, finish_reason: None }],
        usage: None,
    }
}

fn start(swarm: &Swarm, a: Agent, messages: Vec<Message>, ctx: ContextVariables, max_turns: usize) -> (Run, Action) {
    swarm.start_run(a, messages, ctx, None, max_turns).expect("run should start")
}

#[test]
fn default_run_is_one_turn_without_call() {
    let swarm = swarm_with(vec![], SwarmConfig::default());
    let (mut run, action) = start(&swarm, agent("helper", "Be brief.", vec![]), vec![user("Hello!")], ContextVariables::new(), 5);
    match action {
        Action::RequestCompletion(req) => {
            assert_eq!(req.messages.len(), 2);
            assert_eq!(req.messages[0].role, "system");
            assert_eq!(req.messages[0].content.as_deref(), Some("Be brief."));
            assert_eq!(req.model, "gpt-4");
        }
        _ => panic!("expected a model request"),
    }
    let next = run.on_completion(&swarm, reply("Hi there!")).unwrap();
    assert!(matches!(next, Action::Done));
    let response = run.into_response();
    assert_eq!(response.messages.len(), 2);
    assert_eq!(response.messages[1].content.as_deref(), Some("Hi there!"));
    assert_eq!(response.agent.unwrap().name, "helper");
}

#[test]
fn default_run_with_function_adds_two_messages() {
    let functions = vec![AgentFunction { name: "lookup".to_string(), accepts_context_variables: false }];
    let swarm = swarm_with(vec![], SwarmConfig::default());
    let (mut run, _) = start(&swarm, agent("helper", "Use tools.", functions), vec![user("Find it")], ContextVariables::new(), 5);
    let next = run.on_completion(&swarm, call_reply("lookup", "{\"q\":\"rust\"}")).unwrap();
    match next {
        Action::InvokeFunction { index, name, args } => {
            assert_eq!(index, 0);
            assert_eq!(name, "lookup");
            assert_eq!(args.get("q").map(|s| s.as_str()), Some("rust"));
        }
        _ => panic!("expected a function call"),
    }
    let next = run.on_function_result(&swarm, ResultType::Value("found".to_string())).unwrap();
    assert!(matches!(next, Action::Done));
    let response = run.into_response();
    assert_eq!(response.messages.len(), 3);
    assert_eq!(response.messages[2].role, "function");
    assert_eq!(response.messages[2].name.as_deref(), Some("lookup"));
    assert_eq!(response.messages[2].content.as_deref(), Some("found"));
}

#[test]
fn empty_instructions_fail_validation() {
    let swarm = swarm_with(vec![], SwarmConfig::default());
    let result = swarm.start_run(agent("helper", "", vec![]), vec![user("Hello!")], ContextVariables::new(), None, 5);
    assert!(matches!(result, Err(SwarmError::ValidationError(_))));
}

#[test]
fn max_turns_above_configured_limit_fails() {
    let swarm = swarm_with(vec![], SwarmConfig::default());
    let result = swarm.start_run(agent("helper", "Hi", vec![]), vec![], ContextVariables::new(), None, 11);
    assert!(matches!(result, Err(SwarmError::ValidationError(_))));
    let zero = swarm.start_run(agent("helper", "Hi", vec![]), vec![], ContextVariables::new(), None, 0);
    assert!(matches!(zero, Err(SwarmError::ValidationError(_))));
}

#[test]
fn run_once_step_adds_prompt_and_reply() {
    let swarm = swarm_with(vec![], SwarmConfig::default());
    let instructions = "You help. <steps><step number=\"1\" action=\"run_once\"><prompt>Hi</prompt></step></steps>";
    let (mut run, action) = start(&swarm, agent("helper", instructions, vec![]), vec![], ContextVariables::new(), 5);
    match action {
        Action::RequestCompletion(req) => {
            assert_eq!(req.messages[0].content.as_deref(), Some("You help."));
            assert_eq!(req.messages.len(), 2);
        }
        _ => panic!("expected a model request"),
    }
    let next = run.on_completion(&swarm, reply("Hello")).unwrap();
    assert!(matches!(next, Action::Done));
    let response = run.into_response();
    assert_eq!(response.messages.len(), 2);
    assert_eq!(response.messages[0].role, "user");
    assert_eq!(response.messages[0].content.as_deref(), Some("Hi"));
    assert_eq!(response.messages[1].role, "assistant");
    assert_eq!(response.agent.unwrap().name, "helper");
}

#[test]
fn unknown_function_is_reported_and_run_goes_on() {
    let swarm = swarm_with(vec![], SwarmConfig::default());
    let (mut run, _) = start(&swarm, agent("helper", "Hi", vec![]), vec![user("Go")], ContextVariables::new(), 5);
    let next = run.on_completion(&swarm, call_reply("missing_tool", "{}")).unwrap();
    assert!(matches!(next, Action::Done));
    let response = run.into_response();
    assert_eq!(response.messages.len(), 3);
    assert_eq!(response.messages[2].role, "assistant");
    assert!(response.messages[2].content.as_deref().unwrap().contains("missing_tool"));
    assert_eq!(response.messages[2].content.as_deref(), Some("Error: Function missing_tool not found."));
}

#[test]
fn loop_step_stops_at_cap() {
    let mut config = SwarmConfig::default();
    config.loop_control.default_max_iterations = 3;
    let swarm = swarm_with(vec![], config);
    let instructions = "Loop. <steps><step number=\"1\" action=\"loop\"><prompt>Again</prompt></step></steps>";
    let (mut run, mut action) = start(&swarm, agent("helper", instructions, vec![]), vec![], ContextVariables::new(), 10);
    let mut cycles = 0;
    while let Action::RequestCompletion(_) = action {
        cycles += 1;
        action = run.on_completion(&swarm, reply("more")).unwrap();
    }
    assert!(matches!(action, Action::Done));
    assert_eq!(cycles, 3);
    assert_eq!(run.into_response().messages.len(), 6);
}

#[test]
fn loop_step_stops_on_end_marker() {
    let swarm = swarm_with(vec![], SwarmConfig::default());
    let instructions = "<steps><step number=\"1\" action=\"loop\"><prompt>Again</prompt></step></steps> Loop.";
    let mut ctx = ContextVariables::new();
    ctx.insert("end_loop".to_string(), "true".to_string());
    let (mut run, action) = start(&swarm, agent("helper", instructions, vec![]), vec![], ctx, 10);
    assert!(matches!(action, Action::RequestCompletion(_)));
    let next = run.on_completion(&swarm, reply("done")).unwrap();
    assert!(matches!(next, Action::Done));
    assert_eq!(run.into_response().messages.len(), 2);
}

#[test]
fn loop_step_stops_at_max_turns() {
    let swarm = swarm_with(vec![], SwarmConfig::default());
    let instructions = "<steps><step number=\"1\" action=\"loop\"><prompt>Again</prompt></step></steps>";
    let (mut run, mut action) = start(&swarm, agent("helper", instructions, vec![]), vec![], ContextVariables::new(), 4);
    let mut cycles = 0;
    while let Action::RequestCompletion(_) = action {
        cycles += 1;
        action = run.on_completion(&swarm, reply("more")).unwrap();
    }
    assert_eq!(cycles, 2);
    assert_eq!(run.into_response().messages.len(), 4);
}

#[test]
fn step_agent_switch_to_registered_agent() {
    let swarm = swarm_with(vec![agent("expert", "I know things.", vec![])], SwarmConfig::default());
    let instructions = "<steps><step number=\"1\" action=\"run_once\" agent=\"expert\"><prompt>Q</prompt></step></steps>";
    let (mut run, action) = start(&swarm, agent("helper", instructions, vec![]), vec![], ContextVariables::new(), 5);
    match action {
        Action::RequestCompletion(req) => assert_eq!(req.messages[0].content.as_deref(), Some("I know things.")),
        _ => panic!("expected a model request"),
    }
    run.on_completion(&swarm, reply("A")).unwrap();
    assert_eq!(run.into_response().agent.unwrap().name, "expert");
}

#[test]
fn step_naming_unknown_agent_aborts() {
    let swarm = swarm_with(vec![], SwarmConfig::default());
    let instructions = "<steps><step number=\"1\" action=\"run_once\" agent=\"ghost\"><prompt>Q</prompt></step></steps>";
    let result = swarm.start_run(agent("helper", instructions, vec![]), vec![], ContextVariables::new(), None, 5);
    assert!(matches!(result, Err(SwarmError::AgentNotFoundError(_))));
}

#[test]
fn function_handing_off_to_unknown_agent_aborts() {
    let functions = vec![AgentFunction { name: "transfer".to_string(), accepts_context_variables: false }];
    let swarm = swarm_with(vec![], SwarmConfig::default());
    let (mut run, _) = start(&swarm, agent("helper", "Hi", functions), vec![user("Go")], ContextVariables::new(), 5);
    run.on_completion(&swarm, call_reply("transfer", "{}")).unwrap();
    let result = run.on_function_result(&swarm, ResultType::Agent(agent("ghost", "Boo", vec![])));
    assert!(matches!(result, Err(SwarmError::AgentNotFoundError(_))));
}

#[test]
fn function_handing_off_to_registered_agent() {
    let functions = vec![AgentFunction { name: "transfer".to_string(), accepts_context_variables: false }];
    let swarm = swarm_with(vec![agent("sales", "Sell.", vec![])], SwarmConfig::default());
    let (mut run, _) = start(&swarm, agent("helper", "Hi", functions), vec![user("Go")], ContextVariables::new(), 5);
    run.on_completion(&swarm, call_reply("transfer", "{}")).unwrap();
    let next = run.on_function_result(&swarm, ResultType::Agent(agent("sales", "Sell.", vec![]))).unwrap();
    assert!(matches!(next, Action::Done));
    assert_eq!(run.into_response().agent.unwrap().name, "sales");
}

#[test]
fn context_result_is_a_function_error() {
    let functions = vec![AgentFunction { name: "f".to_string(), accepts_context_variables: false }];
    let swarm = swarm_with(vec![], SwarmConfig::default());
    let (mut run, _) = start(&swarm, agent("helper", "Hi", functions), vec![user("Go")], ContextVariables::new(), 5);
    run.on_completion(&swarm, call_reply("f", "{}")).unwrap();
    let mut delta = ContextVariables::new();
    delta.insert("k".to_string(), "v".to_string());
    let result = run.on_function_result(&swarm, ResultType::ContextVariables(delta));
    assert!(matches!(result, Err(SwarmError::FunctionError(_))));
}

#[test]
fn empty_choices_is_an_api_error() {
    let swarm = swarm_with(vec![], SwarmConfig::default());
    let (mut run, _) = start(&swarm, agent("helper", "Hi", vec![]), vec![user("Go")], ContextVariables::new(), 5);
    let empty = ChatCompletionResponse {
        id: "c".to_string(),
        object: "chat.completion".to_string(),
        created: 0,
        choices: vec![],
        usage: None,
    };
    assert!(matches!(run.on_completion(&swarm, empty), Err(SwarmError::ApiError(_))));
}

#[test]
fn invalid_step_number_and_action_fail() {
    let swarm = swarm_with(vec![], SwarmConfig::default());
    let zero = "<steps><step number=\"0\" action=\"run_once\"><prompt>Q</prompt></step></steps>";
    let r = swarm.start_run(agent("helper", zero, vec![]), vec![], ContextVariables::new(), None, 5);
    assert!(matches!(r, Err(SwarmError::ValidationError(_))));
    let unknown = "<steps><step number=\"1\" action=\"dance\"><prompt>Q</prompt></step></steps>";
    let r = swarm.start_run(agent("helper", unknown, vec![]), vec![], ContextVariables::new(), None, 5);
    assert!(matches!(r, Err(SwarmError::ValidationError(_))));
    let blank = "<steps><step number=\"1\" action=\"run_once\"><prompt>  </prompt></step></steps>";
    let r = swarm.start_run(agent("helper", blank, vec![]), vec![], ContextVariables::new(), None, 5);
    assert!(matches!(r, Err(SwarmError::ValidationError(_))));
}

#[test]
fn malformed_program_is_an_xml_error() {
    let swarm = swarm_with(vec![], SwarmConfig::default());
    let bad = "<steps><step number=\"1\"><prompt>Q</prompt></step></steps>";
    let r = swarm.start_run(agent("helper", bad, vec![]), vec![], ContextVariables::new(), None, 5);
    assert!(matches!(r, Err(SwarmError::XmlError(_))));
}

#[test]
fn generated_instructions_are_resolved_from_context() {
    let swarm = swarm_with(vec![], SwarmConfig::default());
    let a = Agent {
        name: "gen".to_string(),
        model: "gpt-4".to_string(),
        instructions: Instructions::function(|vars: ContextVariables| -> String {
            format!("Hello {}", vars.get("user").cloned().unwrap_or_default())
        }),
        functions: vec![],
        function_call: None,
        parallel_tool_calls: false,
    };
    let mut ctx = ContextVariables::new();
    ctx.insert("user".to_string(), "Ann".to_string());
    let (_, action) = start(&swarm, a, vec![user("Hi")], ctx, 5);
    match action {
        Action::RequestCompletion(req) => assert_eq!(req.messages[0].content.as_deref(), Some("Hello Ann")),
        _ => panic!("expected a model request"),
    }
}

#[test]
fn later_step_naming_unknown_agent_aborts() {
    let swarm = swarm_with(vec![], SwarmConfig::default());
    let instructions = "<steps><step number=\"1\" action=\"run_once\"><prompt>Q</prompt></step><step number=\"2\" action=\"run_once\" agent=\"ghost\"><prompt>R</prompt></step></steps>";
    let (mut run, _) = start(&swarm, agent("helper", instructions, vec![]), vec![], ContextVariables::new(), 5);
    let result = run.on_completion(&swarm, reply("A"));
    assert!(matches!(result, Err(SwarmError::AgentNotFoundError(_))));
}

#[test]
fn two_steps_run_in_order() {
    let swarm = swarm_with(vec![], SwarmConfig::default());
    let instructions = "<steps><step number=\"1\" action=\"run_once\"><prompt>Q</prompt></step><step number=\"2\" action=\"run_once\"><prompt>R</prompt></step></steps>";
    let (mut run, _) = start(&swarm, agent("helper", instructions, vec![]), vec![], ContextVariables::new(), 9);
    let next = run.on_completion(&swarm, reply("A")).unwrap();
    match next {
        Action::RequestCompletion(req) => {
            assert_eq!(req.messages.len(), 4);
            assert_eq!(req.messages[3].content.as_deref(), Some("R"));
        }
        _ => panic!("expected the second step's request"),
    }
    let done = run.on_completion(&swarm, reply("B")).unwrap();
    assert!(matches!(done, Action::Done));
    let contents: Vec<String> = run.into_response().messages.iter().map(|m| m.content.clone().unwrap()).collect();
    assert_eq!(contents, vec!["Q", "A", "R", "B"]);
}
