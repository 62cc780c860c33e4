use rswarm::roster::initialize_agents;
use rswarm::types::AgentFunction;
use rswarm::constants::{MAX_REQUEST_TIMEOUT, MIN_REQUEST_TIMEOUT, OPENAI_DEFAULT_API_URL};
use rswarm::{Agent, ContextVariables, Instructions, Swarm, SwarmConfig, SwarmError};

fn text_agent(name: &str, model: &str, instructions: &str) -> Agent {
    Agent {
        name: name.to_string(),
        model: model.to_string(),
        instructions: Instructions::Text(instructions.to_string()),
        functions: vec![],
        function_call: None,
        parallel_tool_calls: false,
    }
}

fn build_with(agent: Agent) -> Result<Swarm, SwarmError> {
    Swarm::builder()
        .with_api_key("sk-test123456789".to_string())
        .with_agent(agent)
        .build()
}

#[test]
fn test_agent_in_swarm_registry() {
    let agent = text_agent("registry_test_agent", "gpt-4", "Test instructions");
    let swarm = build_with(agent.clone()).expect("Failed to build Swarm");
    assert!(swarm.get_agent_by_name(&agent.name).is_ok());
    let registered_agent = swarm.get_agent_by_name(&agent.name).unwrap();
    assert_eq!(registered_agent.name, "registry_test_agent");
    assert_eq!(registered_agent.model, "gpt-4");
}

#[test]
fn test_agent_empty_name() {
    let result = build_with(text_agent("", "gpt-4", "Test instructions"));
    assert!(result.is_err());
    match result {
        Err(SwarmError::ValidationError(msg)) => assert!(msg.contains("Agent name cannot be empty")),
        _ => panic!("Expected ValidationError for empty agent name"),
    }
}

#[test]
fn test_agent_empty_model() {
    let result = build_with(text_agent("test_agent", "", "Test instructions"));
    assert!(result.is_err());
    match result {
        Err(SwarmError::ValidationError(msg)) => assert!(msg.contains("Agent model cannot be empty")),
        _ => panic!("Expected ValidationError for empty model"),
    }
}

#[test]
fn test_agent_invalid_model_prefix() {
    let result = build_with(text_agent("test_agent", "invalid-model", "Test instructions"));
    assert!(result.is_err());
    match result {
        Err(SwarmError::ValidationError(msg)) => assert!(msg.contains("Invalid model prefix")),
        _ => panic!("Expected ValidationError for invalid model prefix"),
    }
}

#[test]
fn test_agent_missing_instructions() {
    let result = build_with(text_agent("test_agent", "gpt-4", ""));
    assert!(result.is_err());
    match result {
        Err(SwarmError::ValidationError(msg)) => {
            assert!(msg.contains("Agent instructions cannot be empty"))
        }
        _ => panic!("Expected ValidationError for empty instructions"),
    }
}

#[test]
fn test_agent_with_invalid_model_prefix() {
    let result = build_with(text_agent("test_agent", "invalid-model", "Test instructions"));
    assert!(matches!(result, Err(SwarmError::ValidationError(_))));
    if let Err(SwarmError::ValidationError(msg)) = result {
        assert!(msg.contains("Invalid model prefix"));
    }
}

#[test]
fn test_agent_with_empty_model() {
    let result = build_with(text_agent("test_agent", "", "Test instructions"));
    assert!(matches!(result, Err(SwarmError::ValidationError(_))));
    if let Err(SwarmError::ValidationError(msg)) = result {
        assert!(msg.contains("Agent model cannot be empty"));
    }
}

#[test]
fn test_agent_with_valid_model_prefix() {
    let result = build_with(text_agent("test_agent", "gpt-4", "Test instructions"));
    assert!(result.is_ok());
}

#[test]
fn test_custom_model_prefix_validation() {
    let config = SwarmConfig {
        valid_model_prefixes: vec!["custom-".to_string()],
        ..SwarmConfig::default()
    };
    let result = Swarm::builder()
        .with_api_key("sk-test123456789".to_string())
        .with_config(config)
        .with_agent(text_agent("test_agent", "custom-model", "Test instructions"))
        .build();
    assert!(result.is_ok());
}

#[test]
fn test_agent_with_valid_text_instructions() {
    let result = build_with(text_agent("test_agent", "gpt-4", "Valid test instructions"));
    assert!(result.is_ok());
    if let Ok(swarm) = result {
        let stored_agent = swarm.get_agent_by_name("test_agent").unwrap();
        match &stored_agent.instructions {
            Instructions::Text(text) => assert_eq!(text, "Valid test instructions"),
            _ => panic!("Expected Text instructions"),
        }
    }
}

#[test]
fn test_agent_with_empty_text_instructions() {
    let result = build_with(text_agent("test_agent", "gpt-4", ""));
    assert!(result.is_err());
    match result {
        Err(SwarmError::ValidationError(msg)) => {
            assert!(msg.contains("Agent instructions cannot be empty"))
        }
        _ => panic!("Expected ValidationError for empty instructions"),
    }
}

#[test]
fn test_agent_with_whitespace_only_text_instructions() {
    let result = build_with(text_agent("test_agent", "gpt-4", "    \n\t    "));
    assert!(result.is_err());
    match result {
        Err(SwarmError::ValidationError(msg)) => {
            assert!(msg.contains("Agent instructions cannot be empty"))
        }
        _ => panic!("Expected ValidationError for whitespace-only instructions"),
    }
}

#[test]
fn test_agent_with_multiline_text_instructions() {
    let result = build_with(text_agent("test_agent", "gpt-4", "Line 1\nLine 2\nLine 3"));
    assert!(result.is_ok());
    if let Ok(swarm) = result {
        let stored_agent = swarm.get_agent_by_name("test_agent").unwrap();
        match &stored_agent.instructions {
            Instructions::Text(text) => assert_eq!(text, "Line 1\nLine 2\nLine 3"),
            _ => panic!("Expected Text instructions"),
        }
    }
}

#[test]
fn test_function_instructions_in_swarm() {
    let agent = Agent {
        name: "swarm_agent".to_string(),
        model: "gpt-4".to_string(),
        instructions: Instructions::function(|_: ContextVariables| -> String {
            "Swarm function instructions".to_string()
        }),
        functions: vec![],
        function_call: None,
        parallel_tool_calls: false,
    };
    let swarm = build_with(agent).expect("Failed to build Swarm");
    let context = ContextVariables::new();
    let stored_agent = swarm.get_agent_by_name("swarm_agent").unwrap();
    match &stored_agent.instructions {
        Instructions::Function(f) => assert_eq!(f.generate(context), "Swarm function instructions"),
        _ => panic!("Expected Function instructions"),
    }
}

#[test]
fn test_invalid_api_url() {
    let result = Swarm::builder()
        .with_api_key("sk-test123456789".to_string())
        .with_api_url("http://invalid-url.com".to_string())
        .build();
    assert!(result.is_err());
    match result {
        Err(SwarmError::ValidationError(msg)) => {
            assert!(msg.contains("API URL must start with https://"))
        }
        _ => panic!("Expected ValidationError for invalid API URL"),
    }
}

#[test]
fn test_valid_configurations() {
    let valid_config = SwarmConfig {
        request_timeout: 30,
        connect_timeout: 10,
        max_retries: 3,
        valid_model_prefixes: vec!["gpt-".to_string()],
        api_url: "https://api.openai.com/v1".to_string(),
        ..SwarmConfig::default()
    };
    let result = Swarm::builder()
        .with_api_key("sk-test123456789".to_string())
        .with_config(valid_config)
        .build();
    assert!(result.is_ok());
}

#[test]
fn test_builder_basic_config() {
    let test_api_key = "sk-test123456789".to_string();
    let swarm = Swarm::builder()
        .with_api_key(test_api_key.clone())
        .build()
        .expect("Failed to build Swarm");
    assert_eq!(swarm.api_key, test_api_key);
    assert_eq!(swarm.config.api_url, OPENAI_DEFAULT_API_URL);
}

#[test]
fn test_builder_api_settings() {
    let test_api_key = "sk-test123456789".to_string();
    let test_api_url = "https://api.openai.com/v2".to_string();
    let test_api_version = "2024-01".to_string();
    let swarm = Swarm::builder()
        .with_api_key(test_api_key.clone())
        .with_api_url(test_api_url.clone())
        .with_api_version(test_api_version.clone())
        .build()
        .expect("Failed to build Swarm");
    assert_eq!(swarm.api_key, test_api_key);
    assert_eq!(swarm.config.api_url, test_api_url);
    assert_eq!(swarm.config.api_version, test_api_version);
}

#[test]
fn test_builder_timeout_settings() {
    let swarm = Swarm::builder()
        .with_api_key("sk-test123456789".to_string())
        .with_request_timeout(60)
        .with_connect_timeout(20)
        .build()
        .expect("Failed to build Swarm");
    assert_eq!(swarm.config.request_timeout, 60);
    assert_eq!(swarm.config.connect_timeout, 20);
}

#[test]
fn test_builder_with_agent() {
    let swarm = Swarm::builder()
        .with_api_key("sk-test123456789".to_string())
        .with_agent(text_agent("test_agent", "gpt-4", "Test instructions"))
        .build()
        .expect("Failed to build Swarm");
    assert!(swarm.get_agent_by_name("test_agent").is_ok());
    assert_eq!(swarm.get_agent_by_name("test_agent").unwrap().model, "gpt-4");
}

#[test]
fn test_builder_default_values() {
    let swarm = Swarm::builder()
        .with_api_key("sk-test123456789".to_string())
        .build()
        .expect("Failed to build Swarm");
    let default_config = SwarmConfig::default();
    assert_eq!(swarm.config.api_url, default_config.api_url);
    assert_eq!(swarm.config.api_version, default_config.api_version);
    assert_eq!(swarm.config.request_timeout, default_config.request_timeout);
    assert_eq!(swarm.config.connect_timeout, default_config.connect_timeout);
    assert_eq!(swarm.config.max_retries, default_config.max_retries);
    assert_eq!(swarm.config.max_loop_iterations, default_config.max_loop_iterations);
    assert!(swarm.agent_registry.is_empty());
}

#[test]
fn test_valid_swarm_initialization() {
    let config = SwarmConfig {
        api_url: "https://api.openai.com/v1".to_string(),
        api_version: "v1".to_string(),
        request_timeout: 30,
        connect_timeout: 10,
        max_retries: 3,
        max_loop_iterations: 10,
        valid_model_prefixes: vec!["gpt-".to_string()],
        valid_api_url_prefixes: vec!["https://api.openai.com".to_string()],
        loop_control: Default::default(),
    };
    let agent = text_agent("test_agent", "gpt-4", "Test instructions");
    let swarm = Swarm::builder()
        .with_api_key("sk-test123456789".to_string())
        .with_config(config.clone())
        .with_agent(agent.clone())
        .build()
        .expect("Failed to create Swarm");
    assert_eq!(swarm.api_key, "sk-test123456789");
    assert_eq!(swarm.config.api_url, config.api_url);
    assert_eq!(swarm.config.request_timeout, config.request_timeout);
    assert_eq!(swarm.config.connect_timeout, config.connect_timeout);
    assert_eq!(swarm.config.max_retries, config.max_retries);
    assert!(swarm.get_agent_by_name("test_agent").is_ok());
    assert_eq!(swarm.get_agent_by_name("test_agent").unwrap().name, agent.name);
    assert_eq!(swarm.get_agent_by_name("test_agent").unwrap().model, agent.model);
}

#[test]
fn test_invalid_configurations() {
    let test_cases = vec![
        (SwarmConfig { request_timeout: 0, ..SwarmConfig::default() }, "request_timeout must be greater than 0"),
        (SwarmConfig { connect_timeout: 0, ..SwarmConfig::default() }, "connect_timeout must be greater than 0"),
        (SwarmConfig { max_retries: 0, ..SwarmConfig::default() }, "max_retries must be greater than 0"),
        (SwarmConfig { valid_model_prefixes: vec![], ..SwarmConfig::default() }, "valid_model_prefixes cannot be empty"),
        (SwarmConfig { request_timeout: MIN_REQUEST_TIMEOUT - 1, ..SwarmConfig::default() }, "request_timeout must be between"),
        (SwarmConfig { request_timeout: MAX_REQUEST_TIMEOUT + 1, ..SwarmConfig::default() }, "request_timeout must be between"),
    ];

    for (config, expected_error) in test_cases {
        let result = Swarm::builder()
            .with_api_key("sk-test123456789".to_string())
            .with_config(config)
            .build();

        assert!(result.is_err());
        match result {
            Err(SwarmError::ValidationError(msg)) => {
                assert!(
                    msg.contains(expected_error),
                    "Expected error message containing '{}', got '{}'",
                    expected_error,
                    msg
                );
            }
            _ => panic!("Expected ValidationError for invalid configuration"),
        }
    }
}

#[test]
fn roster_of_three_agents() {
    let browse = AgentFunction { name: "browse_docs".to_string(), accepts_context_variables: false };
    let agents = initialize_agents("gpt-4o", "Write the report.", browse);
    assert_eq!(agents.len(), 3);
    assert_eq!(agents[0].name, "Agent");
    assert_eq!(agents[1].name, "AgentManager");
    assert_eq!(agents[2].name, "DocBrowserAgent");
    assert!(agents.iter().all(|a| a.model == "gpt-4o"));
    match &agents[0].instructions {
        Instructions::Text(t) => assert_eq!(t, "Write the report."),
        _ => panic!("Expected Text instructions"),
    }
    assert_eq!(agents[2].functions.len(), 1);
    assert_eq!(agents[2].functions[0].name, "browse_docs");
    let swarm = Swarm::builder()
        .with_api_key("sk-test123456789".to_string())
        .with_agents(&agents)
        .build()
        .expect("Failed to build Swarm");
    assert_eq!(swarm.agent_registry.len(), 3);
}

#[test]
fn api_url_must_parse_and_match() {
    let bad_port = Swarm::builder()
        .with_api_key("sk-test123456789".to_string())
        .with_api_url("https://api.openai.com:99999/v1".to_string())
        .build();
    match bad_port {
        Err(SwarmError::ValidationError(msg)) => assert!(msg.contains("Invalid API URL format")),
        _ => panic!("Expected ValidationError for an unparsable URL"),
    }
    let local = Swarm::builder()
        .with_api_key("sk-test123456789".to_string())
        .with_api_url("http://localhost:8000".to_string())
        .build();
    assert!(local.is_ok());
    let other_host = Swarm::builder()
        .with_api_key("sk-test123456789".to_string())
        .with_api_url("https://example.com/v1".to_string())
        .build();
    match other_host {
        Err(SwarmError::ValidationError(msg)) => assert!(msg.contains("API URL must start with one of")),
        _ => panic!("Expected ValidationError for a host outside the allowed prefixes"),
    }
}

#[test]
fn api_key_checks() {
    assert!(matches!(Swarm::builder().build(), Err(SwarmError::ValidationError(_))));
    let blank = Swarm::builder().with_api_key("   ".to_string()).build();
    assert!(matches!(blank, Err(SwarmError::ValidationError(_))));
    let wrong = Swarm::builder().with_api_key("pk-123".to_string()).build();
    match wrong {
        Err(SwarmError::ValidationError(msg)) => assert!(msg.contains("Invalid API key format")),
        _ => panic!("Expected ValidationError for a malformed key"),
    }
}
