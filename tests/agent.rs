use rswarm::types::{AgentFunction, ResultType};
use rswarm::{Agent, ContextVariables, Instructions};

#[test]
fn test_create_basic_agent() {
    let agent = Agent {
        name: "test_agent".to_string(),
        model: "gpt-4".to_string(),
        instructions: Instructions::Text("Basic test instructions".to_string()),
        functions: vec![],
        function_call: None,
        parallel_tool_calls: false,
    };

    assert_eq!(agent.name, "test_agent");
    assert_eq!(agent.model, "gpt-4");
    match agent.instructions {
        Instructions::Text(text) => assert_eq!(text, "Basic test instructions"),
        _ => panic!("Expected Text instructions"),
    }
    assert!(agent.functions.is_empty());
    assert!(agent.function_call.is_none());
    assert!(!agent.parallel_tool_calls);
}

#[test]
fn test_agent_with_function_instructions() {
    let instruction_fn = |_vars: ContextVariables| -> String { "Dynamic instructions".to_string() };

    let agent = Agent {
        name: "function_agent".to_string(),
        model: "gpt-4".to_string(),
        instructions: Instructions::function(instruction_fn),
        functions: vec![],
        function_call: None,
        parallel_tool_calls: false,
    };

    let context = ContextVariables::new();
    match &agent.instructions {
        Instructions::Function(f) => assert_eq!(f.generate(context), "Dynamic instructions"),
        _ => panic!("Expected Function instructions"),
    }
}

#[test]
fn test_agent_with_functions() {
    // The capability behind a function is held by the host; the agent lists it by name.
    let test_function = AgentFunction {
        name: "test_function".to_string(),
        accepts_context_variables: false,
    };
    let result = ResultType::Value("test result".to_string());
    assert_eq!(result.get_value(), "test result");

    let agent = Agent {
        name: "function_enabled_agent".to_string(),
        model: "gpt-4".to_string(),
        instructions: Instructions::Text("Test with functions".to_string()),
        functions: vec![test_function],
        function_call: Some("auto".to_string()),
        parallel_tool_calls: true,
    };

    assert_eq!(agent.functions.len(), 1);
    assert_eq!(agent.functions[0].name, "test_function");
    assert_eq!(agent.functions[0].accepts_context_variables, false);
    assert_eq!(agent.function_call, Some("auto".to_string()));
    assert!(agent.parallel_tool_calls);
}

#[test]
fn test_basic_function_instructions() {
    let instruction_fn = |_: ContextVariables| -> String { "Basic function instructions".to_string() };

    let agent = Agent {
        name: "test_agent".to_string(),
        model: "gpt-4".to_string(),
        instructions: Instructions::function(instruction_fn),
        functions: vec![],
        function_call: None,
        parallel_tool_calls: false,
    };

    let context = ContextVariables::new();
    match &agent.instructions {
        Instructions::Function(f) => assert_eq!(f.generate(context), "Basic function instructions"),
        _ => panic!("Expected Function instructions"),
    }
}

#[test]
fn test_function_instructions_with_context() {
    let instruction_fn = |vars: ContextVariables| -> String {
        match vars.get("test_key") {
            Some(value) => format!("Context value: {}", value),
            None => "No context value found".to_string(),
        }
    };

    let agent = Agent {
        name: "context_agent".to_string(),
        model: "gpt-4".to_string(),
        instructions: Instructions::function(instruction_fn),
        functions: vec![],
        function_call: None,
        parallel_tool_calls: false,
    };

    let mut context = ContextVariables::new();
    context.insert("test_key".to_string(), "test_value".to_string());

    match &agent.instructions {
        Instructions::Function(f) => assert_eq!(f.generate(context), "Context value: test_value"),
        _ => panic!("Expected Function instructions"),
    }
}

#[test]
fn test_complex_function_instructions() {
    let instruction_fn = |vars: ContextVariables| -> String {
        let mut parts = Vec::new();

        if let Some(name) = vars.get("name") {
            parts.push(format!("Name: {}", name));
        }

        if let Some(role) = vars.get("role") {
            parts.push(format!("Role: {}", role));
        }

        if parts.is_empty() {
            "Default instructions".to_string()
        } else {
            parts.join("\n")
        }
    };

    let agent = Agent {
        name: "complex_agent".to_string(),
        model: "gpt-4".to_string(),
        instructions: Instructions::function(instruction_fn),
        functions: vec![],
        function_call: None,
        parallel_tool_calls: false,
    };

    let empty_context = ContextVariables::new();
    match &agent.instructions {
        Instructions::Function(f) => assert_eq!(f.generate(empty_context), "Default instructions"),
        _ => panic!("Expected Function instructions"),
    }

    let mut partial_context = ContextVariables::new();
    partial_context.insert("name".to_string(), "Test Name".to_string());
    match &agent.instructions {
        Instructions::Function(f) => assert_eq!(f.generate(partial_context), "Name: Test Name"),
        _ => panic!("Expected Function instructions"),
    }

    let mut full_context = ContextVariables::new();
    full_context.insert("name".to_string(), "Test Name".to_string());
    full_context.insert("role".to_string(), "Test Role".to_string());
    match &agent.instructions {
        Instructions::Function(f) => {
            assert_eq!(f.generate(full_context), "Name: Test Name\nRole: Test Role")
        }
        _ => panic!("Expected Function instructions"),
    }
}
