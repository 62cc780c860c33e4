//! A ready-made set of agents: a primary agent, a supervising manager, and a
//! documentation browser that holds the `browse_docs` function.
use vstd::prelude::*;
use crate::engine::names_unique;
use crate::types::{Agent, AgentFunction, Instructions};

verus! {

/// The three agents of the documentation workflow, all on `model`; the
/// primary agent follows `prompt`.
pub fn initialize_agents(model: &str, prompt: &str, browse_docs_function: AgentFunction) -> (r:
    Vec<Agent>)
    ensures
        r@.len() == 3,
        names_unique(r@),
        r@[0].name@ == "Agent"@,
        r@[1].name@ == "AgentManager"@,
        r@[2].name@ == "DocBrowserAgent"@,
        forall|i: int| 0 <= i < 3 ==> (#[trigger] r@[i]).model@ == model@ && r@[i].function_call is None
            && r@[i].instructions is Text,
        r@[0].instructions->Text_0@ == prompt@,
        r@[0].functions@.len() == 0 && r@[0].parallel_tool_calls,
        r@[1].functions@.len() == 0 && r@[1].parallel_tool_calls,
        r@[2].functions@ == seq![browse_docs_function] && !r@[2].parallel_tool_calls,
{
    let mut agents: Vec<Agent> = Vec::new();
    agents.push(
        Agent {
            name: "Agent".to_string(),
            model: model.to_string(),
            instructions: Instructions::Text(prompt.to_string()),
            functions: Vec::new(),
            function_call: None,
            parallel_tool_calls: true,
        },
    );
    agents.push(
        Agent {
            name: "AgentManager".to_string(),
            model: model.to_string(),
            instructions: Instructions::Text(
                "You are a CTO with 20 years of experience. Oversee the execution of tasks by other agents, conduct reviews, and provide feedback.".to_string(),
            ),
            functions: Vec::new(),
            function_call: None,
            parallel_tool_calls: true,
        },
    );
    let mut functions: Vec<AgentFunction> = Vec::new();
    functions.push(browse_docs_function);
    agents.push(
        Agent {
            name: "DocBrowserAgent".to_string(),
            model: model.to_string(),
            instructions: Instructions::Text(
                "You can browse Rust documentation using the 'browse_docs' function. The 'browse_docs' function takes a string as an argument (query) and returns a string.".to_string(),
            ),
            functions,
            function_call: None,
            parallel_tool_calls: false,
        },
    );
    proof {
        reveal_strlit("Agent");
        reveal_strlit("AgentManager");
        reveal_strlit("DocBrowserAgent");
        assert(agents@[2].functions@ =~= seq![browse_docs_function]);
        assert("Agent"@.len() != "AgentManager"@.len());
        assert("Agent"@.len() != "DocBrowserAgent"@.len());
        assert("AgentManager"@.len() != "DocBrowserAgent"@.len());
    }
    agents
}

} // verus!
