//! Resolving a model's function call against the active agent's functions,
//! and turning what the function returned into history.
use vstd::prelude::*;
use crate::context::ContextVariables;
use crate::error::{SwarmError, SwarmResult};
use crate::json::{decode_string_object, encode_context, json_string_object, json_text_of_map};
use crate::text::{blank, is_blank};
use crate::types::{AgentFunction, FunctionCall, Message, ResultType};

verus! {

/// A message as plain values: role, content, name, and the requested call.
pub type MessageView = (Seq<char>, Option<Seq<char>>, Option<Seq<char>>, Option<(Seq<char>, Seq<char>)>);

pub open spec fn opt_view(o: Option<String>) -> Option<Seq<char>> {
    match o {
        Some(s) => Some(s@),
        None => None,
    }
}

pub open spec fn message_view(m: Message) -> MessageView {
    (m.role@, opt_view(m.content), opt_view(m.name), match m.function_call {
        Some(fc) => Some((fc.name@, fc.arguments@)),
        None => None,
    })
}

pub open spec fn messages_view(ms: Seq<Message>) -> Seq<MessageView> {
    ms.map_values(|m: Message| message_view(m))
}

/// The assistant's note that the model asked for a function the agent lacks.
pub open spec fn not_found_view(name: Seq<char>) -> MessageView {
    (
        "assistant"@,
        Some("Error: Function "@ + name + " not found."@),
        Some(name),
        None,
    )
}

/// The function-role message that records what a function returned.
pub open spec fn function_message_view(name: Seq<char>, value: Seq<char>) -> MessageView {
    ("function"@, Some(value), Some(name), None)
}

/// Index of the last function named `name`: a later registration wins.
pub open spec fn last_function_index(fns: Seq<AgentFunction>, name: Seq<char>) -> Option<int>
    decreases fns.len(),
{
    if fns.len() == 0 {
        None
    } else if fns.last().name@ == name {
        Some(fns.len() - 1)
    } else {
        last_function_index(fns.drop_last(), name)
    }
}

/// The arguments a function receives: the decoded object, plus the running
/// context as JSON under the reserved key when the function asks for it.
pub open spec fn call_arguments(
    decoded: Map<Seq<char>, Seq<char>>,
    accepts_context: bool,
    ctx: Map<Seq<char>, Seq<char>>,
) -> Map<Seq<char>, Seq<char>> {
    if accepts_context {
        decoded.insert("context_variables"@, json_text_of_map(ctx))
    } else {
        decoded
    }
}

/// What to do about a function call.
pub enum FunctionDispatch {
    /// The agent has no such function: record this message and go on.
    NotFound(Message),
    /// Run the agent's function at `index` with `args`.
    Invoke { index: usize, args: ContextVariables },
}

pub proof fn lemma_last_function_index_bound(fns: Seq<AgentFunction>, name: Seq<char>)
    ensures
        last_function_index(fns, name) matches Some(i) ==> 0 <= i < fns.len() && fns[i].name@
            == name,
    decreases fns.len(),
{
    if fns.len() > 0 && fns.last().name@ != name {
        lemma_last_function_index_bound(fns.drop_last(), name);
    }
}

/// Finds the function the call names; the last one registered under that name wins.
pub fn find_function(functions: &Vec<AgentFunction>, name: &String) -> (r: Option<usize>)
    ensures
        match r {
            Some(i) => last_function_index(functions@, name@) == Some(i as int),
            None => last_function_index(functions@, name@) is None,
        },
{
    let mut i: usize = functions.len();
    assert(functions@.subrange(0, i as int) =~= functions@);
    while i > 0
        invariant
            0 <= i <= functions@.len(),
            last_function_index(functions@, name@) == last_function_index(
                functions@.subrange(0, i as int),
                name@,
            ),
        decreases i,
    {
        let ghost pre = functions@.subrange(0, i as int);
        assert(pre.drop_last() =~= functions@.subrange(0, i - 1));
        if functions[i - 1].name == *name {
            return Some(i - 1);
        }
        i = i - 1;
    }
    None
}

/// The message that reports a call to an unknown function.
pub fn not_found_message(name: &String) -> (r: Message)
    ensures
        message_view(r) == not_found_view(name@),
{
    let mut content = "Error: Function ".to_string();
    content.append(name.as_str());
    content.append(" not found.");
    Message {
        role: "assistant".to_string(),
        content: Some(content),
        name: Some(name.clone()),
        function_call: None,
    }
}

/// What dispatching `call` against `functions` with context `ctx` gives:
/// a validation error for a blank name; a note for an unknown function; a
/// JSON error for arguments that are not a string object; else the index of
/// the last function of that name and its arguments.
pub open spec fn dispatch_outcome(
    call: FunctionCall,
    functions: Seq<AgentFunction>,
    ctx: Map<Seq<char>, Seq<char>>,
    r: SwarmResult<FunctionDispatch>,
) -> bool {
    if blank(call.name@) {
        r matches Err(SwarmError::ValidationError(_))
    } else {
        match last_function_index(functions, call.name@) {
            None => (r matches Ok(FunctionDispatch::NotFound(m)) && message_view(m)
                == not_found_view(call.name@)),
            Some(i) => match json_string_object(call.arguments@) {
                None => r matches Err(SwarmError::JsonError(_)),
                Some(obj) => match r {
                    Ok(FunctionDispatch::Invoke { index, args }) => index == i && args.wf()
                        && args.view() == call_arguments(
                        obj,
                        functions[i].accepts_context_variables,
                        ctx,
                    ),
                    _ => false,
                },
            },
        }
    }
}

/// Dispatching is repeatable: two dispatches of the same call against the
/// same functions and context give the same outcome (the same error kind,
/// note or function, and arguments with the same entries).
pub proof fn lemma_dispatch_repeatable(
    call: FunctionCall,
    functions: Seq<AgentFunction>,
    ctx: Map<Seq<char>, Seq<char>>,
    first: SwarmResult<FunctionDispatch>,
    second: SwarmResult<FunctionDispatch>,
)
    requires
        dispatch_outcome(call, functions, ctx, first),
        dispatch_outcome(call, functions, ctx, second),
    ensures
        first is Ok <==> second is Ok,
        first matches Err(SwarmError::ValidationError(_)) <==> second matches Err(
            SwarmError::ValidationError(_),
        ),
        first matches Err(SwarmError::JsonError(_)) <==> second matches Err(SwarmError::JsonError(_)),
        first matches Ok(FunctionDispatch::NotFound(m1)) ==> (second matches Ok(
            FunctionDispatch::NotFound(m2),
        ) && message_view(m1) == message_view(m2)),
        first matches Ok(FunctionDispatch::Invoke { index: i1, args: a1 }) ==> (second matches Ok(
            FunctionDispatch::Invoke { index: i2, args: a2 },
        ) && i1 == i2 && a1.view() == a2.view()),
{
}

/// Resolves `call` against `functions` and prepares the arguments.
pub fn dispatch_function_call(
    call: &FunctionCall,
    functions: &Vec<AgentFunction>,
    context: &ContextVariables,
) -> (r: SwarmResult<FunctionDispatch>)
    requires
        context.wf(),
    ensures
        dispatch_outcome(*call, functions@, context.view(), r),
{
    if is_blank(call.name.as_str()) {
        return Err(SwarmError::ValidationError("Function call name cannot be empty.".to_string()));
    }
    match find_function(functions, &call.name) {
        None => Ok(FunctionDispatch::NotFound(not_found_message(&call.name))),
        Some(i) => {
            proof {
                lemma_last_function_index_bound(functions@, call.name@);
            }
            let pairs = match decode_string_object(call.arguments.as_str()) {
                Ok(p) => p,
                Err(msg) => {
                    return Err(SwarmError::JsonError(msg));
                },
            };
            let mut args = ContextVariables::from_pairs(pairs);
            if functions[i].accepts_context_variables {
                let text = match encode_context(context) {
                    Ok(t) => t,
                    Err(msg) => {
                        return Err(SwarmError::JsonError(msg));
                    },
                };
                proof {
                    reveal_strlit("context_variables");
                }
                args.insert(crate::constants::CTX_VARS_NAME.to_string(), text);
            }
            Ok(FunctionDispatch::Invoke { index: i, args })
        },
    }
}

/// The entries of a context as `key: value` items joined by `, `.
pub open spec fn pairs_text(e: Seq<(String, String)>) -> Seq<char>
    decreases e.len(),
{
    if e.len() == 0 {
        Seq::empty()
    } else {
        let item = e.last().0@ + ": "@ + e.last().1@;
        if e.len() == 1 {
            item
        } else {
            pairs_text(e.drop_last()) + ", "@ + item
        }
    }
}

/// The report of a function result that is a context delta, showing its entries.
pub open spec fn bad_result_text(e: Seq<(String, String)>) -> Seq<char> {
    "Failed to cast response to string: ContextVariables("@ + pairs_text(e)
        + "). Ensure agent functions return a string or ResultType."@
}

/// Accepts a function's result when it is a value or an agent; any other
/// shape is a host-code error that shows the offending value.
pub fn check_function_result(result: ResultType) -> (r: SwarmResult<ResultType>)
    ensures
        (result is Value || result is Agent) ==> (r matches Ok(x) && x == result),
        (result is ContextVariables) ==> (r matches Err(SwarmError::FunctionError(m)) && m@
            == bad_result_text(result->ContextVariables_0.entries())),
{
    match result {
        ResultType::Value(_) | ResultType::Agent(_) => Ok(result),
        ResultType::ContextVariables(c) => {
            let mut msg = "Failed to cast response to string: ContextVariables(".to_string();
            let ghost head = "Failed to cast response to string: ContextVariables("@;
            let pairs = c.pairs();
            let mut i: usize = 0;
            assert(pairs@.subrange(0, 0) =~= Seq::<(String, String)>::empty());
            assert(msg@ =~= head + pairs_text(pairs@.subrange(0, 0)));
            while i < pairs.len()
                invariant
                    0 <= i <= pairs@.len(),
                    msg@ == head + pairs_text(pairs@.subrange(0, i as int)),
                decreases pairs@.len() - i,
            {
                let ghost before = msg@;
                let ghost t = pairs@.subrange(0, i as int + 1);
                assert(t.drop_last() =~= pairs@.subrange(0, i as int));
                assert(t.last() == pairs@[i as int]);
                if i > 0 {
                    msg.append(", ");
                }
                msg.append(pairs[i].0.as_str());
                msg.append(": ");
                msg.append(pairs[i].1.as_str());
                proof {
                    let item = pairs@[i as int].0@ + ": "@ + pairs@[i as int].1@;
                    if i > 0 {
                        assert(msg@ =~= before + ", "@ + item);
                        assert(pairs_text(t) == pairs_text(t.drop_last()) + ", "@ + item);
                        assert(msg@ =~= head + pairs_text(t));
                    } else {
                        assert(pairs@.subrange(0, 0) =~= Seq::<(String, String)>::empty());
                        assert(before =~= head);
                        assert(msg@ =~= head + pairs_text(t));
                    }
                }
                i = i + 1;
            }
            assert(pairs@.subrange(0, pairs@.len() as int) =~= pairs@);
            msg.append("). Ensure agent functions return a string or ResultType.");
            Err(SwarmError::FunctionError(msg))
        },
    }
}

/// The function-role message recording `result` of the function `name`.
pub fn function_result_message(name: &String, result: &ResultType) -> (r: Message)
    ensures
        message_view(r) == function_message_view(
            name@,
            match result {
                ResultType::Value(v) => v@,
                _ => Seq::empty(),
            },
        ),
{
    Message {
        role: "function".to_string(),
        content: Some(result.get_value()),
        name: Some(name.clone()),
        function_call: None,
    }
}

} // verus!
