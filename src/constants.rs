use vstd::prelude::*;

verus! {

/// The reserved argument under which a function receives the serialized context.
pub const CTX_VARS_NAME: &'static str = "context_variables";

pub const OPENAI_DEFAULT_API_URL: &'static str = "https://api.openai.com/v1/chat/completions";

pub const ROLE_ASSISTANT: &'static str = "assistant";

pub const ROLE_FUNCTION: &'static str = "function";

pub const ROLE_SYSTEM: &'static str = "system";

pub const ROLE_USER: &'static str = "user";

pub const DEFAULT_REQUEST_TIMEOUT: u64 = 30;

pub const DEFAULT_CONNECT_TIMEOUT: u64 = 10;

pub const DEFAULT_API_VERSION: &'static str = "v1";

pub const DEFAULT_MAX_LOOP_ITERATIONS: u32 = 10;

pub const DEFAULT_ITERATION_DELAY_MS: u64 = 100;

/// The context key that ends a `loop` step when it holds [`LOOP_END_VALUE`].
pub const LOOP_END_KEY: &'static str = "end_loop";

pub const LOOP_END_VALUE: &'static str = "true";

pub const MIN_REQUEST_TIMEOUT: u64 = 5;

pub const MAX_REQUEST_TIMEOUT: u64 = 300;

/// The key and the model that a client authenticates with.
#[derive(Clone, Debug)]
pub struct OpenAICredentials {
    pub api_key: String,
    pub model: String,
}

impl OpenAICredentials {
    pub fn new(api_key: String, model: String) -> (r: OpenAICredentials)
        ensures
            r.api_key == api_key,
            r.model == model,
    {
        OpenAICredentials { api_key, model }
    }
}

} // verus!
