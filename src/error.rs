use vstd::prelude::*;

verus! {

/// Every failure the engine reports, by kind, each with a description.
#[derive(Debug)]
pub enum SwarmError {
    ApiError(String),
    ConfigError(String),
    AgentError(String),
    ValidationError(String),
    RateLimitError(String),
    NetworkError(String),
    TimeoutError(String),
    AuthError(String),
    EnvVarError(String),
    SerializationError(String),
    DeserializationError(String),
    XmlError(String),
    AgentNotFoundError(String),
    FunctionError(String),
    StreamError(String),
    ContextError(String),
    MaxIterationsError(String),
    JsonError(String),
    Other(String),
    RequestTimeoutError(u64),
    UrlValidationError(String),
}

pub type SwarmResult<T> = Result<T, SwarmError>;

impl SwarmError {
    /// Errors that may succeed when tried again: network, timeout, rate limit.
    pub fn is_retriable(&self) -> (r: bool)
        ensures
            r == (self is NetworkError || self is TimeoutError || self is RateLimitError),
    {
        match self {
            SwarmError::NetworkError(_) | SwarmError::TimeoutError(_)
            | SwarmError::RateLimitError(_) => true,
            _ => false,
        }
    }

    /// Errors that point at the static settings or credentials.
    pub fn is_configuration_error(&self) -> (r: bool)
        ensures
            r == (self is ConfigError || self is AuthError || self is EnvVarError),
    {
        match self {
            SwarmError::ConfigError(_) | SwarmError::AuthError(_) | SwarmError::EnvVarError(_) => {
                true
            },
            _ => false,
        }
    }
}

} // verus!
