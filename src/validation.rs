//! Checks made before any network call: of a run request, of an agent
//! against the settings, of the settings themselves, and of the API address.
use vstd::prelude::*;
use crate::constants::{MAX_REQUEST_TIMEOUT, MIN_REQUEST_TIMEOUT};
use crate::error::{SwarmError, SwarmResult};
use crate::text::{blank, chars_of, has_prefix, is_blank, lemma_prefix_of_itself};
use crate::types::{Agent, Instructions, Message, SwarmConfig};

verus! {

/// A message may stand in a request: a role, and content that is not blank
/// unless the message carries a function call.
pub open spec fn message_ok(m: Message) -> bool {
    &&& !blank(m.role@)
    &&& (m.function_call is None && m.content is Some) ==> !blank(m.content->0@)
}

/// What a run request must satisfy before anything is sent.
pub open spec fn request_ok(
    agent: Agent,
    messages: Seq<Message>,
    model: Option<String>,
    max_turns: int,
) -> bool {
    &&& max_turns > 0
    &&& (model matches Some(m) ==> !blank(m@))
    &&& !blank(agent.name@)
    &&& (agent.instructions matches Instructions::Text(t) ==> !blank(t@))
    &&& forall|i: int| 0 <= i < messages.len() ==> message_ok(#[trigger] messages[i])
}

/// Index of the first message at or after `i` that may not stand in a
/// request, or the length.
pub open spec fn first_bad_message(ms: Seq<Message>, i: int) -> int
    decreases ms.len() - i,
{
    if i < 0 || i >= ms.len() {
        ms.len() as int
    } else if !message_ok(ms[i]) {
        i
    } else {
        first_bad_message(ms, i + 1)
    }
}

/// What a request check reports, for the first check that fails.
pub open spec fn request_error(
    agent: Agent,
    messages: Seq<Message>,
    model: Option<String>,
    max_turns: int,
) -> Seq<char> {
    if max_turns <= 0 {
        "max_turns must be greater than 0"@
    } else if model is Some && blank(model->0@) {
        "Model name cannot be empty"@
    } else if blank(agent.name@) {
        "Agent name cannot be empty"@
    } else if agent.instructions is Text && blank(agent.instructions->Text_0@) {
        "Agent instructions cannot be empty"@
    } else if blank(messages[first_bad_message(messages, 0)].role@) {
        "Message role cannot be empty"@
    } else {
        "Message content cannot be empty"@
    }
}

/// What an agent check reports, for the first check that fails; the prefix
/// message goes on to list the allowed prefixes.
pub open spec fn agent_error_starts(agent: Agent, config: SwarmConfig) -> Seq<char> {
    if blank(agent.name@) {
        "Agent name cannot be empty"@
    } else if blank(agent.model@) {
        "Agent model cannot be empty"@
    } else if !has_any_prefix(agent.model@, config.valid_model_prefixes@) {
        "Invalid model prefix. Model must start with one of: "@
    } else {
        "Agent instructions cannot be empty"@
    }
}

/// What a settings check reports, for the first check that fails.
pub open spec fn config_error(c: SwarmConfig) -> Seq<char> {
    if c.request_timeout == 0 {
        "request_timeout must be greater than 0"@
    } else if c.connect_timeout == 0 {
        "connect_timeout must be greater than 0"@
    } else if c.max_retries == 0 {
        "max_retries must be greater than 0"@
    } else if c.valid_model_prefixes@.len() == 0 {
        "valid_model_prefixes cannot be empty"@
    } else if !(MIN_REQUEST_TIMEOUT <= c.request_timeout <= MAX_REQUEST_TIMEOUT) {
        "request_timeout must be between 5 and 300 seconds"@
    } else {
        "default_max_iterations must be greater than 0"@
    }
}

/// `s` starts with one of `prefixes`.
pub open spec fn has_any_prefix(s: Seq<char>, prefixes: Seq<String>) -> bool {
    exists|i: int| 0 <= i < prefixes.len() && has_prefix(s, (#[trigger] prefixes[i])@)
}

/// An agent fits the settings: a name, a model with an allowed prefix, and
/// instructions that are not blank when they are text.
pub open spec fn agent_ok(agent: Agent, config: SwarmConfig) -> bool {
    &&& !blank(agent.name@)
    &&& !blank(agent.model@)
    &&& has_any_prefix(agent.model@, config.valid_model_prefixes@)
    &&& (agent.instructions matches Instructions::Text(t) ==> !blank(t@))
}

/// The settings are usable.
pub open spec fn config_ok(c: SwarmConfig) -> bool {
    &&& c.request_timeout > 0
    &&& c.connect_timeout > 0
    &&& c.max_retries > 0
    &&& c.valid_model_prefixes@.len() > 0
    &&& MIN_REQUEST_TIMEOUT <= c.request_timeout <= MAX_REQUEST_TIMEOUT
    &&& c.loop_control.default_max_iterations > 0
}

/// The host that the URL parser finds in `s`: `None` when `s` is not a URL,
/// `Some(None)` when it has no host.
pub uninterp spec fn url_host_of(s: Seq<char>) -> Option<Option<Seq<char>>>;

/// Relies on `url::Url::parse` and `Url::host_str`: whether the text parses
/// as a URL, and the host it names.
#[verifier::external_body]
fn parse_url_host(s: &str) -> (r: Option<Option<String>>)
    ensures
        match r {
            None => url_host_of(s@) is None,
            Some(None) => url_host_of(s@) == Some(None::<Seq<char>>),
            Some(Some(h)) => url_host_of(s@) == Some(Some(h@)),
        },
{
    match url::Url::parse(s) {
        Ok(u) => Some(u.host_str().map(|h| h.to_string())),
        Err(_) => None,
    }
}

/// An API address is accepted: it parses, and either names `localhost` or
/// starts with an allowed prefix.
pub open spec fn api_url_ok(url: Seq<char>, prefixes: Seq<String>) -> bool {
    &&& !blank(url)
    &&& url_host_of(url) is Some
    &&& (url_host_of(url) == Some(Some("localhost"@)) || has_any_prefix(url, prefixes))
}

pub fn starts_with(s: &str, p: &str) -> (r: bool)
    ensures
        r == has_prefix(s@, p@),
{
    let a = chars_of(s);
    let b = chars_of(p);
    if b.len() > a.len() {
        return false;
    }
    let mut i: usize = 0;
    while i < b.len()
        invariant
            a@ == s@,
            b@ == p@,
            b@.len() <= a@.len(),
            0 <= i <= b@.len(),
            forall|k: int| 0 <= k < i ==> a@[k] == b@[k],
        decreases b@.len() - i,
    {
        if a[i] != b[i] {
            assert(a@.subrange(0, b@.len() as int)[i as int] != b@[i as int]);
            return false;
        }
        i = i + 1;
    }
    assert(a@.subrange(0, b@.len() as int) =~= b@);
    true
}

pub fn starts_with_any(s: &str, prefixes: &Vec<String>) -> (r: bool)
    ensures
        r == has_any_prefix(s@, prefixes@),
{
    let mut i: usize = 0;
    while i < prefixes.len()
        invariant
            0 <= i <= prefixes@.len(),
            forall|k: int| 0 <= k < i ==> !has_prefix(s@, (#[trigger] prefixes@[k])@),
        decreases prefixes@.len() - i,
    {
        if starts_with(s, prefixes[i].as_str()) {
            return true;
        }
        i = i + 1;
    }
    false
}

/// Checks a run request; every failure is a validation error.
pub fn validate_api_request(
    agent: &Agent,
    messages: &Vec<Message>,
    model: &Option<String>,
    max_turns: usize,
) -> (r: SwarmResult<()>)
    ensures
        r is Ok <==> request_ok(*agent, messages@, *model, max_turns as int),
        r matches Err(e) ==> e is ValidationError,
        r matches Err(SwarmError::ValidationError(m)) ==> m@ == request_error(
            *agent,
            messages@,
            *model,
            max_turns as int,
        ),
{
    if max_turns == 0 {
        return Err(SwarmError::ValidationError("max_turns must be greater than 0".to_string()));
    }
    if let Some(model_name) = model {
        if is_blank(model_name.as_str()) {
            return Err(SwarmError::ValidationError("Model name cannot be empty".to_string()));
        }
    }
    if is_blank(agent.name.as_str()) {
        return Err(SwarmError::ValidationError("Agent name cannot be empty".to_string()));
    }
    if let Instructions::Text(text) = &agent.instructions {
        if is_blank(text.as_str()) {
            return Err(SwarmError::ValidationError("Agent instructions cannot be empty".to_string()));
        }
    }
    let mut i: usize = 0;
    while i < messages.len()
        invariant
            0 <= i <= messages@.len(),
            forall|k: int| 0 <= k < i ==> message_ok(#[trigger] messages@[k]),
            first_bad_message(messages@, 0) == first_bad_message(messages@, i as int),
            max_turns > 0,
            !(model is Some && blank(model->0@)),
            !blank(agent.name@),
            !(agent.instructions is Text && blank(agent.instructions->Text_0@)),
        decreases messages@.len() - i,
    {
        let message = &messages[i];
        if is_blank(message.role.as_str()) {
            assert(first_bad_message(messages@, i as int) == i);
            return Err(SwarmError::ValidationError("Message role cannot be empty".to_string()));
        }
        if message.function_call.is_none() {
            if let Some(content) = &message.content {
                if is_blank(content.as_str()) {
                    assert(first_bad_message(messages@, i as int) == i);
                    return Err(SwarmError::ValidationError("Message content cannot be empty".to_string()));
                }
            }
        }
        i = i + 1;
    }
    Ok(())
}

impl Agent {
    /// Checks this agent against the settings; every failure is a validation error.
    pub fn validate(&self, config: &SwarmConfig) -> (r: SwarmResult<()>)
        ensures
            r is Ok <==> agent_ok(*self, *config),
            r matches Err(e) ==> e is ValidationError,
            r matches Err(SwarmError::ValidationError(m)) ==> has_prefix(
                m@,
                agent_error_starts(*self, *config),
            ),
    {
        if is_blank(self.name.as_str()) {
            let m = "Agent name cannot be empty".to_string();
            proof {
                lemma_prefix_of_itself(m@);
            }
            return Err(SwarmError::ValidationError(m));
        }
        if is_blank(self.model.as_str()) {
            let m = "Agent model cannot be empty".to_string();
            proof {
                lemma_prefix_of_itself(m@);
            }
            return Err(SwarmError::ValidationError(m));
        }
        if !starts_with_any(self.model.as_str(), &config.valid_model_prefixes) {
            let mut msg = "Invalid model prefix. Model must start with one of: ".to_string();
            let ghost head = "Invalid model prefix. Model must start with one of: "@;
            proof {
                lemma_prefix_of_itself(head);
            }
            let mut i: usize = 0;
            while i < config.valid_model_prefixes.len()
                invariant
                    0 <= i <= config.valid_model_prefixes@.len(),
                    has_prefix(msg@, head),
                decreases config.valid_model_prefixes@.len() - i,
            {
                if i > 0 {
                    let ghost before = msg@;
                    msg.append(", ");
                    assert(msg@.subrange(0, head.len() as int) =~= before.subrange(0, head.len() as int));
                }
                let ghost before = msg@;
                msg.append(config.valid_model_prefixes[i].as_str());
                assert(msg@.subrange(0, head.len() as int) =~= before.subrange(0, head.len() as int));
                i = i + 1;
            }
            return Err(SwarmError::ValidationError(msg));
        }
        if let Instructions::Text(text) = &self.instructions {
            if is_blank(text.as_str()) {
                let m = "Agent instructions cannot be empty".to_string();
                proof {
                    lemma_prefix_of_itself(m@);
                }
                return Err(SwarmError::ValidationError(m));
            }
        }
        Ok(())
    }
}

impl SwarmConfig {
    /// Checks the settings; every failure is a validation error.
    pub fn validate(&self) -> (r: SwarmResult<()>)
        ensures
            r is Ok <==> config_ok(*self),
            r matches Err(e) ==> e is ValidationError,
            r matches Err(SwarmError::ValidationError(m)) ==> m@ == config_error(*self),
    {
        if self.request_timeout == 0 {
            return Err(SwarmError::ValidationError("request_timeout must be greater than 0".to_string()));
        }
        if self.connect_timeout == 0 {
            return Err(SwarmError::ValidationError("connect_timeout must be greater than 0".to_string()));
        }
        if self.max_retries == 0 {
            return Err(SwarmError::ValidationError("max_retries must be greater than 0".to_string()));
        }
        if self.valid_model_prefixes.len() == 0 {
            return Err(SwarmError::ValidationError("valid_model_prefixes cannot be empty".to_string()));
        }
        if self.request_timeout < MIN_REQUEST_TIMEOUT || self.request_timeout > MAX_REQUEST_TIMEOUT {
            return Err(SwarmError::ValidationError("request_timeout must be between 5 and 300 seconds".to_string()));
        }
        if self.loop_control.default_max_iterations == 0 {
            return Err(SwarmError::ValidationError("default_max_iterations must be greater than 0".to_string()));
        }
        Ok(())
    }
}

/// Checks an API address against the settings.
pub fn validate_api_url(url: &str, config: &SwarmConfig) -> (r: SwarmResult<()>)
    ensures
        r is Ok <==> api_url_ok(url@, config.valid_api_url_prefixes@),
        r matches Err(e) ==> e is ValidationError,
{
    if is_blank(url) {
        return Err(SwarmError::ValidationError("API URL cannot be empty".to_string()));
    }
    let host = match parse_url_host(url) {
        None => {
            return Err(SwarmError::ValidationError("Invalid API URL format".to_string()));
        },
        Some(h) => h,
    };
    if let Some(h) = &host {
        let localhost = "localhost".to_string();
        if *h == localhost {
            return Ok(());
        }
    }
    if !starts_with_any(url, &config.valid_api_url_prefixes) {
        let mut msg = "API URL must start with one of: ".to_string();
        let mut i: usize = 0;
        while i < config.valid_api_url_prefixes.len()
            invariant
                0 <= i <= config.valid_api_url_prefixes@.len(),
            decreases config.valid_api_url_prefixes@.len() - i,
        {
            if i > 0 {
                msg.append(", ");
            }
            msg.append(config.valid_api_url_prefixes[i].as_str());
            i = i + 1;
        }
        return Err(SwarmError::ValidationError(msg));
    }
    Ok(())
}

/// The checks a key must pass: present, not blank, and of the `sk-` form.
pub open spec fn api_key_ok(key: Option<String>) -> bool {
    key matches Some(k) && !blank(k@) && has_prefix(k@, "sk-"@)
}

/// The scheme an API address must have: `https://`, or plain `http` to the
/// local machine.
pub open spec fn api_scheme_ok(url: Seq<char>) -> bool {
    has_prefix(url, "https://"@) || has_prefix(url, "http://localhost"@) || has_prefix(
        url,
        "http://127.0.0.1"@,
    )
}

/// An engine can be built: usable settings, every agent fits them, a key of
/// the right form, and an acceptable API address.
pub open spec fn build_ok(config: SwarmConfig, agents: Seq<Agent>, api_key: Option<String>) -> bool {
    &&& config_ok(config)
    &&& (forall|i: int| 0 <= i < agents.len() ==> agent_ok(#[trigger] agents[i], config))
    &&& api_key_ok(api_key)
    &&& api_scheme_ok(config.api_url@)
    &&& api_url_ok(config.api_url@, config.valid_api_url_prefixes@)
}

/// Everything that building an engine checks: the settings, every agent,
/// the key and the API address. On success, the key.
pub fn validate_build(config: &SwarmConfig, agents: &Vec<Agent>, api_key: Option<String>) -> (r:
    SwarmResult<String>)
    ensures
        r is Ok <==> build_ok(*config, agents@, api_key),
        r matches Ok(k) ==> Some(k) == api_key,
        r matches Err(e) ==> e is ValidationError,
        ({
            let earlier = config_ok(*config) && (forall|i: int|
                0 <= i < agents@.len() ==> agent_ok(#[trigger] agents@[i], *config));
            &&& (earlier && api_key is None) ==> (r matches Err(SwarmError::ValidationError(m))
                && m@ == "API key must be set either in environment or passed to builder"@)
            &&& (earlier && api_key is Some && blank(api_key->0@)) ==> (r matches Err(
                SwarmError::ValidationError(m),
            ) && m@ == "API key cannot be empty"@)
            &&& (earlier && api_key is Some && !blank(api_key->0@) && !has_prefix(
                api_key->0@,
                "sk-"@,
            )) ==> (r matches Err(SwarmError::ValidationError(m)) && m@ == "Invalid API key format"@)
            &&& (earlier && api_key_ok(api_key) && !api_scheme_ok(config.api_url@)) ==> (r matches Err(
                SwarmError::ValidationError(m),
            ) && m@ == "API URL must start with https:// (except for localhost)"@)
        }),
{
    config.validate()?;
    let mut i: usize = 0;
    while i < agents.len()
        invariant
            0 <= i <= agents@.len(),
            forall|k: int| 0 <= k < i ==> agent_ok(#[trigger] agents@[k], *config),
        decreases agents@.len() - i,
    {
        agents[i].validate(config)?;
        i = i + 1;
    }
    let key = match api_key {
        None => {
            return Err(SwarmError::ValidationError(
                "API key must be set either in environment or passed to builder".to_string(),
            ));
        },
        Some(k) => k,
    };
    if is_blank(key.as_str()) {
        return Err(SwarmError::ValidationError("API key cannot be empty".to_string()));
    }
    if !starts_with(key.as_str(), "sk-") {
        return Err(SwarmError::ValidationError("Invalid API key format".to_string()));
    }
    let url = config.api_url.as_str();
    if !starts_with(url, "https://") && !starts_with(url, "http://localhost") && !starts_with(
        url,
        "http://127.0.0.1",
    ) {
        return Err(SwarmError::ValidationError(
            "API URL must start with https:// (except for localhost)".to_string(),
        ));
    }
    validate_api_url(url, config)?;
    Ok(key)
}

} // verus!
