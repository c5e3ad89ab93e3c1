use vstd::prelude::*;

verus! {

/// What can go wrong in the bridge. Each variant carries a human-readable
/// detail.
#[derive(Clone, Debug)]
pub enum AgentError {
    AgentNotFound(String),
    ChannelNotFound(String),
    SessionNotFound(String),
    TimeoutError(String),
    ApiError(String),
    HttpError(String),
    ChannelError(String),
    ConfigError(String),
    SerializationError(String),
    IoError(String),
    Unknown(String),
}

/// The HTTP status that a webhook answers for an error of the given kind:
/// 504 for a timeout, 502 for a failure of an agent, of an HTTP call or of a
/// channel, 400 for every other error.
pub open spec fn status_for(e: AgentError) -> u16 {
    match e {
        AgentError::TimeoutError(_) => 504,
        AgentError::ApiError(_) | AgentError::HttpError(_) | AgentError::ChannelError(_) => 502,
        _ => 400,
    }
}

/// The HTTP status code that a failed webhook answers.
pub fn webhook_error_status(err: &AgentError) -> (r: u16)
    ensures
        r == status_for(*err),
{
    match err {
        AgentError::TimeoutError(_) => 504,
        AgentError::ApiError(_) | AgentError::HttpError(_) | AgentError::ChannelError(_) => 502,
        _ => 400,
    }
}

impl AgentError {
    /// The detail that the error carries.
    pub fn detail(&self) -> (r: &String)
        ensures
            *r == detail_of(*self),
    {
        match self {
            AgentError::AgentNotFound(s) => s,
            AgentError::ChannelNotFound(s) => s,
            AgentError::SessionNotFound(s) => s,
            AgentError::TimeoutError(s) => s,
            AgentError::ApiError(s) => s,
            AgentError::HttpError(s) => s,
            AgentError::ChannelError(s) => s,
            AgentError::ConfigError(s) => s,
            AgentError::SerializationError(s) => s,
            AgentError::IoError(s) => s,
            AgentError::Unknown(s) => s,
        }
    }

    /// The text that the error displays: a fixed label for its kind, then
    /// its detail.
    pub fn message(&self) -> (r: String)
        ensures
            r@ == error_label(*self) + detail_of(*self)@,
    {
        let mut r = match self {
            AgentError::AgentNotFound(_) => String::from_str("Agent not found: "),
            AgentError::ChannelNotFound(_) => String::from_str("Channel not found: "),
            AgentError::SessionNotFound(_) => String::from_str("Session not found: "),
            AgentError::TimeoutError(_) => String::from_str("Timeout: "),
            AgentError::ApiError(_) => String::from_str("API error: "),
            AgentError::HttpError(_) => String::from_str("HTTP error: "),
            AgentError::ChannelError(_) => String::from_str("Channel error: "),
            AgentError::ConfigError(_) => String::from_str("Invalid configuration: "),
            AgentError::SerializationError(_) => String::from_str("Serialization error: "),
            AgentError::IoError(_) => String::from_str("IO error: "),
            AgentError::Unknown(_) => String::from_str("Unknown error: "),
        };
        r.append(self.detail().as_str());
        r
    }
}

/// The detail that an error carries.
pub open spec fn detail_of(e: AgentError) -> String {
    match e {
        AgentError::AgentNotFound(s) => s,
        AgentError::ChannelNotFound(s) => s,
        AgentError::SessionNotFound(s) => s,
        AgentError::TimeoutError(s) => s,
        AgentError::ApiError(s) => s,
        AgentError::HttpError(s) => s,
        AgentError::ChannelError(s) => s,
        AgentError::ConfigError(s) => s,
        AgentError::SerializationError(s) => s,
        AgentError::IoError(s) => s,
        AgentError::Unknown(s) => s,
    }
}

/// The label that an error's text starts with.
pub open spec fn error_label(e: AgentError) -> Seq<char> {
    match e {
        AgentError::AgentNotFound(_) => "Agent not found: "@,
        AgentError::ChannelNotFound(_) => "Channel not found: "@,
        AgentError::SessionNotFound(_) => "Session not found: "@,
        AgentError::TimeoutError(_) => "Timeout: "@,
        AgentError::ApiError(_) => "API error: "@,
        AgentError::HttpError(_) => "HTTP error: "@,
        AgentError::ChannelError(_) => "Channel error: "@,
        AgentError::ConfigError(_) => "Invalid configuration: "@,
        AgentError::SerializationError(_) => "Serialization error: "@,
        AgentError::IoError(_) => "IO error: "@,
        AgentError::Unknown(_) => "Unknown error: "@,
    }
}

} // verus!

verus! {

/// `e` reports that no agent is registered under `id`.
pub open spec fn agent_not_found(e: AgentError, id: Seq<char>) -> bool {
    e matches AgentError::AgentNotFound(s) && s@ == id
}

/// `e` reports that no channel is registered under `id`.
pub open spec fn channel_not_found(e: AgentError, id: Seq<char>) -> bool {
    e matches AgentError::ChannelNotFound(s) && s@ == id
}

/// `e` reports that no session is stored under `id`.
pub open spec fn session_not_found(e: AgentError, id: Seq<char>) -> bool {
    e matches AgentError::SessionNotFound(s) && s@ == id
}

/// The error of an agent that did not answer within `timeout_ms`
/// milliseconds: a timeout whose detail is `agent request exceeded {ms}ms`.
pub fn agent_timeout(timeout_ms: u64) -> (r: AgentError)
    ensures
        r matches AgentError::TimeoutError(m) && m@ == "agent request exceeded "@ + crate::number::decimal(timeout_ms as nat) + "ms"@,
{
    let mut v = crate::text::to_chars("agent request exceeded ");
    crate::number::push_decimal(&mut v, timeout_ms);
    crate::text::append_str(&mut v, "ms");
    AgentError::TimeoutError(crate::text::from_chars(v.as_slice()))
}

} // verus!

