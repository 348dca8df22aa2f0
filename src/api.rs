//! The control protocol's requests, responses and error kinds, and how a response is
//! written as one JSON line.

use vstd::prelude::*;
use crate::error::{msg, WgAgentError};
use crate::json::{json_string, push_json_string};

verus! {

/// What a control request asks for.
#[derive(Debug, Clone, Copy, PartialEq, Eq, Structural)]
pub enum ControlAction {
    Connect,
    Disconnect,
    Status,
    Reload,
    RotateKeys,
}

pub open spec fn action_name(a: ControlAction) -> Seq<char> {
    match a {
        ControlAction::Connect => "connect"@,
        ControlAction::Disconnect => "disconnect"@,
        ControlAction::Status => "status"@,
        ControlAction::Reload => "reload"@,
        ControlAction::RotateKeys => "rotate_keys"@,
    }
}

impl ControlAction {
    /// The action's name on the wire.
    pub fn as_str(&self) -> (r: &'static str)
        ensures
            r@ == action_name(*self),
    {
        match self {
            ControlAction::Connect => "connect",
            ControlAction::Disconnect => "disconnect",
            ControlAction::Status => "status",
            ControlAction::Reload => "reload",
            ControlAction::RotateKeys => "rotate_keys",
        }
    }
}

/// The error kinds of the control protocol.
#[derive(Debug, Clone, PartialEq, Eq)]
pub enum ApiError {
    ParseError(String),
    SerializationError(String),
    InvalidState(String),
    NetworkNotFound(String),
    ConfigError(String),
    PlatformError(String),
    InternalError(String),
    AuthenticationFailed,
    PermissionDenied(String),
}

/// The kind's name on the wire.
pub open spec fn error_kind(e: ApiError) -> Seq<char> {
    match e {
        ApiError::ParseError(_) => "parse_error"@,
        ApiError::SerializationError(_) => "serialization_error"@,
        ApiError::InvalidState(_) => "invalid_state"@,
        ApiError::NetworkNotFound(_) => "network_not_found"@,
        ApiError::ConfigError(_) => "config_error"@,
        ApiError::PlatformError(_) => "platform_error"@,
        ApiError::InternalError(_) => "internal_error"@,
        ApiError::AuthenticationFailed => "authentication_failed"@,
        ApiError::PermissionDenied(_) => "permission_denied"@,
    }
}

/// The error's message; `AuthenticationFailed` has none.
pub open spec fn error_message(e: ApiError) -> Option<Seq<char>> {
    match e {
        ApiError::ParseError(m) => Some(m@),
        ApiError::SerializationError(m) => Some(m@),
        ApiError::InvalidState(m) => Some(m@),
        ApiError::NetworkNotFound(m) => Some(m@),
        ApiError::ConfigError(m) => Some(m@),
        ApiError::PlatformError(m) => Some(m@),
        ApiError::InternalError(m) => Some(m@),
        ApiError::AuthenticationFailed => None,
        ApiError::PermissionDenied(m) => Some(m@),
    }
}

/// How an internal error is reported: configuration, platform, state, lookup,
/// permission and serialization errors keep their kind and message; the rest are
/// internal errors.
pub open spec fn api_error_of(e: WgAgentError) -> ApiError {
    match e {
        WgAgentError::Config(m) => ApiError::ConfigError(m),
        WgAgentError::Platform(m) => ApiError::PlatformError(m),
        WgAgentError::InvalidState(m) => ApiError::InvalidState(m),
        WgAgentError::NotFound(m) => ApiError::NetworkNotFound(m),
        WgAgentError::Permission(m) => ApiError::PermissionDenied(m),
        WgAgentError::Serialization(m) => ApiError::SerializationError(m),
        WgAgentError::WireGuard(m) => ApiError::InternalError(m),
        WgAgentError::TunDevice(m) => ApiError::InternalError(m),
        WgAgentError::PacketProcessing(m) => ApiError::InternalError(m),
        WgAgentError::Handshake(m) => ApiError::InternalError(m),
        WgAgentError::ControlApi(m) => ApiError::InternalError(m),
        WgAgentError::Service(m) => ApiError::InternalError(m),
        WgAgentError::Io(m) => ApiError::InternalError(m),
        WgAgentError::Timeout(m) => ApiError::InternalError(m),
        WgAgentError::Security(m) => ApiError::InternalError(m),
        WgAgentError::Validation(m) => ApiError::InternalError(m),
    }
}

impl From<WgAgentError> for ApiError {
    fn from(e: WgAgentError) -> (r: ApiError) {
        match e {
            WgAgentError::Config(m) => ApiError::ConfigError(m),
            WgAgentError::Platform(m) => ApiError::PlatformError(m),
            WgAgentError::InvalidState(m) => ApiError::InvalidState(m),
            WgAgentError::NotFound(m) => ApiError::NetworkNotFound(m),
            WgAgentError::Permission(m) => ApiError::PermissionDenied(m),
            WgAgentError::Serialization(m) => ApiError::SerializationError(m),
            WgAgentError::WireGuard(m) => ApiError::InternalError(m),
            WgAgentError::TunDevice(m) => ApiError::InternalError(m),
            WgAgentError::PacketProcessing(m) => ApiError::InternalError(m),
            WgAgentError::Handshake(m) => ApiError::InternalError(m),
            WgAgentError::ControlApi(m) => ApiError::InternalError(m),
            WgAgentError::Service(m) => ApiError::InternalError(m),
            WgAgentError::Io(m) => ApiError::InternalError(m),
            WgAgentError::Timeout(m) => ApiError::InternalError(m),
            WgAgentError::Security(m) => ApiError::InternalError(m),
            WgAgentError::Validation(m) => ApiError::InternalError(m),
        }
    }
}

impl vstd::std_specs::convert::FromSpecImpl<WgAgentError> for ApiError {
    open spec fn obeys_from_spec() -> bool {
        true
    }

    open spec fn from_spec(e: WgAgentError) -> ApiError {
        api_error_of(e)
    }
}

impl ApiError {
    /// The kind's name on the wire.
    pub fn kind(&self) -> (r: &'static str)
        ensures
            r@ == error_kind(*self),
    {
        match self {
            ApiError::ParseError(_) => "parse_error",
            ApiError::SerializationError(_) => "serialization_error",
            ApiError::InvalidState(_) => "invalid_state",
            ApiError::NetworkNotFound(_) => "network_not_found",
            ApiError::ConfigError(_) => "config_error",
            ApiError::PlatformError(_) => "platform_error",
            ApiError::InternalError(_) => "internal_error",
            ApiError::AuthenticationFailed => "authentication_failed",
            ApiError::PermissionDenied(_) => "permission_denied",
        }
    }

    /// The error's message, if it has one.
    pub fn message(&self) -> (r: Option<&String>)
        ensures
            match error_message(*self) {
                Some(m) => r is Some && r->0@ == m,
                None => r is None,
            },
    {
        match self {
            ApiError::ParseError(m) => Some(m),
            ApiError::SerializationError(m) => Some(m),
            ApiError::InvalidState(m) => Some(m),
            ApiError::NetworkNotFound(m) => Some(m),
            ApiError::ConfigError(m) => Some(m),
            ApiError::PlatformError(m) => Some(m),
            ApiError::InternalError(m) => Some(m),
            ApiError::AuthenticationFailed => None,
            ApiError::PermissionDenied(m) => Some(m),
        }
    }
}

/// A control request. `config` holds the JSON text of an optional configuration object.
#[derive(Debug, Clone)]
pub struct ApiRequest {
    pub id: String,
    pub action: ControlAction,
    pub network: String,
    pub config: Option<String>,
}

impl ApiRequest {
    pub fn new(id: String, action: ControlAction, network: String) -> (r: ApiRequest)
        ensures
            r.id == id,
            r.action == action,
            r.network == network,
            r.config is None,
    {
        ApiRequest { id, action, network, config: None }
    }
}

/// A control response. `data` holds the JSON text of an optional result object.
#[derive(Debug, Clone)]
pub struct ApiResponse {
    pub id: String,
    pub success: bool,
    pub data: Option<String>,
    pub error: Option<ApiError>,
}

/// The JSON line (without its newline) that a response is written as.
pub open spec fn response_json(r: ApiResponse) -> Seq<char> {
    "{\"id\":"@ + json_string(r.id@) + (if r.success {
        ",\"success\":true"@
    } else {
        ",\"success\":false"@
    }) + match r.data {
        Some(d) => ",\"data\":"@ + d@,
        None => Seq::empty(),
    } + match r.error {
        Some(e) => ",\"error\":{\"type\":\""@ + error_kind(e) + "\""@ + match error_message(e) {
            Some(m) => ",\"message\":"@ + json_string(m),
            None => Seq::empty(),
        } + "}"@,
        None => Seq::empty(),
    } + "}"@
}

/// The id answered when a request line cannot be parsed.
pub open spec fn unknown_id() -> Seq<char> {
    "unknown"@
}

impl ApiResponse {
    pub fn success(id: String, data: Option<String>) -> (r: ApiResponse)
        ensures
            r.id == id,
            r.success,
            r.data == data,
            r.error is None,
    {
        ApiResponse { id, success: true, data, error: None }
    }

    pub fn error(id: String, error: ApiError) -> (r: ApiResponse)
        ensures
            r.id == id,
            !r.success,
            r.data is None,
            r.error == Some(error),
    {
        ApiResponse { id, success: false, data: None, error: Some(error) }
    }

    /// The answer to a request line that is not valid JSON: a parse error under the id
    /// `unknown`.
    pub fn parse_failure(message: String) -> (r: ApiResponse)
        ensures
            r.id@ == unknown_id(),
            !r.success,
            r.data is None,
            r.error == Some(ApiError::ParseError(message)),
    {
        ApiResponse::error(msg("unknown"), ApiError::ParseError(message))
    }

    /// Writes the response as one JSON line, without the newline.
    pub fn to_json(&self) -> (r: String)
        ensures
            r@ == response_json(*self),
    {
        let mut out = msg("{\"id\":");
        push_json_string(&mut out, self.id.as_str());
        if self.success {
            out.append(",\"success\":true");
        } else {
            out.append(",\"success\":false");
        }
        match &self.data {
            Some(d) => {
                out.append(",\"data\":");
                out.append(d.as_str());
            },
            None => {},
        }
        match &self.error {
            Some(e) => {
                out.append(",\"error\":{\"type\":\"");
                out.append(e.kind());
                out.append("\"");
                match e.message() {
                    Some(m) => {
                        out.append(",\"message\":");
                        push_json_string(&mut out, m.as_str());
                    },
                    None => {},
                }
                out.append("}");
            },
            None => {},
        }
        out.append("}");
        assert(out@ =~= response_json(*self));
        out
    }
}

} // verus!
