//! The frames of the agent server: JSON-RPC 2.0, one request per line.

use vstd::prelude::*;

use crate::text::same;

verus! {

/// The protocol that the server speaks.
pub const PROTOCOL_VERSION: &'static str = "2025-03-26";

/// What the server calls itself.
pub const SERVER_NAME: &'static str = "options-scanner";

/// A line that is no JSON.
pub const PARSE_ERROR: i32 = -32700;

/// A request of another version of the protocol.
pub const INVALID_REQUEST: i32 = -32600;

/// A method that there is not.
pub const METHOD_NOT_FOUND: i32 = -32601;

/// Parameters that a method cannot take.
pub const INVALID_PARAMS: i32 = -32602;

/// An error reply.
#[derive(Debug)]
pub struct RpcError {
    pub code: i32,
    pub message: String,
}

impl RpcError {
    /// Whether the error has this code and message.
    pub open spec fn says(&self, code: i32, message: Seq<char>) -> bool {
        self.code == code && self.message@ == message
    }
}

/// The reply to a line that is no JSON.
pub fn parse_error(error: &str) -> (r: RpcError)
    ensures
        r.says(PARSE_ERROR, "parse error: "@ + error@),
{
    RpcError { code: PARSE_ERROR, message: "parse error: ".to_owned().concat(error) }
}

/// What a request asks for.
#[derive(Debug, Clone, Copy, PartialEq, Eq, Structural)]
pub enum Method {
    Initialize,
    /// The client says that it is ready.
    Initialized,
    Ping,
    ListTools,
    CallTool,
    ListPrompts,
    GetPrompt,
}

/// The method with a name.
pub open spec fn method_named(name: Seq<char>) -> Option<Method> {
    if name == "initialize"@ {
        Some(Method::Initialize)
    } else if name == "initialized"@ || name == "notifications/initialized"@ {
        Some(Method::Initialized)
    } else if name == "ping"@ {
        Some(Method::Ping)
    } else if name == "tools/list"@ {
        Some(Method::ListTools)
    } else if name == "tools/call"@ {
        Some(Method::CallTool)
    } else if name == "prompts/list"@ {
        Some(Method::ListPrompts)
    } else if name == "prompts/get"@ {
        Some(Method::GetPrompt)
    } else {
        None
    }
}

/// Looks a method up.
pub fn dispatch(name: &str) -> (r: Result<Method, RpcError>)
    ensures
        match method_named(name@) {
            Some(m) => r == Ok::<Method, RpcError>(m),
            None => r matches Err(e) && e.says(
                METHOD_NOT_FOUND,
                "method not found: "@ + name@,
            ),
        },
{
    if same(name, "initialize") {
        Ok(Method::Initialize)
    } else if same(name, "initialized") || same(name, "notifications/initialized") {
        Ok(Method::Initialized)
    } else if same(name, "ping") {
        Ok(Method::Ping)
    } else if same(name, "tools/list") {
        Ok(Method::ListTools)
    } else if same(name, "tools/call") {
        Ok(Method::CallTool)
    } else if same(name, "prompts/list") {
        Ok(Method::ListPrompts)
    } else if same(name, "prompts/get") {
        Ok(Method::GetPrompt)
    } else {
        Err(
            RpcError {
                code: METHOD_NOT_FOUND,
                message: "method not found: ".to_owned().concat(name),
            },
        )
    }
}

/// What is done with a request.
#[derive(Debug)]
pub enum Triage {
    /// The error is sent; nothing is done.
    Refuse { error: RpcError },
    /// The method is carried out. A notification gets no reply.
    Run { method: Method, reply: bool },
    /// There is no such method: the error is sent, or nothing for a notification.
    NoMethod { error: RpcError, reply: bool },
}

/// What is sent to a request of another version.
pub const NOT_VERSION_2: &'static str = "invalid Request — jsonrpc must be \"2.0\"";

/// Decides what is done with a request, from its version, whether it has an identifier, and
/// its method.
pub fn triage(jsonrpc: &str, has_id: bool, method: &str) -> (r: Triage)
    ensures
        r is Refuse <==> jsonrpc@ != "2.0"@,
        r matches Triage::Refuse { error } ==> error.says(INVALID_REQUEST, NOT_VERSION_2@),
        r is Run <==> jsonrpc@ == "2.0"@ && method_named(method@) is Some,
        r matches Triage::Run { method: m, reply } ==> method_named(method@) == Some(m) && reply
            == has_id,
        r matches Triage::NoMethod { error, reply } ==> reply == has_id && error.says(
            METHOD_NOT_FOUND,
            "method not found: "@ + method@,
        ),
{
    if !same(jsonrpc, "2.0") {
        return Triage::Refuse {
            error: RpcError { code: INVALID_REQUEST, message: NOT_VERSION_2.to_owned() },
        };
    }
    match dispatch(method) {
        Ok(method) => Triage::Run { method, reply: has_id },
        Err(error) => Triage::NoMethod { error, reply: has_id },
    }
}

/// Each method is found by its own name, and a name that is none of theirs finds nothing. Only
/// the note that a client is ready has two names.
pub proof fn law_methods_have_their_names(name: Seq<char>)
    ensures
        method_named("initialize"@) == Some(Method::Initialize),
        method_named("initialized"@) == Some(Method::Initialized),
        method_named("notifications/initialized"@) == Some(Method::Initialized),
        method_named("ping"@) == Some(Method::Ping),
        method_named("tools/list"@) == Some(Method::ListTools),
        method_named("tools/call"@) == Some(Method::CallTool),
        method_named("prompts/list"@) == Some(Method::ListPrompts),
        method_named("prompts/get"@) == Some(Method::GetPrompt),
        method_named(name) is Some <==> {
            ||| name == "initialize"@
            ||| name == "initialized"@
            ||| name == "notifications/initialized"@
            ||| name == "ping"@
            ||| name == "tools/list"@
            ||| name == "tools/call"@
            ||| name == "prompts/list"@
            ||| name == "prompts/get"@
        },
{
    reveal_strlit("initialize");
    reveal_strlit("initialized");
    reveal_strlit("notifications/initialized");
    reveal_strlit("ping");
    reveal_strlit("tools/list");
    reveal_strlit("tools/call");
    reveal_strlit("prompts/list");
    reveal_strlit("prompts/get");
    assert("initialize"@.len() == 10);
    assert("initialized"@.len() == 11);
    assert("notifications/initialized"@.len() == 25);
    assert("ping"@.len() == 4);
    assert("tools/list"@.len() == 10);
    assert("tools/call"@.len() == 10);
    assert("prompts/list"@.len() == 12);
    assert("prompts/get"@.len() == 11);
    assert("initialize"@[0] == 'i');
    assert("initialized"@[0] == 'i');
    assert("tools/list"@[6] == 'l');
    assert("tools/call"@[6] == 'c');
    assert("tools/list"@[0] == 't');
    assert("tools/call"@[0] == 't');
    assert("prompts/get"@[0] == 'p');
}

/// The error codes are those of JSON-RPC.
pub proof fn law_error_codes_are_those_of_the_protocol(e: RpcError, message: Seq<char>)
    ensures
        e.says(PARSE_ERROR, message) <==> e.code == -32700 && e.message@ == message,
        e.says(INVALID_REQUEST, message) <==> e.code == -32600 && e.message@ == message,
        e.says(METHOD_NOT_FOUND, message) <==> e.code == -32601 && e.message@ == message,
        e.says(INVALID_PARAMS, message) <==> e.code == -32602 && e.message@ == message,
{
}

/// A request of another version is refused, whatever it asks for. Any other is carried out where
/// its method is known, and answered with an error where it is not; it is replied to exactly
/// where it has an identifier.
pub proof fn law_requests_are_answered_by_the_protocol(
    jsonrpc: &str,
    has_id: bool,
    method: &str,
    r: Triage,
)
    requires
        call_ensures(triage, (jsonrpc, has_id, method), r),
    ensures
        match r {
            Triage::Refuse { error } => jsonrpc@ != "2.0"@ && error.code == -32600,
            Triage::Run { method: m, reply } => {
                &&& jsonrpc@ == "2.0"@
                &&& method_named(method@) == Some(m)
                &&& reply == has_id
            },
            Triage::NoMethod { error, reply } => {
                &&& jsonrpc@ == "2.0"@
                &&& method_named(method@) is None
                &&& reply == has_id
                &&& error.code == -32601
                &&& error.message@ == "method not found: "@ + method@
            },
        },
{
}

/// A line that is no JSON is answered with what was wrong with it, and an unknown method with
/// its name.
pub proof fn law_errors_say_what_was_wrong(
    error: &str,
    e: RpcError,
    name: &str,
    r: Result<Method, RpcError>,
)
    requires
        call_ensures(parse_error, (error,), e),
        call_ensures(dispatch, (name,), r),
    ensures
        e.code == -32700,
        e.message@ == "parse error: "@ + error@,
        r matches Ok(m) ==> method_named(name@) == Some(m),
        r matches Err(f) ==> {
            &&& method_named(name@) is None
            &&& f.code == -32601
            &&& f.message@ == "method not found: "@ + name@
        },
{
}

} // verus!
