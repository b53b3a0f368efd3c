//! Errors of the client side.

use vstd::prelude::*;

verus! {

/// An error of the JSON library.
#[verifier::external_type_specification]
#[verifier::external_body]
pub struct ExJsonError(serde_json::Error);

/// What can go wrong while decisions are read from a sandbox.
#[derive(Debug)]
pub enum MicrosandboxError {
    /// The sandbox runtime could not be reached, or answered wrongly.
    Runtime(String),
    /// A message was not the JSON that was expected.
    Json(serde_json::Error),
}

/// An error as mathematical values.
#[verifier::ext_equal]
pub enum ErrorView {
    /// A runtime error, with its message.
    Runtime(Seq<char>),
    /// A JSON error.
    Json(serde_json::Error),
}

impl View for MicrosandboxError {
    type V = ErrorView;

    open spec fn view(&self) -> ErrorView {
        match self {
            MicrosandboxError::Runtime(message) => ErrorView::Runtime(message@),
            MicrosandboxError::Json(error) => ErrorView::Json(*error),
        }
    }
}

/// How a text is shown with quotes and escapes.
pub uninterp spec fn quoted_text(text: Seq<char>) -> Seq<char>;

/// `str`'s `Debug` format: the text in double quotes, with escapes. The result is named
/// [`quoted_text`]; which characters are escaped, and how, is left unsaid.
#[verifier::external_body]
fn quoted(text: &str) -> (shown: String)
    ensures
        shown@ == quoted_text(text@),
{
    format!("{:?}", text)
}

/// The message for a sandbox whose control socket cannot be reached. `sandbox` is its name
/// as it is shown.
pub open spec fn unreachable_message(sandbox: Seq<char>, error: Seq<char>) -> Seq<char> {
    "failed to reach a runtime control socket for sandbox "@ + sandbox + ": "@ + error
}

/// The message for a sandbox whose control socket cannot be reached. `sandbox` is its name
/// as it is shown.
pub fn unreachable_sandbox(sandbox: &str, error: &str) -> (message: String)
    ensures
        message@ == unreachable_message(sandbox@, error@),
{
    let mut message: String = "failed to reach a runtime control socket for sandbox ".to_string();
    message.append(sandbox);
    message.append(": ");
    message.append(error);
    message
}

/// The control socket of the sandbox `name` cannot be reached.
pub fn connect_error(name: &str, error: &str) -> (failure: MicrosandboxError)
    ensures
        failure@ == ErrorView::Runtime(unreachable_message(quoted_text(name@), error@)),
{
    MicrosandboxError::Runtime(unreachable_sandbox(quoted(name).as_str(), error))
}

/// The request cannot be sent.
pub fn send_error(error: &str) -> (failure: MicrosandboxError)
    ensures
        failure@ == ErrorView::Runtime("network decision stream request failed: "@ + error@),
{
    let mut message: String = "network decision stream request failed: ".to_string();
    message.append(error);
    MicrosandboxError::Runtime(message)
}

/// The stream cannot be read.
pub fn read_error(error: &str) -> (failure: MicrosandboxError)
    ensures
        failure@ == ErrorView::Runtime("network decision stream read failed: "@ + error@),
{
    let mut message: String = "network decision stream read failed: ".to_string();
    message.append(error);
    MicrosandboxError::Runtime(message)
}

/// The platform has no control sockets.
pub fn unsupported_error() -> (failure: MicrosandboxError)
    ensures
        failure@ == ErrorView::Runtime(
            "network decision follow requires a unix control socket"@,
        ),
{
    MicrosandboxError::Runtime("network decision follow requires a unix control socket".to_string())
}

/// Each failure is a runtime error whose message says what failed and ends with the cause. That
/// of a socket that cannot be reached names the sandbox before it, in quotes.
pub proof fn law_messages_carry_the_cause(
    name: &str,
    cause: &str,
    unreachable: MicrosandboxError,
    unsent: MicrosandboxError,
    unread: MicrosandboxError,
)
    requires
        call_ensures(connect_error, (name, cause), unreachable),
        call_ensures(send_error, (cause,), unsent),
        call_ensures(read_error, (cause,), unread),
    ensures
        unreachable matches MicrosandboxError::Runtime(message) && message@
            == "failed to reach a runtime control socket for sandbox "@ + quoted_text(name@) + ": "@
            + cause@ && cause@.is_suffix_of(message@),
        unsent matches MicrosandboxError::Runtime(message) && message@
            == "network decision stream request failed: "@ + cause@ && cause@.is_suffix_of(message@),
        unread matches MicrosandboxError::Runtime(message) && message@
            == "network decision stream read failed: "@ + cause@ && cause@.is_suffix_of(message@),
{
}

/// The message for a sandbox that cannot be reached holds its name as it is shown, then the
/// cause.
pub proof fn law_unreachable_sandbox_is_named(sandbox: &str, cause: &str, message: String)
    requires
        call_ensures(unreachable_sandbox, (sandbox, cause), message),
    ensures
        message@ == "failed to reach a runtime control socket for sandbox "@ + sandbox@ + ": "@
            + cause@,
{
}

/// The message for a platform without control sockets says what is missing.
pub proof fn law_missing_control_sockets_are_told(failure: MicrosandboxError)
    requires
        call_ensures(unsupported_error, (), failure),
    ensures
        failure matches MicrosandboxError::Runtime(message) && message@
            == "network decision follow requires a unix control socket"@,
{
}

} // verus!
