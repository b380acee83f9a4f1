//! Retries: what is done about a request that has failed.

use vstd::prelude::*;

verus! {

/// Why a request has failed, as far as a retry depends on it.
#[derive(Clone, Copy, Debug, PartialEq, Eq, Structural)]
pub enum RequestError {
    /// The connection broke before the response came.
    ConnectionBroken,
    /// Not enough replicas were alive: `alive` of the `required`.
    Unavailable { required: i32, alive: i32 },
    /// The coordinator is overloaded.
    Overloaded,
    /// The coordinator is bootstrapping.
    IsBootstrapping,
    /// A read timed out with `received` of the `required` responses.
    ReadTimeout { received: i32, required: i32 },
    /// A write timed out with `received` of the `required` acknowledgements.
    WriteTimeout { received: i32, required: i32 },
    /// A replica failed to read.
    ReadFailure,
    /// A replica failed to write.
    WriteFailure,
    /// A user-defined function failed.
    FunctionFailure,
    /// The user may not do this.
    Unauthorized,
    /// The request is invalid.
    Invalid,
    /// The configuration of the server forbids the request.
    ConfigError,
    /// What was to be created exists.
    AlreadyExists,
    /// The statement is not prepared on the node.
    Unprepared,
    /// The statement does not parse.
    SyntaxError,
    /// The server failed.
    ServerError,
    /// A truncation failed.
    TruncateError,
    /// The frame of the response was malformed.
    Protocol,
    /// A value could not be serialized.
    Serialization,
    /// The deadline of the request has passed.
    RequestTimeout,
}

/// What is done about a request that has failed.
#[derive(Clone, Copy, Debug, PartialEq, Eq, Structural)]
pub enum RetryDecision {
    /// The request is sent to the same host again.
    RetrySameHost,
    /// The request is sent to the next host of its plan.
    RetryNextHost,
    /// The error is ignored and the request counts as done.
    Ignore,
    /// The error is handed to the caller.
    Fatal,
}

/// The decision of the default policy on a request that has failed with
/// `error` after `attempt_count` retries:
/// - a read that timed out is sent to the same host again, once, if as many
///   replicas had responded as were required;
/// - so is a write that timed out, if it is idempotent;
/// - a request for which too few replicas were alive, or that reached a
///   bootstrapping node, goes to the next host;
/// - an idempotent request goes to the next host when the coordinator was
///   overloaded or the connection broke;
/// - every other error is handed to the caller.
pub open spec fn default_decision(
    error: RequestError,
    is_idempotent: bool,
    attempt_count: u32,
) -> RetryDecision {
    match error {
        RequestError::ReadTimeout { received, required } => if attempt_count == 0 && received
            >= required {
            RetryDecision::RetrySameHost
        } else {
            RetryDecision::Fatal
        },
        RequestError::WriteTimeout { received, required } => if attempt_count == 0 && received
            >= required && is_idempotent {
            RetryDecision::RetrySameHost
        } else {
            RetryDecision::Fatal
        },
        RequestError::Unavailable { .. } | RequestError::IsBootstrapping => RetryDecision::RetryNextHost,
        RequestError::Overloaded | RequestError::ConnectionBroken => if is_idempotent {
            RetryDecision::RetryNextHost
        } else {
            RetryDecision::Fatal
        },
        _ => RetryDecision::Fatal,
    }
}

/// The default retry policy.
#[derive(Clone, Copy, Debug, Default)]
pub struct DefaultRetryPolicy;

impl DefaultRetryPolicy {
    /// Decides what is done about a request that has failed with `error`
    /// after `attempt_count` retries.
    pub fn decide(&self, error: RequestError, is_idempotent: bool, attempt_count: u32) -> (decision:
        RetryDecision)
        ensures
            decision == default_decision(error, is_idempotent, attempt_count),
    {
        match error {
            RequestError::ReadTimeout { received, required } => {
                if attempt_count == 0 && received >= required {
                    RetryDecision::RetrySameHost
                } else {
                    RetryDecision::Fatal
                }
            },
            RequestError::WriteTimeout { received, required } => {
                if attempt_count == 0 && received >= required && is_idempotent {
                    RetryDecision::RetrySameHost
                } else {
                    RetryDecision::Fatal
                }
            },
            RequestError::Unavailable { .. } | RequestError::IsBootstrapping => {
                RetryDecision::RetryNextHost
            },
            RequestError::Overloaded | RequestError::ConnectionBroken => {
                if is_idempotent {
                    RetryDecision::RetryNextHost
                } else {
                    RetryDecision::Fatal
                }
            },
            _ => RetryDecision::Fatal,
        }
    }
}

/// The decision depends on the error, on whether the request is idempotent
/// and on the number of retries only: what is decided twice of the same is
/// the same.
pub proof fn lemma_decision_is_deterministic(
    error: RequestError,
    is_idempotent: bool,
    attempt_count: u32,
    first: RetryDecision,
    second: RetryDecision,
)
    requires
        first == default_decision(error, is_idempotent, attempt_count),
        second == default_decision(error, is_idempotent, attempt_count),
    ensures
        first == second,
{
}

/// The default policy never sends a write that is not idempotent again
/// after it may have been applied: after a timeout of the write, an
/// overloaded coordinator or a broken connection.
pub proof fn lemma_no_retry_of_non_idempotent_writes(error: RequestError, attempt_count: u32)
    requires
        error is WriteTimeout || error is Overloaded || error is ConnectionBroken,
    ensures
        default_decision(error, false, attempt_count) == RetryDecision::Fatal,
{
}

/// The default policy sends a request to the same host again at most once.
pub proof fn lemma_same_host_at_most_once(
    error: RequestError,
    is_idempotent: bool,
    attempt_count: u32,
)
    requires
        attempt_count > 0,
    ensures
        default_decision(error, is_idempotent, attempt_count) != RetryDecision::RetrySameHost,
{
}

} // verus!
