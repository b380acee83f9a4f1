use scylla::execution::retries::{DefaultRetryPolicy, RequestError, RetryDecision};
use scylla::execution::speculative_execution::SimpleSpeculativeExecutionPolicy;
use scylla::network::stream_ids::StreamIdSet;

#[test]
fn stream_ids_are_given_out_from_the_least() {
    let mut set = StreamIdSet::new();
    assert_eq!(set.allocate(), Some(0));
    assert_eq!(set.allocate(), Some(1));
    assert_eq!(set.allocate(), Some(2));
    assert!(set.is_used(1));
    assert!(set.free(1));
    assert!(!set.is_used(1));
    assert_eq!(set.allocate(), Some(1));
    assert_eq!(set.allocate(), Some(3));
}

#[test]
fn stream_id_is_given_back_once() {
    let mut set = StreamIdSet::new();
    let id = set.allocate().unwrap();
    assert!(set.free(id));
    assert!(!set.free(id));
    assert!(!set.free(77));
    assert!(!set.free(-1));
    assert!(!set.free(i16::MIN));
    assert!(!set.is_used(-5));
}

#[test]
fn stream_ids_run_out_at_the_capacity() {
    let mut set = StreamIdSet::new();
    for expected in 0..32768_i32 {
        assert_eq!(set.allocate(), Some(expected as i16));
    }
    assert_eq!(set.allocate(), None);
    assert!(set.is_used(i16::MAX));
    assert!(set.free(12345));
    assert_eq!(set.allocate(), Some(12345));
    assert_eq!(set.allocate(), None);
    assert!(set.free(63));
    assert!(set.free(64));
    assert_eq!(set.allocate(), Some(63));
    assert_eq!(set.allocate(), Some(64));
}

#[test]
fn no_stream_id_is_in_use_twice() {
    let mut set = StreamIdSet::new();
    let mut taken = std::collections::HashSet::new();
    for round in 0..1000 {
        let id = set.allocate().unwrap();
        assert!(taken.insert(id));
        if round % 3 == 0 {
            assert!(set.free(id));
            taken.remove(&id);
        }
    }
}

const ALL_ERRORS: [RequestError; 20] = [
    RequestError::ConnectionBroken,
    RequestError::Unavailable { required: 3, alive: 1 },
    RequestError::Overloaded,
    RequestError::IsBootstrapping,
    RequestError::ReadTimeout { received: 2, required: 2 },
    RequestError::WriteTimeout { received: 2, required: 2 },
    RequestError::ReadFailure,
    RequestError::WriteFailure,
    RequestError::FunctionFailure,
    RequestError::Unauthorized,
    RequestError::Invalid,
    RequestError::ConfigError,
    RequestError::AlreadyExists,
    RequestError::Unprepared,
    RequestError::SyntaxError,
    RequestError::ServerError,
    RequestError::TruncateError,
    RequestError::Protocol,
    RequestError::Serialization,
    RequestError::RequestTimeout,
];

#[test]
fn timeouts_are_retried_once_when_quorum_was_reached() {
    let policy = DefaultRetryPolicy;
    let read = RequestError::ReadTimeout { received: 2, required: 2 };
    assert_eq!(policy.decide(read, false, 0), RetryDecision::RetrySameHost);
    assert_eq!(policy.decide(read, true, 0), RetryDecision::RetrySameHost);
    assert_eq!(policy.decide(read, true, 1), RetryDecision::Fatal);
    let short = RequestError::ReadTimeout { received: 1, required: 2 };
    assert_eq!(policy.decide(short, true, 0), RetryDecision::Fatal);

    let write = RequestError::WriteTimeout { received: 3, required: 2 };
    assert_eq!(policy.decide(write, true, 0), RetryDecision::RetrySameHost);
    assert_eq!(policy.decide(write, false, 0), RetryDecision::Fatal);
    assert_eq!(policy.decide(write, true, 1), RetryDecision::Fatal);
    let short = RequestError::WriteTimeout { received: 1, required: 2 };
    assert_eq!(policy.decide(short, true, 0), RetryDecision::Fatal);
}

#[test]
fn unavailable_goes_to_the_next_host() {
    let policy = DefaultRetryPolicy;
    let unavailable = RequestError::Unavailable { required: 3, alive: 1 };
    for attempt in 0..3 {
        assert_eq!(policy.decide(unavailable, false, attempt), RetryDecision::RetryNextHost);
        assert_eq!(policy.decide(unavailable, true, attempt), RetryDecision::RetryNextHost);
        assert_eq!(
            policy.decide(RequestError::IsBootstrapping, false, attempt),
            RetryDecision::RetryNextHost
        );
    }
}

#[test]
fn overload_and_broken_connection_need_an_idempotent_request() {
    let policy = DefaultRetryPolicy;
    for error in [RequestError::Overloaded, RequestError::ConnectionBroken] {
        assert_eq!(policy.decide(error, true, 0), RetryDecision::RetryNextHost);
        assert_eq!(policy.decide(error, true, 5), RetryDecision::RetryNextHost);
        assert_eq!(policy.decide(error, false, 0), RetryDecision::Fatal);
    }
}

#[test]
fn other_errors_are_fatal() {
    let policy = DefaultRetryPolicy;
    for error in &ALL_ERRORS[6..] {
        for idempotent in [false, true] {
            assert_eq!(policy.decide(*error, idempotent, 0), RetryDecision::Fatal);
        }
    }
}

#[test]
fn retry_policy_is_deterministic() {
    let policy = DefaultRetryPolicy;
    for error in ALL_ERRORS {
        for idempotent in [false, true] {
            for attempt in 0..3 {
                let first = policy.decide(error, idempotent, attempt);
                let second = DefaultRetryPolicy::default().decide(error, idempotent, attempt);
                assert_eq!(first, second);
                assert_ne!(first, RetryDecision::Ignore);
            }
        }
    }
}

#[test]
fn speculation_needs_an_idempotent_request() {
    let policy = SimpleSpeculativeExecutionPolicy { max_retry_count: 2, retry_interval_ms: 50 };
    assert_eq!(policy.next_attempt_delay(true, 0), Some(50));
    assert_eq!(policy.next_attempt_delay(true, 1), Some(50));
    assert_eq!(policy.next_attempt_delay(true, 2), None);
    assert_eq!(policy.next_attempt_delay(true, 3), None);
    assert_eq!(policy.next_attempt_delay(false, 0), None);
    assert_eq!(policy.next_attempt_delay(false, 1), None);
    let never = SimpleSpeculativeExecutionPolicy { max_retry_count: 0, retry_interval_ms: 50 };
    assert_eq!(never.next_attempt_delay(true, 0), None);
}
