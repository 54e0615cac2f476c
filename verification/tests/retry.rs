use gossip_node::error::NodeError;
use gossip_node::retry::{
    backoff, retry_with_backoff, Retry, RetryStep, BACKOFF_DELAY, BACKOFF_MAX_RETRIES,
};

/// Runs an operation with these outcomes: its result, the delays and notices.
fn run(
    mut retry: Retry,
    outcomes: Vec<Result<(), NodeError>>,
) -> (Option<Result<(), String>>, Vec<u64>, Vec<String>) {
    let mut delays = Vec::new();
    let mut notices = Vec::new();
    for outcome in outcomes {
        match retry_with_backoff(&retry, outcome) {
            RetryStep::Succeeded => return (Some(Ok(())), delays, notices),
            RetryStep::GaveUp { error } => return (Some(Err(error.message())), delays, notices),
            RetryStep::Wait { delay_ms, notice } => {
                assert_eq!(delay_ms, retry.delay_ms());
                delays.push(delay_ms);
                notices.push(notice);
                retry.advance();
            }
        }
    }
    (None, delays, notices)
}

fn failure() -> Result<(), NodeError> {
    Err(NodeError::ConnectionFailed)
}

#[test]
fn first_success_ends_it() {
    let (result, delays, notices) = run(Retry::new(3, 100), vec![Ok(())]);
    assert_eq!(result, Some(Ok(())));
    assert!(delays.is_empty());
    assert!(notices.is_empty());
}

#[test]
fn delays_double() {
    let outcomes = vec![failure(), failure(), failure(), Ok(())];
    let (result, delays, notices) = run(Retry::new(5, 100), outcomes);
    assert_eq!(result, Some(Ok(())));
    assert_eq!(delays, vec![100, 200, 400]);
    assert_eq!(notices[0], "Attempt 1/5 failed, retrying in 100ms: Connection failed");
    assert_eq!(notices[2], "Attempt 3/5 failed, retrying in 400ms: Connection failed");
}

#[test]
fn last_failure_is_reported() {
    let outcomes = vec![
        failure(),
        failure(),
        Err(NodeError::PublishFailed { reason: "InsufficientPeers".to_string() }),
    ];
    let (result, delays, _) = run(Retry::new(3, 100), outcomes);
    let text = "Operation failed after 3 attempts. Last error: Publishing failed InsufficientPeers";
    assert_eq!(result, Some(Err(text.to_string())));
    assert_eq!(delays, vec![100, 200]);
}

#[test]
fn one_attempt_is_always_made() {
    let (result, delays, _) = run(Retry::new(0, 100), vec![failure()]);
    let text = "Operation failed after 0 attempts. Last error: Connection failed";
    assert_eq!(result, Some(Err(text.to_string())));
    assert!(delays.is_empty());
    let (result, _, _) = run(Retry::new(1, 100), vec![failure()]);
    assert!(matches!(result, Some(Err(_))));
    let (result, _, _) = run(Retry::new(0, 100), vec![Ok(())]);
    assert_eq!(result, Some(Ok(())));
}

#[test]
fn unfinished_while_attempts_are_left() {
    let (result, delays, _) = run(Retry::new(3, 100), vec![failure(), failure()]);
    assert_eq!(result, None);
    assert_eq!(delays.len(), 2);
}

#[test]
fn zero_delay_stays_zero() {
    let (_, delays, _) = run(Retry::new(4, 0), vec![failure(), failure(), failure()]);
    assert_eq!(delays, vec![0, 0, 0]);
}

#[test]
fn node_backs_off_for_ten_attempts() {
    assert_eq!(BACKOFF_DELAY, 500);
    assert_eq!(BACKOFF_MAX_RETRIES, 10);
    let outcomes: Vec<Result<(), NodeError>> = (0..10).map(|_| failure()).collect();
    let (result, delays, _) = run(backoff(), outcomes);
    let text = "Operation failed after 10 attempts. Last error: Connection failed";
    assert_eq!(result, Some(Err(text.to_string())));
    assert_eq!(delays, vec![500, 1000, 2000, 4000, 8000, 16000, 32000, 64000, 128000]);
    assert_eq!(delays.iter().sum::<u64>(), 255_500);
}

#[test]
fn node_succeeds_on_the_tenth_attempt() {
    let mut outcomes: Vec<Result<(), NodeError>> = (0..9).map(|_| failure()).collect();
    outcomes.push(Ok(()));
    let (result, delays, _) = run(backoff(), outcomes);
    assert_eq!(result, Some(Ok(())));
    assert_eq!(delays.iter().sum::<u64>() + 500, 500 * 512);
}

#[test]
fn greatest_delay_that_fits() {
    let mut retry = Retry::new(3, u64::MAX / 2);
    retry.advance();
    assert_eq!(retry.delay_ms(), u64::MAX - 1);
}
