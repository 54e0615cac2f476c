use gossip_node::error::NodeError;
use gossip_node::role::{
    next_task, parse_role, peer_behaviour, sender_behaviour, tasks_of, Role, Task, TaskStep, TOPIC,
};

#[test]
fn roles_by_name() {
    assert_eq!(parse_role("peer"), Role::Peer);
    assert_eq!(parse_role("sender"), Role::Sender);
    assert_eq!(parse_role(""), Role::Bystander);
    assert_eq!(parse_role("Peer"), Role::Bystander);
    assert_eq!(parse_role("peers"), Role::Bystander);
}

#[test]
fn peer_joins_the_bootstrap_node() {
    let tasks = peer_behaviour();
    assert_eq!(tasks.len(), 1);
    assert!(matches!(&tasks[0], Task::Dial { domain } if domain == "bootstrap"));
}

#[test]
fn sender_joins_a_peer_and_sends() {
    let tasks = sender_behaviour("news");
    assert_eq!(tasks.len(), 2);
    assert!(matches!(&tasks[0], Task::Dial { domain } if domain == "peer"));
    match &tasks[1] {
        Task::Gossip { topic, data } => {
            assert_eq!(topic, "news");
            assert_eq!(data, &vec![1, 2, 3, 4]);
        }
        Task::Dial { .. } => panic!("not a message"),
    }
}

#[test]
fn tasks_by_role_name() {
    assert_eq!(tasks_of("peer", TOPIC).len(), 1);
    assert_eq!(tasks_of("sender", TOPIC).len(), 2);
    assert!(tasks_of("bootstrap", TOPIC).is_empty());
    assert_eq!(TOPIC, "some_topic");
}

#[test]
fn errors_are_told() {
    assert_eq!(NodeError::InvalidAddress.message(), "invalid multiaddr");
    assert_eq!(NodeError::InvalidConfig.message(), "invalid gossip configuration");
    let error = NodeError::Exhausted { max_attempts: 10, last_error: "why".to_string() };
    assert_eq!(error.message(), "Operation failed after 10 attempts. Last error: why");
}

/// The places of the tasks that are run, and the error that they end with.
fn run(total: usize, outcomes: Vec<Result<(), NodeError>>) -> (Vec<usize>, Option<String>) {
    let mut started = Vec::new();
    let mut current = 0;
    for outcome in outcomes {
        started.push(current);
        match next_task(current, total, outcome) {
            TaskStep::Next { task } => current = task,
            TaskStep::Finished => return (started, None),
            TaskStep::Failed { error } => return (started, Some(error.message())),
        }
    }
    panic!("not at an end");
}

#[test]
fn tasks_are_run_in_order() {
    assert_eq!(run(3, vec![Ok(()), Ok(()), Ok(())]), (vec![0, 1, 2], None));
    assert_eq!(run(1, vec![Ok(())]), (vec![0], None));
}

#[test]
fn sender_that_cannot_dial_does_not_publish() {
    let total = sender_behaviour(TOPIC).len();
    let (started, error) = run(total, vec![Err(NodeError::ConnectionFailed), Ok(())]);
    assert_eq!(started, vec![0]);
    assert_eq!(error, Some("Connection failed".to_string()));
}

#[test]
fn sender_ends_as_its_publishing_does() {
    let total = sender_behaviour(TOPIC).len();
    let refusal = NodeError::PublishFailed { reason: "Duplicate".to_string() };
    let (started, error) = run(total, vec![Ok(()), Err(refusal)]);
    assert_eq!(started, vec![0, 1]);
    assert_eq!(error, Some("Publishing failed Duplicate".to_string()));
    assert_eq!(run(total, vec![Ok(()), Ok(())]), (vec![0, 1], None));
}
