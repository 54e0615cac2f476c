//! What a node does on its own account, by the role it was started in.
//!
//! The program runs the first of the role's tasks, hands its outcome to
//! [`next_task`], and does what that says: run another task, or stop.
use crate::error::{ErrorView, NodeError};
use crate::event::CommandView;
use vstd::prelude::*;

verus! {

/// The topic that the node's gossip is about.
pub const TOPIC: &'static str = "some_topic";

/// The role of a node.
#[derive(Clone, Copy, Debug, PartialEq, Eq, Structural)]
pub enum Role {
    /// A node that joins the network.
    Peer,
    /// A node that joins the network and sends a message.
    Sender,
    /// A node that others join.
    Bystander,
}

/// Something that a node does on its own account, retrying it as needed.
#[derive(Debug)]
pub enum Task {
    /// Connect to the node with this name.
    Dial { domain: String },
    /// Publish data on a topic.
    Gossip { topic: String, data: Vec<u8> },
}

/// What a [`Task`] says, with its contents as sequences.
pub enum TaskView {
    Dial { domain: Seq<char> },
    Gossip { topic: Seq<char>, data: Seq<u8> },
}

impl View for Task {
    type V = TaskView;

    open spec fn view(&self) -> TaskView {
        match self {
            Task::Dial { domain } => TaskView::Dial { domain: domain@ },
            Task::Gossip { topic, data } => TaskView::Gossip { topic: topic@, data: data@ },
        }
    }
}

/// Tasks by their views.
pub open spec fn task_views(tasks: Seq<Task>) -> Seq<TaskView> {
    tasks.map_values(|task: Task| task@)
}

/// The role that a name stands for.
pub open spec fn role_named(name: Seq<char>) -> Role {
    if name == "peer"@ {
        Role::Peer
    } else if name == "sender"@ {
        Role::Sender
    } else {
        Role::Bystander
    }
}

/// What a node of a role does, one task after the other.
pub open spec fn role_tasks(role: Role, topic: Seq<char>) -> Seq<TaskView> {
    match role {
        Role::Peer => seq![TaskView::Dial { domain: "bootstrap"@ }],
        Role::Sender => seq![
            TaskView::Dial { domain: "peer"@ },
            TaskView::Gossip { topic, data: seq![1u8, 2u8, 3u8, 4u8] },
        ],
        Role::Bystander => Seq::empty(),
    }
}

/// The names of the roles are `peer` and `sender`. A node of any other name is
/// one that others join.
pub proof fn lemma_role_named(name: Seq<char>)
    ensures
        role_named(name) is Peer <==> name == "peer"@,
        role_named(name) is Sender <==> name == "sender"@,
        role_named(name) is Bystander <==> name != "peer"@ && name != "sender"@,
{
    reveal_strlit("peer");
    reveal_strlit("sender");
    assert("peer"@.len() != "sender"@.len());
}

/// The role that a name stands for.
pub fn parse_role(name: &str) -> (role: Role)
    ensures
        role == role_named(name@),
        role is Peer <==> name@ == "peer"@,
        role is Sender <==> name@ == "sender"@,
{
    proof {
        lemma_role_named(name@);
    }
    let name = name.to_string();
    if name == "peer".to_string() {
        Role::Peer
    } else if name == "sender".to_string() {
        Role::Sender
    } else {
        Role::Bystander
    }
}

/// What a peer does.
pub fn peer_behaviour() -> (tasks: Vec<Task>)
    ensures
        task_views(tasks@) == role_tasks(Role::Peer, TOPIC@),
        tasks@.len() == 1,
        tasks@[0] matches Task::Dial { domain } && domain@ == "bootstrap"@,
{
    let mut tasks: Vec<Task> = Vec::new();
    tasks.push(Task::Dial { domain: "bootstrap".to_string() });
    tasks
}

/// What a sender does.
pub fn sender_behaviour(topic: &str) -> (tasks: Vec<Task>)
    ensures
        task_views(tasks@) == role_tasks(Role::Sender, topic@),
        tasks@.len() == 2,
        tasks@[0] matches Task::Dial { domain } && domain@ == "peer"@,
        tasks@[1] matches Task::Gossip { topic: to, data } && to@ == topic@ && data@ == seq![
            1u8,
            2u8,
            3u8,
            4u8,
        ],
{
    let mut data: Vec<u8> = Vec::new();
    data.push(1);
    data.push(2);
    data.push(3);
    data.push(4);
    assert(data@ =~= seq![1u8, 2u8, 3u8, 4u8]);
    let mut tasks: Vec<Task> = Vec::new();
    tasks.push(Task::Dial { domain: "peer".to_string() });
    tasks.push(Task::Gossip { topic: topic.to_string(), data });
    tasks
}

/// What a node of the role with this name does.
pub fn tasks_of(name: &str, topic: &str) -> (tasks: Vec<Task>)
    ensures
        task_views(tasks@) == role_tasks(role_named(name@), topic@),
        name@ == "peer"@ ==> {
            &&& tasks@.len() == 1
            &&& tasks@[0] matches Task::Dial { domain }
            &&& domain@ == "bootstrap"@
        },
        name@ == "sender"@ ==> {
            &&& tasks@.len() == 2
            &&& tasks@[0] matches Task::Dial { domain }
            &&& domain@ == "peer"@
            &&& tasks@[1] matches Task::Gossip { topic: to, data }
            &&& to@ == topic@
            &&& data@ == seq![1u8, 2u8, 3u8, 4u8]
        },
        name@ != "peer"@ && name@ != "sender"@ ==> tasks@.len() == 0,
{
    match parse_role(name) {
        Role::Peer => peer_behaviour(),
        Role::Sender => sender_behaviour(topic),
        Role::Bystander => {
            let tasks: Vec<Task> = Vec::new();
            tasks
        },
    }
}

/// What to do after a task.
#[derive(Debug)]
pub enum TaskStep {
    /// Run the task at this place.
    Next { task: usize },
    /// All tasks are done.
    Finished,
    /// A task has failed, and no other is run.
    Failed { error: NodeError },
}

/// What a [`TaskStep`] says, with its error by its view.
pub enum TaskStepView {
    Next { task: nat },
    Finished,
    Failed { error: ErrorView },
}

impl View for TaskStep {
    type V = TaskStepView;

    open spec fn view(&self) -> TaskStepView {
        match self {
            TaskStep::Next { task } => TaskStepView::Next { task: *task as nat },
            TaskStep::Finished => TaskStepView::Finished,
            TaskStep::Failed { error } => TaskStepView::Failed { error: error@ },
        }
    }
}

/// What to do after the task at place `current` of `total`, by its outcome.
pub open spec fn task_step(
    current: nat,
    total: nat,
    outcome: Result<(), ErrorView>,
) -> TaskStepView {
    match outcome {
        Err(error) => TaskStepView::Failed { error },
        Ok(_) => if current + 1 < total {
            TaskStepView::Next { task: current + 1 }
        } else {
            TaskStepView::Finished
        },
    }
}

/// Decides what follows the task at place `current` of `total`: the next one if
/// it succeeded and there is one, and nothing otherwise.
pub fn next_task(current: usize, total: usize, outcome: Result<(), NodeError>) -> (step: TaskStep)
    requires
        current < total,
    ensures
        step@ == task_step(current as nat, total as nat, crate::error::outcome_view(outcome)),
        match outcome {
            Err(error) => step matches TaskStep::Failed { error: same } && same == error,
            Ok(_) => if current + 1 < total {
                step matches TaskStep::Next { task } && task == current + 1
            } else {
                step is Finished
            },
        },
{
    match outcome {
        Err(error) => TaskStep::Failed { error },
        Ok(_) => {
            if current + 1 < total {
                TaskStep::Next { task: current + 1 }
            } else {
                TaskStep::Finished
            }
        },
    }
}

/// What became of a node's tasks: those that were started, in order, and the
/// result, once there is one.
pub struct TaskRun {
    pub started: Seq<TaskView>,
    pub result: Option<Result<(), ErrorView>>,
}

/// What becomes of the tasks from place `current` on, when those that are run
/// end with `outcomes`.
pub open spec fn run_from(
    tasks: Seq<TaskView>,
    current: nat,
    outcomes: Seq<Result<(), ErrorView>>,
) -> TaskRun
    recommends
        current < tasks.len(),
    decreases outcomes.len(),
{
    let task = tasks[current as int];
    if outcomes.len() == 0 {
        TaskRun { started: seq![task], result: None }
    } else {
        match task_step(current, tasks.len(), outcomes[0]) {
            TaskStepView::Next { task: next } => {
                let rest = run_from(tasks, next, outcomes.drop_first());
                TaskRun { started: seq![task] + rest.started, result: rest.result }
            },
            TaskStepView::Finished => TaskRun { started: seq![task], result: Some(Ok(())) },
            TaskStepView::Failed { error } => TaskRun {
                started: seq![task],
                result: Some(Err(error)),
            },
        }
    }
}

/// What becomes of a node's tasks, when those that are run end with `outcomes`.
pub open spec fn task_run(
    tasks: Seq<TaskView>,
    outcomes: Seq<Result<(), ErrorView>>,
) -> TaskRun {
    if tasks.len() == 0 {
        TaskRun { started: Seq::empty(), result: Some(Ok(())) }
    } else {
        run_from(tasks, 0, outcomes)
    }
}

/// Tasks are started in their order from `current` on.
proof fn lemma_run_from_in_order(
    tasks: Seq<TaskView>,
    current: nat,
    outcomes: Seq<Result<(), ErrorView>>,
)
    requires
        current < tasks.len(),
    ensures
        ({
            let started = run_from(tasks, current, outcomes).started;
            &&& started.len() <= tasks.len() - current
            &&& started == tasks.subrange(current as int, (current + started.len()) as int)
        }),
    decreases outcomes.len(),
{
    if outcomes.len() > 0 && outcomes[0] is Ok && current + 1 < tasks.len() {
        lemma_run_from_in_order(tasks, current + 1, outcomes.drop_first());
    }
}

/// A task from `current` on that fails ends the run.
proof fn lemma_run_from_stops(
    tasks: Seq<TaskView>,
    current: nat,
    outcomes: Seq<Result<(), ErrorView>>,
    k: nat,
)
    requires
        current + k < tasks.len(),
        k < outcomes.len(),
        outcomes[k as int] is Err,
        forall|i: int| 0 <= i < k ==> outcomes[i] is Ok,
    ensures
        ({
            let run = run_from(tasks, current, outcomes);
            &&& run.started.len() == k + 1
            &&& run.result == Some(Err::<(), ErrorView>(outcomes[k as int]->Err_0))
        }),
    decreases k,
{
    if k > 0 {
        lemma_run_from_stops(tasks, current + 1, outcomes.drop_first(), (k - 1) as nat);
    }
}

/// Tasks from `current` on that all succeed are all run.
proof fn lemma_run_from_finishes(
    tasks: Seq<TaskView>,
    current: nat,
    outcomes: Seq<Result<(), ErrorView>>,
)
    requires
        current < tasks.len(),
        outcomes.len() >= tasks.len() - current,
        forall|i: int| 0 <= i < tasks.len() - current ==> outcomes[i] is Ok,
    ensures
        ({
            let run = run_from(tasks, current, outcomes);
            &&& run.started.len() == tasks.len() - current
            &&& run.result == Some(Ok::<(), ErrorView>(()))
        }),
    decreases tasks.len() - current,
{
    if current + 1 < tasks.len() {
        lemma_run_from_finishes(tasks, current + 1, outcomes.drop_first());
    }
}

/// Tasks are started in their order, none twice and none left out before
/// another.
pub proof fn lemma_tasks_in_order(tasks: Seq<TaskView>, outcomes: Seq<Result<(), ErrorView>>)
    ensures
        task_run(tasks, outcomes).started.is_prefix_of(tasks),
{
    if tasks.len() > 0 {
        lemma_run_from_in_order(tasks, 0, outcomes);
    }
}

/// A task that fails ends the run with its own error, and no task after it is
/// started.
pub proof fn lemma_failure_ends_run(
    tasks: Seq<TaskView>,
    outcomes: Seq<Result<(), ErrorView>>,
    k: int,
)
    requires
        0 <= k < tasks.len(),
        k < outcomes.len(),
        outcomes[k] is Err,
        forall|i: int| 0 <= i < k ==> outcomes[i] is Ok,
    ensures
        task_run(tasks, outcomes).started == tasks.take(k + 1),
        task_run(tasks, outcomes).result == Some(Err::<(), ErrorView>(outcomes[k]->Err_0)),
{
    lemma_run_from_in_order(tasks, 0, outcomes);
    lemma_run_from_stops(tasks, 0, outcomes, k as nat);
}

/// Tasks that all succeed are all run, and the run succeeds.
pub proof fn lemma_success_runs_all(tasks: Seq<TaskView>, outcomes: Seq<Result<(), ErrorView>>)
    requires
        outcomes.len() >= tasks.len(),
        forall|i: int| 0 <= i < tasks.len() ==> outcomes[i] is Ok,
    ensures
        task_run(tasks, outcomes).started == tasks,
        task_run(tasks, outcomes).result == Some(Ok::<(), ErrorView>(())),
{
    if tasks.len() > 0 {
        lemma_run_from_in_order(tasks, 0, outcomes);
        lemma_run_from_finishes(tasks, 0, outcomes);
    }
}

/// Whether a command is one that a task sends to the swarm: to dial, for a task
/// that dials; to publish its data on its topic, for a task that publishes.
pub open spec fn sends(task: TaskView, command: CommandView) -> bool {
    match (task, command) {
        (TaskView::Dial { .. }, CommandView::Dial(_)) => true,
        (
            TaskView::Gossip { topic, data },
            CommandView::GossipPublish { topic: to, data: what, .. },
        ) => to == topic && what == data,
        _ => false,
    }
}

/// Whether these commands are sent by these tasks, one task after the other:
/// the command at each place by the task that `by` gives for it.
pub open spec fn sent_in_turn(
    tasks: Seq<TaskView>,
    commands: Seq<CommandView>,
    by: Seq<int>,
) -> bool {
    &&& by.len() == commands.len()
    &&& forall|i: int|
        0 <= i < by.len() ==> 0 <= #[trigger] by[i] < tasks.len() && sends(
            tasks[by[i]],
            commands[i],
        )
    &&& forall|i: int, j: int| 0 <= i <= j < by.len() ==> by[i] <= by[j]
}

/// After a task that succeeded comes the one that is next to it, as long as there
/// is one. After one that failed comes none, and its error is passed on.
pub proof fn lemma_task_step(current: nat, total: nat, error: ErrorView)
    ensures
        current + 1 < total ==> task_step(current, total, Ok(())) == (TaskStepView::Next {
            task: current + 1,
        }),
        current + 1 >= total ==> task_step(current, total, Ok(())) is Finished,
        task_step(current, total, Err(error)) == (TaskStepView::Failed { error }),
{
}

/// A node that is started as `peer` dials `bootstrap`, does nothing else, and ends
/// as its dial does.
pub proof fn lemma_peer(topic: Seq<char>, dialed: Result<(), ErrorView>)
    ensures
        ({
            let run = task_run(role_tasks(role_named("peer"@), topic), seq![dialed]);
            &&& run.started.len() == 1
            &&& run.started[0] == (TaskView::Dial { domain: "bootstrap"@ })
            &&& run.result == Some(dialed)
        }),
{
    lemma_role_named("peer"@);
    let tasks = role_tasks(role_named("peer"@), topic);
    if dialed is Err {
        lemma_failure_ends_run(tasks, seq![dialed], 0);
    } else {
        lemma_success_runs_all(tasks, seq![dialed]);
        assert(dialed->Ok_0 == ());
    }
}

/// A node that is started as neither `peer` nor `sender` does nothing on its own
/// account.
pub proof fn lemma_bystander(
    name: Seq<char>,
    topic: Seq<char>,
    outcomes: Seq<Result<(), ErrorView>>,
)
    requires
        name != "peer"@,
        name != "sender"@,
    ensures
        ({
            let run = task_run(role_tasks(role_named(name), topic), outcomes);
            &&& run.started.len() == 0
            &&& run.result == Some(Ok::<(), ErrorView>(()))
        }),
{
    lemma_role_named(name);
}

/// A node that is started as `sender` and whose dial succeeds does publish: it
/// starts exactly two tasks, and the second publishes the bytes 1, 2, 3 and 4 on
/// the node's topic, whatever the topic. If its dial fails it starts no other.
pub proof fn lemma_sender_publishes(
    topic: Seq<char>,
    dialed: Result<(), ErrorView>,
    published: Result<(), ErrorView>,
)
    ensures
        ({
            let run = task_run(
                role_tasks(role_named("sender"@), topic),
                seq![dialed, published],
            );
            &&& run.started[0] == (TaskView::Dial { domain: "peer"@ })
            &&& dialed is Ok ==> {
                &&& run.started.len() == 2
                &&& run.started[1] == (TaskView::Gossip { topic, data: seq![1u8, 2u8, 3u8, 4u8] })
                &&& run.result == Some(published)
            }
            &&& dialed is Err ==> {
                &&& run.started.len() == 1
                &&& run.result == Some(dialed)
            }
        }),
{
    lemma_role_named("sender"@);
    lemma_sender(topic, dialed, published);
}

/// A sender whose dial fails ends with that error and has not begun to publish.
/// One whose dial succeeds ends as its publishing does.
pub proof fn lemma_sender(
    topic: Seq<char>,
    dialed: Result<(), ErrorView>,
    published: Result<(), ErrorView>,
)
    ensures
        ({
            let tasks = role_tasks(Role::Sender, topic);
            let run = task_run(tasks, seq![dialed, published]);
            match dialed {
                Err(error) => {
                    &&& run.started == seq![TaskView::Dial { domain: "peer"@ }]
                    &&& run.result == Some(Err::<(), ErrorView>(error))
                },
                Ok(_) => {
                    &&& run.started == tasks
                    &&& run.started == seq![
                        TaskView::Dial { domain: "peer"@ },
                        TaskView::Gossip { topic, data: seq![1u8, 2u8, 3u8, 4u8] },
                    ]
                    &&& run.result == Some(published)
                },
            }
        }),
{
    let tasks = role_tasks(Role::Sender, topic);
    let outcomes = seq![dialed, published];
    if dialed is Err {
        lemma_failure_ends_run(tasks, outcomes, 0);
    } else if published is Err {
        lemma_failure_ends_run(tasks, outcomes, 1);
    } else {
        lemma_success_runs_all(tasks, outcomes);
        assert(published->Ok_0 == ());
    }
}

/// Whatever a sender's tasks send: it publishes nothing if its dial fails;
/// what it publishes is its data on its topic; and it dials before it
/// publishes.
pub proof fn lemma_sender_commands(
    topic: Seq<char>,
    dialed: Result<(), ErrorView>,
    published: Result<(), ErrorView>,
    commands: Seq<CommandView>,
    by: Seq<int>,
)
    requires
        sent_in_turn(
            task_run(role_tasks(Role::Sender, topic), seq![dialed, published]).started,
            commands,
            by,
        ),
    ensures
        dialed is Err ==> forall|i: int|
            0 <= i < commands.len() ==> #[trigger] commands[i] is Dial,
        forall|i: int|
            0 <= i < commands.len() ==> (#[trigger] commands[i] matches CommandView::GossipPublish {
                topic: to,
                data,
                ..
            } ==> to == topic && data == seq![1u8, 2u8, 3u8, 4u8]),
        forall|i: int, j: int|
            0 <= i < commands.len() && 0 <= j < commands.len() && #[trigger] commands[i] is Dial
                && #[trigger] commands[j] is GossipPublish ==> i < j,
{
    lemma_sender(topic, dialed, published);
    let tasks = role_tasks(Role::Sender, topic);
    let started = task_run(tasks, seq![dialed, published]).started;
    assert(forall|i: int|
        0 <= i < commands.len() ==> 0 <= by[i] < started.len() && sends(
            started[by[i]],
            #[trigger] commands[i],
        ));
}

} // verus!
