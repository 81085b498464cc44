//! Nodes: Chaindexing instances sharing one database. The newest active node leads
//! and runs the indexing tasks; the others stand by. A heartbeat lets the leader
//! pause its tasks while nobody needs fresh data.
use vstd::prelude::*;

verus! {

/// The most nodes expected to run at once.
pub const DEFAULT_MAX_CONCURRENT_NODE_COUNT: u16 = 50;

/// A registered node.
#[derive(Clone, Copy, Debug, PartialEq, Eq, Structural)]
pub struct Node {
    pub id: i32,
    pub last_active_at: i64,
    pub inserted_at: i64,
}

impl Node {
    /// Whether this node is the given leader.
    pub fn is_leader(&self, leader: &Node) -> (leads: bool)
        ensures
            leads == (self.id == leader.id),
    {
        self.id == leader.id
    }
}

/// Whether `leader` is the first of the nodes with the latest insertion.
pub open spec fn is_elected(nodes: Seq<Node>, leader: Node) -> bool {
    exists|i: int|
        0 <= i < nodes.len() && nodes[i] == leader && (forall|j: int|
            0 <= j < nodes.len() ==> #[trigger] nodes[j].inserted_at <= leader.inserted_at) && (forall|j: int|
            0 <= j < i ==> #[trigger] nodes[j].inserted_at < leader.inserted_at)
}

/// The leader of the active nodes: the most recently inserted one, the first of them
/// on a tie.
pub fn elect_leader(nodes: &[Node]) -> (leader: Node)
    requires
        nodes@.len() > 0,
    ensures
        is_elected(nodes@, leader),
{
    let mut best: usize = 0;
    let mut i: usize = 1;
    while i < nodes.len()
        invariant
            1 <= i <= nodes@.len(),
            best < i,
            forall|j: int| 0 <= j < i ==> #[trigger] nodes@[j].inserted_at <= nodes@[best as int].inserted_at,
            forall|j: int| 0 <= j < best ==> #[trigger] nodes@[j].inserted_at < nodes@[best as int].inserted_at,
        decreases nodes@.len() - i,
    {
        if nodes[i].inserted_at > nodes[best].inserted_at {
            best = i;
        }
        i = i + 1;
    }
    nodes[best]
}

/// A leader stays the leader when a node inserted no later joins the active nodes
/// after it.
pub proof fn lemma_leader_stable(nodes: Seq<Node>, leader: Node, newcomer: Node)
    requires
        is_elected(nodes, leader),
        newcomer.inserted_at <= leader.inserted_at,
    ensures
        is_elected(nodes.push(newcomer), leader),
{
    let i = choose|i: int|
        0 <= i < nodes.len() && nodes[i] == leader && (forall|j: int|
            0 <= j < nodes.len() ==> #[trigger] nodes[j].inserted_at <= leader.inserted_at) && (forall|j: int|
            0 <= j < i ==> #[trigger] nodes[j].inserted_at < leader.inserted_at);
    let pushed = nodes.push(newcomer);
    assert(pushed[i] == leader);
    assert forall|j: int| 0 <= j < pushed.len() implies #[trigger] pushed[j].inserted_at <= leader.inserted_at by {
        if j < nodes.len() {
            assert(pushed[j] == nodes[j]);
        }
    }
    assert forall|j: int| 0 <= j < i implies #[trigger] pushed[j].inserted_at < leader.inserted_at by {
        assert(pushed[j] == nodes[j]);
    }
}

/// A node's heartbeat: when it was last kept alive (milliseconds) and how long it
/// stays active after that.
#[derive(Clone, Copy, Debug, PartialEq, Eq, Structural)]
pub struct NodeHeartbeat {
    pub last_keep_alive_at: u64,
    pub active_grace_period: u32,
}

impl NodeHeartbeat {
    /// A heartbeat kept alive at `now_ms`.
    pub fn new(active_grace_period_ms: u32, now_ms: u64) -> (heartbeat: NodeHeartbeat)
        ensures
            heartbeat == (NodeHeartbeat { last_keep_alive_at: now_ms, active_grace_period: active_grace_period_ms }),
    {
        NodeHeartbeat { last_keep_alive_at: now_ms, active_grace_period: active_grace_period_ms }
    }

    /// Keeps the node alive as of `now_ms`.
    pub fn keep_alive(&mut self, now_ms: u64)
        ensures
            *final(self) == (NodeHeartbeat { last_keep_alive_at: now_ms, ..*old(self) }),
    {
        self.last_keep_alive_at = now_ms;
    }

    /// Whether the node was kept alive within the grace period before `now_ms`.
    pub fn is_recent(&self, now_ms: u64) -> (recent: bool)
        requires
            now_ms >= self.active_grace_period,
        ensures
            recent == (self.last_keep_alive_at > now_ms - self.active_grace_period),
    {
        self.last_keep_alive_at > now_ms - self.active_grace_period as u64
    }

    /// Whether the grace period since the last keep-alive is over at `now_ms`.
    pub fn is_stale(&self, now_ms: u64) -> (stale: bool)
        requires
            now_ms >= self.active_grace_period,
        ensures
            stale == !(self.last_keep_alive_at > now_ms - self.active_grace_period),
    {
        !self.is_recent(now_ms)
    }
}

/// A request to keep a node active: when it was last refreshed (milliseconds) and
/// how long it counts after that.
#[derive(Clone, Copy, Debug, PartialEq, Eq, Structural)]
pub struct KeepNodeActiveRequest {
    pub last_refreshed_at: u64,
    pub active_grace_period: u32,
}

impl KeepNodeActiveRequest {
    /// A request refreshed at `now_ms`.
    pub fn new(active_grace_period_ms: u32, now_ms: u64) -> (request: KeepNodeActiveRequest)
        ensures
            request == (KeepNodeActiveRequest { last_refreshed_at: now_ms, active_grace_period: active_grace_period_ms }),
    {
        KeepNodeActiveRequest { last_refreshed_at: now_ms, active_grace_period: active_grace_period_ms }
    }

    /// Refreshes the request as of `now_ms`.
    pub fn refresh(&mut self, now_ms: u64)
        ensures
            *final(self) == (KeepNodeActiveRequest { last_refreshed_at: now_ms, ..*old(self) }),
    {
        self.last_refreshed_at = now_ms;
    }

    /// Whether the request was refreshed within the grace period before `now_ms`.
    pub fn is_recent(&self, now_ms: u64) -> (recent: bool)
        requires
            now_ms >= self.active_grace_period,
        ensures
            recent == (self.last_refreshed_at > now_ms - self.active_grace_period),
    {
        self.last_refreshed_at > now_ms - self.active_grace_period as u64
    }

    /// Whether the grace period since the last refresh is over at `now_ms`.
    pub fn is_stale(&self, now_ms: u64) -> (stale: bool)
        requires
            now_ms >= self.active_grace_period,
        ensures
            stale == !(self.last_refreshed_at > now_ms - self.active_grace_period),
    {
        !self.is_recent(now_ms)
    }
}

/// Whether at least `n_seconds` passed between `started_at_in_secs` and `now_in_secs`.
pub fn started_n_seconds_ago(started_at_in_secs: u64, now_in_secs: u64, n_seconds: u64) -> (started: bool)
    requires
        now_in_secs >= started_at_in_secs,
    ensures
        started == (now_in_secs - started_at_in_secs >= n_seconds),
{
    now_in_secs - started_at_in_secs >= n_seconds
}

/// The state of a node's tasks.
#[derive(Clone, Copy, Debug, PartialEq, Eq, Structural)]
pub enum NodeTasksState {
    /// Nothing has run yet.
    Idle,
    /// The tasks run.
    Active,
    /// The tasks are stopped until the heartbeat is recent again.
    InActive,
    /// The tasks were stopped because another node leads.
    Aborted,
}

/// What to do with the node's tasks.
#[derive(Clone, Copy, Debug, PartialEq, Eq, Structural)]
pub enum NodeTasksAction {
    Start,
    Stop,
    Nothing,
}

/// What the heartbeat says when an optimization is configured: whether it is recent,
/// and whether the tasks started long enough ago to be paused.
#[derive(Clone, Copy, Debug, PartialEq, Eq, Structural)]
pub struct HeartbeatReading {
    pub is_recent: bool,
    pub started_long_enough_ago: bool,
}

/// The next state of a node's tasks and what to do with them: the leader starts its
/// tasks when idle or aborted, pauses them when the heartbeat is stale and they ran
/// long enough, and resumes them when the heartbeat is recent again; another node
/// stops running tasks.
pub open spec fn orchestration_step(state: NodeTasksState, is_leader: bool, heartbeat: Option<HeartbeatReading>) -> (NodeTasksState, NodeTasksAction) {
    if is_leader {
        match state {
            NodeTasksState::Idle | NodeTasksState::Aborted => (NodeTasksState::Active, NodeTasksAction::Start),
            NodeTasksState::Active => match heartbeat {
                Some(h) => if !h.is_recent && h.started_long_enough_ago {
                    (NodeTasksState::InActive, NodeTasksAction::Stop)
                } else {
                    (state, NodeTasksAction::Nothing)
                },
                None => (state, NodeTasksAction::Nothing),
            },
            NodeTasksState::InActive => match heartbeat {
                Some(h) => if h.is_recent {
                    (NodeTasksState::Active, NodeTasksAction::Start)
                } else {
                    (state, NodeTasksAction::Nothing)
                },
                None => (state, NodeTasksAction::Nothing),
            },
        }
    } else if state == NodeTasksState::Active {
        (NodeTasksState::Aborted, NodeTasksAction::Stop)
    } else {
        (state, NodeTasksAction::Nothing)
    }
}

/// One orchestration of a node's tasks where leadership is already decided, for
/// instance by a lock the node holds (see [`orchestration_step`]).
pub fn orchestrate_with_leadership(
    state: NodeTasksState,
    is_leader: bool,
    heartbeat: Option<HeartbeatReading>,
) -> (next: (NodeTasksState, NodeTasksAction))
    ensures
        next == orchestration_step(state, is_leader, heartbeat),
        is_leader && next.1 == NodeTasksAction::Stop ==> state == NodeTasksState::Active && (heartbeat matches Some(h)
            && !h.is_recent && h.started_long_enough_ago),
{
    if is_leader {
        match state {
            NodeTasksState::Idle | NodeTasksState::Aborted => (NodeTasksState::Active, NodeTasksAction::Start),
            NodeTasksState::Active => match heartbeat {
                Some(h) => if !h.is_recent && h.started_long_enough_ago {
                    (NodeTasksState::InActive, NodeTasksAction::Stop)
                } else {
                    (state, NodeTasksAction::Nothing)
                },
                None => (state, NodeTasksAction::Nothing),
            },
            NodeTasksState::InActive => match heartbeat {
                Some(h) => if h.is_recent {
                    (NodeTasksState::Active, NodeTasksAction::Start)
                } else {
                    (state, NodeTasksAction::Nothing)
                },
                None => (state, NodeTasksAction::Nothing),
            },
        }
    } else {
        match state {
            NodeTasksState::Active => (NodeTasksState::Aborted, NodeTasksAction::Stop),
            _ => (state, NodeTasksAction::Nothing),
        }
    }
}

/// One orchestration of a node's tasks among the active nodes (see
/// [`orchestration_step`]); the leader is elected among `active_nodes`.
pub fn orchestrate(
    state: NodeTasksState,
    current_node: &Node,
    active_nodes: &[Node],
    heartbeat: Option<HeartbeatReading>,
) -> (next: (NodeTasksState, NodeTasksAction))
    requires
        active_nodes@.len() > 0,
    ensures
        exists|leader: Node|
            is_elected(active_nodes@, leader) && next == orchestration_step(
                state,
                current_node.id == leader.id,
                heartbeat,
            ),
{
    let leader = elect_leader(active_nodes);
    let is_leader = current_node.is_leader(&leader);
    let next = orchestrate_with_leadership(state, is_leader, heartbeat);
    assert(next == orchestration_step(state, current_node.id == leader.id, heartbeat));
    next
}

/// A running leader pauses its tasks only when the heartbeat is stale and the tasks
/// have run long enough; until they have, it keeps indexing whatever the heartbeat
/// says. A paused leader resumes only on a recent heartbeat.
pub proof fn lemma_leader_pauses_only_when_stale_and_started_long_enough(state: NodeTasksState, heartbeat: Option<HeartbeatReading>)
    ensures
        orchestration_step(state, true, heartbeat).1 == NodeTasksAction::Stop ==> state == NodeTasksState::Active
            && (heartbeat matches Some(h) && !h.is_recent && h.started_long_enough_ago),
        state == NodeTasksState::Active && (heartbeat matches Some(h) && !h.started_long_enough_ago) ==> orchestration_step(
            state,
            true,
            heartbeat,
        ) == (NodeTasksState::Active, NodeTasksAction::Nothing),
        state == NodeTasksState::Active && (heartbeat matches Some(h) && h.is_recent) ==> orchestration_step(
            state,
            true,
            heartbeat,
        ) == (NodeTasksState::Active, NodeTasksAction::Nothing),
        state == NodeTasksState::Active && (heartbeat matches Some(h) && !h.is_recent && h.started_long_enough_ago)
            ==> orchestration_step(state, true, heartbeat) == (NodeTasksState::InActive, NodeTasksAction::Stop),
        state == NodeTasksState::InActive ==> (orchestration_step(state, true, heartbeat).1 == NodeTasksAction::Start
            <==> (heartbeat matches Some(h) && h.is_recent)),
{
}

/// A node that does not lead never ends up running tasks, and it stops them exactly
/// when they were running.
pub proof fn lemma_non_leader_never_active(state: NodeTasksState, heartbeat: Option<HeartbeatReading>)
    ensures
        orchestration_step(state, false, heartbeat).0 != NodeTasksState::Active,
        (orchestration_step(state, false, heartbeat).1 == NodeTasksAction::Stop) == (state == NodeTasksState::Active),
{
}

/// The leader always ends up running its tasks unless a configured heartbeat lets
/// it pause: without an optimization it is active after every step.
pub proof fn lemma_leader_runs_without_optimization(state: NodeTasksState)
    requires
        state != NodeTasksState::InActive,
    ensures
        orchestration_step(state, true, None).0 == NodeTasksState::Active,
{
}

/// The tasks are started only from a state where they do not run, and stopped only
/// where they do.
pub proof fn lemma_actions_match_states(state: NodeTasksState, is_leader: bool, heartbeat: Option<HeartbeatReading>)
    ensures
        orchestration_step(state, is_leader, heartbeat).1 == NodeTasksAction::Start ==> state != NodeTasksState::Active
            && orchestration_step(state, is_leader, heartbeat).0 == NodeTasksState::Active,
        orchestration_step(state, is_leader, heartbeat).1 == NodeTasksAction::Stop ==> state == NodeTasksState::Active
            && orchestration_step(state, is_leader, heartbeat).0 != NodeTasksState::Active,
        orchestration_step(state, is_leader, heartbeat).1 == NodeTasksAction::Nothing ==> orchestration_step(
            state,
            is_leader,
            heartbeat,
        ).0 == state,
{
}

} // verus!

verus! {

/// How a finished subtask of a node task ended.
#[derive(Clone, Debug, PartialEq, Eq)]
pub enum SubtaskOutcome {
    /// It returned, which a subtask never should.
    Returned,
    /// It was cancelled.
    Cancelled,
    /// It failed, with the join error's text.
    Failed(String),
}

/// The error reported for a finished subtask, if any.
pub open spec fn subtask_error_text(name: Seq<char>, outcome: SubtaskOutcome) -> Option<Seq<char>> {
    match outcome {
        SubtaskOutcome::Returned => Some("Subtask `"@ + name + "` stopped unexpectedly"@),
        SubtaskOutcome::Cancelled => None,
        SubtaskOutcome::Failed(e) => Some("Subtask `"@ + name + "` failed: "@ + e@),
    }
}

/// The error reported for a finished subtask: it stopped unexpectedly or failed; a
/// cancelled one reports nothing.
pub fn subtask_error(name: &str, outcome: &SubtaskOutcome) -> (error: Option<String>)
    ensures
        match error {
            Some(e) => subtask_error_text(name@, *outcome) == Some(e@),
            None => subtask_error_text(name@, *outcome) is None,
        },
{
    match outcome {
        SubtaskOutcome::Returned => {
            let mut e = String::new();
            crate::text::push_str(&mut e, "Subtask `");
            crate::text::push_str(&mut e, name);
            crate::text::push_str(&mut e, "` stopped unexpectedly");
            Some(e)
        },
        SubtaskOutcome::Cancelled => None,
        SubtaskOutcome::Failed(message) => {
            let mut e = String::new();
            crate::text::push_str(&mut e, "Subtask `");
            crate::text::push_str(&mut e, name);
            crate::text::push_str(&mut e, "` failed: ");
            crate::text::push_str(&mut e, message.as_str());
            Some(e)
        },
    }
}

} // verus!

verus! {

/// When a leader may pause its tasks: after `optimize_after_in_secs` (typically the
/// time initial indexing takes), once the keep-active request has gone stale.
#[derive(Clone, Copy, Debug, PartialEq, Eq, Structural)]
pub struct OptimizationConfig {
    pub keep_node_active_request: KeepNodeActiveRequest,
    pub optimize_after_in_secs: u64,
}

impl OptimizationConfig {
    /// What the keep-active request says at `now_ms`, for tasks started at
    /// `started_at_in_secs` when it is `now_in_secs`.
    pub fn reading(&self, now_ms: u64, started_at_in_secs: u64, now_in_secs: u64) -> (reading: HeartbeatReading)
        requires
            now_ms >= self.keep_node_active_request.active_grace_period,
            now_in_secs >= started_at_in_secs,
        ensures
            reading.is_recent == (self.keep_node_active_request.last_refreshed_at > now_ms
                - self.keep_node_active_request.active_grace_period),
            reading.started_long_enough_ago == (now_in_secs - started_at_in_secs >= self.optimize_after_in_secs),
    {
        HeartbeatReading {
            is_recent: self.keep_node_active_request.is_recent(now_ms),
            started_long_enough_ago: started_n_seconds_ago(started_at_in_secs, now_in_secs, self.optimize_after_in_secs),
        }
    }
}

} // verus!
