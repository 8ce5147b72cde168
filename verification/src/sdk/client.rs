use vstd::prelude::*;

use crate::executor::ExecutorState;

verus! {

/// What a new session is created with.
pub struct SessionAttributes {
    pub id: String,
    pub application: String,
    pub slots: u32,
    pub common_data: Option<Vec<u8>>,
    pub min_instances: u32,
    pub max_instances: Option<u32>,
}

/// The schemas of an application's input, output and common data.
pub struct ApplicationSchema {
    pub input: Option<String>,
    pub output: Option<String>,
    pub common_data: Option<String>,
}

/// An executor as the cluster reports it.
pub struct Executor {
    pub id: String,
    pub state: ExecutorState,
    pub session_id: Option<String>,
    pub slots: u32,
    pub node: String,
}

/// Whether a node can take work.
#[derive(Debug, Clone, Copy, PartialEq, Eq, Structural)]
pub enum NodeState {
    Unknown,
    Ready,
    NotReady,
}

impl Default for NodeState {
    fn default() -> (r: Self)
        ensures
            r == NodeState::Unknown,
    {
        NodeState::Unknown
    }
}

impl NodeState {
    /// The state a wire code stands for: 1 ready, 2 not ready, any other
    /// code unknown.
    pub fn from_code(code: i32) -> (r: NodeState)
        ensures
            r == (if code == 1 {
                NodeState::Ready
            } else if code == 2 {
                NodeState::NotReady
            } else {
                NodeState::Unknown
            }),
    {
        if code == 1 {
            NodeState::Ready
        } else if code == 2 {
            NodeState::NotReady
        } else {
            NodeState::Unknown
        }
    }

    /// The wire code of the state.
    pub fn code(&self) -> (r: i32)
        ensures
            r == match *self {
                NodeState::Unknown => 0i32,
                NodeState::Ready => 1i32,
                NodeState::NotReady => 2i32,
            },
    {
        match self {
            NodeState::Unknown => 0,
            NodeState::Ready => 1,
            NodeState::NotReady => 2,
        }
    }
}

/// A node of the cluster: its names, state, capacity and platform.
pub struct Node {
    pub name: String,
    pub hostname: String,
    pub state: NodeState,
    pub cpu: u64,
    pub memory: u64,
    pub arch: String,
    pub os: String,
}

/// Where a task is in its life.
#[derive(Debug, Clone, Copy, PartialEq, Eq, Structural)]
pub enum TaskState {
    Pending,
    Running,
    Succeed,
    Failed,
    Cancelled,
}

impl Default for TaskState {
    fn default() -> (r: Self)
        ensures
            r == TaskState::Pending,
    {
        TaskState::Pending
    }
}

/// A task has ended: it succeeded, failed or was cancelled.
pub open spec fn spec_is_terminal(s: TaskState) -> bool {
    s == TaskState::Succeed || s == TaskState::Failed || s == TaskState::Cancelled
}

impl TaskState {
    pub fn is_terminal(&self) -> (r: bool)
        ensures
            r == spec_is_terminal(*self),
    {
        match self {
            TaskState::Succeed | TaskState::Failed | TaskState::Cancelled => true,
            _ => false,
        }
    }
}

/// Something that happened to a session or task: a code, a message and
/// when, in milliseconds since the epoch.
pub struct Event {
    pub code: i32,
    pub message: Option<String>,
    pub creation_time: i64,
}

/// A task of a session, with its input, output and events.
pub struct Task {
    pub id: String,
    pub ssn_id: String,
    pub state: TaskState,
    pub input: Option<Vec<u8>>,
    pub output: Option<Vec<u8>>,
    pub events: Vec<Event>,
}

impl Task {
    /// Whether the task has ended.
    pub fn is_completed(&self) -> (r: bool)
        ensures
            r == spec_is_terminal(self.state),
    {
        self.state.is_terminal()
    }

    pub fn is_succeed(&self) -> (r: bool)
        ensures
            r == (self.state == TaskState::Succeed),
    {
        self.state == TaskState::Succeed
    }

    pub fn is_failed(&self) -> (r: bool)
        ensures
            r == (self.state == TaskState::Failed),
    {
        self.state == TaskState::Failed
    }

    pub fn is_cancelled(&self) -> (r: bool)
        ensures
            r == (self.state == TaskState::Cancelled),
    {
        self.state == TaskState::Cancelled
    }
}

} // verus!
