//! The values that cross the boundary of the engine: requests, responses and
//! the record that the status store keeps for each task.

use vstd::prelude::*;

verus! {

/// What a task's payload is: script text, or an encoded executable.
#[derive(Clone, Copy, Debug, PartialEq, Eq, Structural)]
pub enum TaskType {
    Python,
    Bin,
}

/// Where a task stands. `NotFound` answers a query for an unknown id and is
/// never stored.
#[derive(Clone, Copy, Debug, PartialEq, Eq, Structural)]
pub enum TaskStatusEnum {
    Waiting,
    Running,
    Success,
    Failed,
    NotFound,
}

/// Whether two texts hold the same characters.
pub fn same_text(a: &str, b: &str) -> (same: bool)
    ensures
        same == (a@ == b@),
{
    a.to_owned() == b.to_owned()
}

impl TaskType {
    /// The kind that a name on the wire stands for: `python` or `bin`.
    pub open spec fn named(name: Seq<char>) -> Option<TaskType> {
        if name == "python"@ {
            Some(TaskType::Python)
        } else if name == "bin"@ {
            Some(TaskType::Bin)
        } else {
            None
        }
    }

    /// The name of this kind on the wire.
    pub open spec fn name(self) -> Seq<char> {
        match self {
            TaskType::Python => "python"@,
            TaskType::Bin => "bin"@,
        }
    }

    /// Reads a kind from its name on the wire; any other name is refused.
    pub fn parse(name: &str) -> (kind: Option<TaskType>)
        ensures
            kind == TaskType::named(name@),
    {
        if same_text(name, "python") {
            Some(TaskType::Python)
        } else if same_text(name, "bin") {
            Some(TaskType::Bin)
        } else {
            None
        }
    }

    /// The name of this kind on the wire.
    pub fn as_str(&self) -> (name: &'static str)
        ensures
            name@ == self.name(),
    {
        match self {
            TaskType::Python => "python",
            TaskType::Bin => "bin",
        }
    }
}

/// Reading the name of a kind gives that kind back.
pub proof fn law_task_type_name_round_trip(kind: TaskType)
    ensures
        TaskType::named(kind.name()) == Some(kind),
{
    reveal_strlit("python");
    reveal_strlit("bin");
    assert("python"@.len() != "bin"@.len());
}

impl TaskStatusEnum {
    /// The name of this status on the wire.
    pub open spec fn name(self) -> Seq<char> {
        match self {
            TaskStatusEnum::Waiting => "WAIT"@,
            TaskStatusEnum::Running => "RUNNING"@,
            TaskStatusEnum::Success => "SUCCESS"@,
            TaskStatusEnum::Failed => "FAILED"@,
            TaskStatusEnum::NotFound => "NOTEXIST"@,
        }
    }

    /// The name of this status on the wire.
    pub fn as_str(&self) -> (name: &'static str)
        ensures
            name@ == self.name(),
    {
        match self {
            TaskStatusEnum::Waiting => "WAIT",
            TaskStatusEnum::Running => "RUNNING",
            TaskStatusEnum::Success => "SUCCESS",
            TaskStatusEnum::Failed => "FAILED",
            TaskStatusEnum::NotFound => "NOTEXIST",
        }
    }

    /// `Success` and `Failed` end a task's life.
    pub open spec fn terminal(self) -> bool {
        self == TaskStatusEnum::Success || self == TaskStatusEnum::Failed
    }

    /// The statuses a stored record may carry.
    pub open spec fn storable(self) -> bool {
        self != TaskStatusEnum::NotFound
    }

    /// A task moves from `a` to `b` in one step: `Waiting` to `Running`,
    /// `Running` to `Success` or `Failed`, and in no other way.
    pub open spec fn steps_to(self, next: TaskStatusEnum) -> bool {
        ||| self == TaskStatusEnum::Waiting && next == TaskStatusEnum::Running
        ||| self == TaskStatusEnum::Running && next.terminal()
    }

    pub fn is_terminal(self) -> (b: bool)
        ensures
            b == self.terminal(),
    {
        match self {
            TaskStatusEnum::Success => true,
            TaskStatusEnum::Failed => true,
            _ => false,
        }
    }
}

/// A request to run a task: its kind, the payload (script text, or base64 of
/// an executable) and the arguments handed to it.
#[derive(Clone, Debug)]
pub struct CreateTaskRequest {
    pub task_type: TaskType,
    pub file: String,
    pub args: String,
}

/// A request as a mathematical value.
pub struct RequestView {
    pub task_type: TaskType,
    pub file: Seq<char>,
    pub args: Seq<char>,
}

impl View for CreateTaskRequest {
    type V = RequestView;

    open spec fn view(&self) -> RequestView {
        RequestView { task_type: self.task_type, file: self.file@, args: self.args@ }
    }
}

impl CreateTaskRequest {
    pub fn new(task_type: TaskType, file: String, args: String) -> (request: CreateTaskRequest)
        ensures
            request@ == (RequestView { task_type, file: file@, args: args@ }),
    {
        CreateTaskRequest { task_type, file, args }
    }

    /// A copy with the same kind, payload and arguments.
    pub fn duplicate(&self) -> (copy: CreateTaskRequest)
        ensures
            copy@ == self@,
    {
        CreateTaskRequest {
            task_type: self.task_type,
            file: self.file.clone(),
            args: self.args.clone(),
        }
    }
}

/// A query for one task's record.
#[derive(Clone, Debug)]
pub struct GetStatusRequest {
    pub id: String,
}

/// A query for the number of queued tasks.
#[derive(Clone, Copy, Debug)]
pub struct GetTaskCountRequest;

/// The answer to a submission: the id under which the task is known.
#[derive(Clone, Debug)]
pub struct CreateTaskResponse {
    pub id: String,
}

/// The answer to a count query.
#[derive(Clone, Copy, Debug)]
pub struct GetTaskCountResponse {
    pub tasks: usize,
}

/// When a task was created, picked up and finished.
#[derive(Clone, Debug)]
pub struct MetaInformation {
    pub created_at: String,
    pub started_at: Option<String>,
    pub finished_at: Option<String>,
}

/// What a task wrote to its two output streams.
#[derive(Clone, Debug)]
pub struct GetStatusResult {
    pub stdout: String,
    pub stderr: Option<String>,
}

/// The record of one task.
#[derive(Clone, Debug)]
pub struct GetStatusResponse {
    pub status: TaskStatusEnum,
    pub meta: MetaInformation,
    pub result: GetStatusResult,
}

/// An optional string as an optional sequence of characters.
pub open spec fn text_of(s: Option<String>) -> Option<Seq<char>> {
    match s {
        Some(t) => Some(t@),
        None => None,
    }
}

/// A record as a mathematical value.
pub struct RecordView {
    pub status: TaskStatusEnum,
    pub created_at: Seq<char>,
    pub started_at: Option<Seq<char>>,
    pub finished_at: Option<Seq<char>>,
    pub stdout: Seq<char>,
    pub stderr: Option<Seq<char>>,
}

impl RecordView {
    /// The record of a task that has just been submitted.
    pub open spec fn waiting(created_at: Seq<char>) -> RecordView {
        RecordView {
            status: TaskStatusEnum::Waiting,
            created_at,
            started_at: None,
            finished_at: None,
            stdout: Seq::empty(),
            stderr: None,
        }
    }

    /// The answer for an id that no record is kept under.
    pub open spec fn not_found() -> RecordView {
        RecordView {
            status: TaskStatusEnum::NotFound,
            created_at: Seq::empty(),
            started_at: None,
            finished_at: None,
            stdout: Seq::empty(),
            stderr: None,
        }
    }

    /// This record once a worker has picked the task up at `now`.
    pub open spec fn started(self, now: Seq<char>) -> RecordView {
        RecordView { status: TaskStatusEnum::Running, started_at: Some(now), ..self }
    }

    /// This record once the task has ended at `now` with the given output.
    pub open spec fn finished(
        self,
        stdout: Seq<char>,
        stderr: Option<Seq<char>>,
        status: TaskStatusEnum,
        now: Seq<char>,
    ) -> RecordView {
        RecordView { status, finished_at: Some(now), stdout, stderr, ..self }
    }

    /// The times and outputs that go with each status: a waiting task has
    /// neither started nor finished and has no output, a running one has
    /// started only, an ended one has both times.
    pub open spec fn consistent(self) -> bool {
        match self.status {
            TaskStatusEnum::Waiting => {
                &&& self.started_at is None
                &&& self.finished_at is None
                &&& self.stdout == Seq::<char>::empty()
                &&& self.stderr is None
            },
            TaskStatusEnum::Running => {
                &&& self.started_at is Some
                &&& self.finished_at is None
                &&& self.stdout == Seq::<char>::empty()
                &&& self.stderr is None
            },
            TaskStatusEnum::Success | TaskStatusEnum::Failed => {
                &&& self.started_at is Some
                &&& self.finished_at is Some
            },
            TaskStatusEnum::NotFound => false,
        }
    }
}

impl View for GetStatusResponse {
    type V = RecordView;

    open spec fn view(&self) -> RecordView {
        RecordView {
            status: self.status,
            created_at: self.meta.created_at@,
            started_at: text_of(self.meta.started_at),
            finished_at: text_of(self.meta.finished_at),
            stdout: self.result.stdout@,
            stderr: text_of(self.result.stderr),
        }
    }
}

/// Trusted: `chrono::Utc::now`, written out as text. The result is the time
/// of the call, so nothing is claimed of it.
#[verifier::external_body]
pub(crate) fn utc_now() -> (now: String) {
    chrono::Utc::now().to_string()
}

impl GetStatusResponse {
    /// The record of a task submitted now.
    pub fn new() -> (record: GetStatusResponse)
        ensures
            exists|now: Seq<char>| record@ == RecordView::waiting(now),
    {
        let now = utc_now();
        GetStatusResponse::new_waiting(now)
    }

    /// The record of a task submitted at `created_at`.
    pub fn new_waiting(created_at: String) -> (record: GetStatusResponse)
        ensures
            record@ == RecordView::waiting(created_at@),
    {
        GetStatusResponse {
            status: TaskStatusEnum::Waiting,
            meta: MetaInformation { created_at, started_at: None, finished_at: None },
            result: GetStatusResult { stdout: String::new(), stderr: None },
        }
    }

    /// The answer for an unknown id.
    pub fn new_error_status() -> (record: GetStatusResponse)
        ensures
            record@ == RecordView::not_found(),
    {
        GetStatusResponse {
            status: TaskStatusEnum::NotFound,
            meta: MetaInformation { created_at: String::new(), started_at: None, finished_at: None },
            result: GetStatusResult { stdout: String::new(), stderr: None },
        }
    }

    /// Marks the record as picked up at `now`.
    pub fn mark_started(self, now: String) -> (record: GetStatusResponse)
        ensures
            record@ == self@.started(now@),
    {
        GetStatusResponse {
            status: TaskStatusEnum::Running,
            meta: MetaInformation {
                created_at: self.meta.created_at,
                started_at: Some(now),
                finished_at: self.meta.finished_at,
            },
            result: self.result,
        }
    }

    /// Marks the record as ended at `now` with the given output and outcome.
    pub fn mark_finished(
        self,
        stdout: String,
        stderr: Option<String>,
        status: TaskStatusEnum,
        now: String,
    ) -> (record: GetStatusResponse)
        ensures
            record@ == self@.finished(stdout@, text_of(stderr), status, now@),
    {
        GetStatusResponse {
            status,
            meta: MetaInformation {
                created_at: self.meta.created_at,
                started_at: self.meta.started_at,
                finished_at: Some(now),
            },
            result: GetStatusResult { stdout, stderr },
        }
    }
}

/// How the server is started: the size of the pool, and where it listens.
#[derive(Clone, Debug)]
pub struct ServerStartArguments {
    pub workers_count: usize,
    pub address: String,
    pub port: u16,
}

impl ServerStartArguments {
    /// The arguments that hold where none is given: one worker, on
    /// 127.0.0.1, port 8080.
    pub fn defaults() -> (arguments: ServerStartArguments)
        ensures
            arguments.workers_count == 1,
            arguments.address@ == "127.0.0.1"@,
            arguments.port == 8080,
    {
        ServerStartArguments { workers_count: 1, address: "127.0.0.1".to_owned(), port: 8080 }
    }
}

} // verus!
