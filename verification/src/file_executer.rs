//! What a worker decides around the running of a task: what is to be run,
//! and what the end of the run means for the task.
//!
//! The payload of a binary task is decoded by the `base64` crate. Verus does
//! not read that crate; what this module relies on is stated in the
//! contracts of the items marked as trusted below.

use vstd::prelude::*;
use vstd::string::StringExecFns;
use base64::DecodeError;
use base64::Engine;
use crate::models::text_of;
use crate::models::TaskStatusEnum;
use crate::models::TaskType;
use crate::worker_pool::TaskInfo;
use crate::worker_pool::TaskInfoView;

verus! {

/// `base64::DecodeError`, opaque to the verifier.
#[verifier::external_type_specification]
#[verifier::external_body]
pub struct ExDecodeError(DecodeError);

/// The bytes that a text stands for in standard base64 with padding, where
/// it stands for any.
pub uninterp spec fn base64_standard_decoding(text: Seq<char>) -> Option<Seq<u8>>;

/// Trusted: `Engine::decode` of `base64::prelude::BASE64_STANDARD` gives the
/// bytes that the text stands for, or an error where it stands for none. The
/// result depends on the text alone.
#[verifier::external_body]
fn decode_standard(text: &str) -> (decoded: Result<Vec<u8>, DecodeError>)
    ensures
        decoded is Ok <==> base64_standard_decoding(text@) is Some,
        decoded is Ok ==> decoded->Ok_0@ == base64_standard_decoding(text@)->0,
{
    base64::prelude::BASE64_STANDARD.decode(text)
}

/// What a run left behind: the two outputs and the status.
#[derive(Clone, Debug)]
pub struct ExecutionOutcome {
    pub stdout: String,
    pub stderr: Option<String>,
    pub status: TaskStatusEnum,
}

/// An outcome as a mathematical value.
pub struct OutcomeView {
    pub stdout: Seq<char>,
    pub stderr: Option<Seq<char>>,
    pub status: TaskStatusEnum,
}

impl View for ExecutionOutcome {
    type V = OutcomeView;

    open spec fn view(&self) -> OutcomeView {
        OutcomeView { stdout: self.stdout@, stderr: text_of(self.stderr), status: self.status }
    }
}

/// What a worker is to do with a task.
#[derive(Debug)]
pub enum ExecutionPlan {
    /// Run the interpreter on the script, with the arguments.
    RunScript { code: String, arguments: String },
    /// Write the bytes to `file_path`, make the file executable, run
    /// `execute_path` with the arguments, and remove the file.
    RunBinary { contents: Vec<u8>, file_path: String, execute_path: String, arguments: String },
    /// Run nothing: the task has failed already.
    Fail { outcome: ExecutionOutcome },
}

/// A plan as a mathematical value.
pub enum PlanView {
    RunScript { code: Seq<char>, arguments: Seq<char> },
    RunBinary {
        contents: Seq<u8>,
        file_path: Seq<char>,
        execute_path: Seq<char>,
        arguments: Seq<char>,
    },
    Fail { outcome: OutcomeView },
}

impl View for ExecutionPlan {
    type V = PlanView;

    open spec fn view(&self) -> PlanView {
        match *self {
            ExecutionPlan::RunScript { code, arguments } => PlanView::RunScript {
                code: code@,
                arguments: arguments@,
            },
            ExecutionPlan::RunBinary { contents, file_path, execute_path, arguments } => {
                PlanView::RunBinary {
                    contents: contents@,
                    file_path: file_path@,
                    execute_path: execute_path@,
                    arguments: arguments@,
                }
            },
            ExecutionPlan::Fail { outcome } => PlanView::Fail { outcome: outcome@ },
        }
    }
}

/// The outcome of a run that ended: on success the standard output alone,
/// otherwise both outputs and the status `Failed`.
pub open spec fn outcome_of_exit(success: bool, stdout: Seq<char>, stderr: Seq<char>) -> OutcomeView {
    if success {
        OutcomeView { stdout, stderr: None, status: TaskStatusEnum::Success }
    } else {
        OutcomeView { stdout, stderr: Some(stderr), status: TaskStatusEnum::Failed }
    }
}

/// The outcome of a run that could not start: no output, the reason as the
/// error output, and the status `Failed`.
pub open spec fn outcome_of_failure(reason: Seq<char>) -> OutcomeView {
    OutcomeView { stdout: Seq::empty(), stderr: Some(reason), status: TaskStatusEnum::Failed }
}

/// The name of the file that holds the executable of task `id`.
pub open spec fn binary_file_path(id: Seq<char>) -> Seq<char> {
    id + ".bin"@
}

/// The path by which the executable of task `id` is run.
pub open spec fn binary_execute_path(id: Seq<char>) -> Seq<char> {
    "./"@ + id + ".bin"@
}

/// What is said of a payload that is no base64.
pub open spec fn invalid_payload_reason() -> Seq<char> {
    "binary payload is not valid base64"@
}

/// The plan for a task, given what its payload decodes to.
pub open spec fn plan_of(task: TaskInfoView, decoded: Option<Seq<u8>>) -> PlanView {
    match task.request.task_type {
        TaskType::Python => PlanView::RunScript {
            code: task.request.file,
            arguments: task.request.args,
        },
        TaskType::Bin => match decoded {
            Some(contents) => PlanView::RunBinary {
                contents,
                file_path: binary_file_path(task.id),
                execute_path: binary_execute_path(task.id),
                arguments: task.request.args,
            },
            None => PlanView::Fail { outcome: outcome_of_failure(invalid_payload_reason()) },
        },
    }
}

/// The outcome of a run that ended with the given exit and outputs.
pub fn conclude_execution(success: bool, stdout: String, stderr: String) -> (outcome: ExecutionOutcome)
    ensures
        outcome@ == outcome_of_exit(success, stdout@, stderr@),
        outcome.status.terminal(),
{
    if success {
        ExecutionOutcome { stdout, stderr: None, status: TaskStatusEnum::Success }
    } else {
        ExecutionOutcome { stdout, stderr: Some(stderr), status: TaskStatusEnum::Failed }
    }
}

/// The outcome of a run that could not start.
pub fn failed_to_start(reason: String) -> (outcome: ExecutionOutcome)
    ensures
        outcome@ == outcome_of_failure(reason@),
        outcome.status.terminal(),
{
    ExecutionOutcome { stdout: String::new(), stderr: Some(reason), status: TaskStatusEnum::Failed }
}

/// The file name and the run path of the executable of task `id`.
pub fn temporary_binary_paths(id: &str) -> (paths: (String, String))
    ensures
        paths.0@ == binary_file_path(id@),
        paths.1@ == binary_execute_path(id@),
{
    let mut file_path = String::from_str(id);
    file_path.append(".bin");
    let mut execute_path = String::from_str("./");
    execute_path.append(id);
    execute_path.append(".bin");
    (file_path, execute_path)
}

/// The bytes of a binary payload, where it is base64.
pub fn decode_binary_payload(file: &str) -> (decoded: Option<Vec<u8>>)
    ensures
        decoded is Some <==> base64_standard_decoding(file@) is Some,
        decoded is Some ==> decoded->0@ == base64_standard_decoding(file@)->0,
{
    match decode_standard(file) {
        Ok(contents) => Some(contents),
        Err(_) => None,
    }
}

/// The plan for a task whose payload decodes to `decoded`.
pub fn plan_with_payload(task: &TaskInfo, decoded: Option<Vec<u8>>) -> (plan: ExecutionPlan)
    ensures
        plan@ == plan_of(
            task@,
            match decoded {
                Some(contents) => Some(contents@),
                None => None,
            },
        ),
{
    match task.task_request.task_type {
        TaskType::Python => ExecutionPlan::RunScript {
            code: task.task_request.file.clone(),
            arguments: task.task_request.args.clone(),
        },
        TaskType::Bin => match decoded {
            Some(contents) => {
                let (file_path, execute_path) = temporary_binary_paths(task.id.as_str());
                ExecutionPlan::RunBinary {
                    contents,
                    file_path,
                    execute_path,
                    arguments: task.task_request.args.clone(),
                }
            },
            None => ExecutionPlan::Fail {
                outcome: failed_to_start(String::from_str("binary payload is not valid base64")),
            },
        },
    }
}

/// The plan for a task: a script is run as it is; a binary is run from its
/// decoded payload; a binary whose payload is no base64 fails without a run.
pub fn plan_execution(task: &TaskInfo) -> (plan: ExecutionPlan)
    ensures
        plan@ == plan_of(task@, base64_standard_decoding(task@.request.file)),
{
    match task.task_request.task_type {
        TaskType::Python => plan_with_payload(task, None),
        TaskType::Bin => {
            let decoded = decode_binary_payload(task.task_request.file.as_str());
            plan_with_payload(task, decoded)
        },
    }
}

/// The lines as one text, with a line feed between each two.
pub open spec fn joined_lines(lines: Seq<Seq<char>>) -> Seq<char>
    decreases lines.len(),
{
    if lines.len() == 0 {
        Seq::empty()
    } else if lines.len() == 1 {
        lines[0]
    } else {
        joined_lines(lines.drop_last()) + seq!['\n'] + lines.last()
    }
}

/// The lines of an output as one text, with a line feed between each two.
pub fn join_lines(lines: &Vec<String>) -> (text: String)
    ensures
        text@ == joined_lines(crate::mmv::texts(lines@)),
{
    let mut text = String::new();
    let ghost all = crate::mmv::texts(lines@);
    let mut i: usize = 0;
    assert(all.take(0) =~= Seq::<Seq<char>>::empty());
    while i < lines.len()
        invariant
            i <= lines.len(),
            all == crate::mmv::texts(lines@),
            text@ == joined_lines(all.take(i as int)),
        decreases lines.len() - i,
    {
        assert(all.take(i + 1).drop_last() == all.take(i as int));
        assert(all.take(i + 1).last() == lines@[i as int]@);
        if i > 0 {
            crate::text::push_char(&mut text, '\n');
        } else {
            assert(text@ =~= Seq::<char>::empty());
            assert(all.take(1)[0] == lines@[0]@);
        }
        text.append(lines[i].as_str());
        i = i + 1;
    }
    assert(all.take(all.len() as int) == all);
    text
}

} // verus!
