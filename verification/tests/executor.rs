use base64::prelude::BASE64_STANDARD;
use base64::Engine;
use tasksolver::file_executer::conclude_execution;
use tasksolver::file_executer::plan_execution;
use tasksolver::file_executer::ExecutionOutcome;
use tasksolver::file_executer::ExecutionPlan;
use tasksolver::models::CreateTaskRequest;
use tasksolver::models::TaskType;
use tasksolver::worker_pool::TaskInfo;

/// What a run of the plan leaves behind when the process ends as given.
fn ended(plan: ExecutionPlan, success: bool, stdout: &str, stderr: &str) -> (String, Option<String>, String) {
    let outcome: ExecutionOutcome = match plan {
        ExecutionPlan::Fail { outcome } => outcome,
        _ => conclude_execution(success, stdout.to_string(), stderr.to_string()),
    };
    (outcome.stdout, outcome.stderr, outcome.status.as_str().to_string())
}

fn binary_plan(id: &str, script: &str, arguments: &str) -> ExecutionPlan {
    let request =
        CreateTaskRequest::new(TaskType::Bin, BASE64_STANDARD.encode(script), arguments.to_string());
    plan_execution(&TaskInfo::new(id.to_string(), request))
}

fn python_plan(code: &str, arguments: &str) -> ExecutionPlan {
    let request = CreateTaskRequest::new(TaskType::Python, code.to_string(), arguments.to_string());
    plan_execution(&TaskInfo::new(String::new(), request))
}

#[test]
fn test_echo() {
    let id = "fb85a3a0-7e7f-4a20-8ced-65b3b2475144";
    let plan = binary_plan(id, "echo Hello, world!", "");
    match &plan {
        ExecutionPlan::RunBinary { contents, file_path, execute_path, arguments } => {
            assert_eq!(contents, b"echo Hello, world!");
            assert_eq!(file_path, "fb85a3a0-7e7f-4a20-8ced-65b3b2475144.bin");
            assert_eq!(execute_path, "./fb85a3a0-7e7f-4a20-8ced-65b3b2475144.bin");
            assert_eq!(arguments, "");
        }
        other => panic!("unexpected plan: {:?}", other),
    }
    let (stdout, stderr, task_status) = ended(plan, true, "Hello, world!\n", "");
    assert_eq!(stdout, "Hello, world!\n");
    assert_eq!(stderr, None);
    assert_eq!(task_status, "SUCCESS".to_string());
}

#[test]
fn test_echo_with_special_symbol() {
    let id = "fb85a3a0-7e7f-4a20-8ced-65b3b2475145";
    let plan = binary_plan(id, "echo Hello,\n world!", "");
    match &plan {
        ExecutionPlan::RunBinary { contents, execute_path, .. } => {
            assert_eq!(contents, b"echo Hello,\n world!");
            assert_eq!(execute_path, "./fb85a3a0-7e7f-4a20-8ced-65b3b2475145.bin");
        }
        other => panic!("unexpected plan: {:?}", other),
    }
    let message = "./fb85a3a0-7e7f-4a20-8ced-65b3b2475145.bin: line 2: world!: command not found\n";
    let (stdout, stderr, task_status) = ended(plan, false, "Hello,\n", message);
    assert_eq!(stdout, "Hello,\n");
    assert_eq!(
        stderr,
        Some("./fb85a3a0-7e7f-4a20-8ced-65b3b2475145.bin: line 2: world!: command not found\n".to_string())
    );
    assert_eq!(task_status, "FAILED".to_string());
}

#[test]
fn test_print() {
    let plan = python_plan("print('Hello, world!')", "");
    match &plan {
        ExecutionPlan::RunScript { code, arguments } => {
            assert_eq!(code, "print('Hello, world!')");
            assert_eq!(arguments, "");
        }
        other => panic!("unexpected plan: {:?}", other),
    }
    let (stdout, stderr, task_status) = ended(plan, true, "Hello, world!\n", "");
    assert_eq!(stdout, "Hello, world!\n");
    assert_eq!(stderr, None);
    assert_eq!(task_status, "SUCCESS".to_string());
}

#[test]
fn test_cycle() {
    let python_code = "for i in range(5):
                            print(i)";
    let plan = python_plan(python_code, "");
    assert!(matches!(&plan, ExecutionPlan::RunScript { code, .. } if code == python_code));
    let (stdout, stderr, task_status) = ended(plan, true, "0\n1\n2\n3\n4\n", "");
    assert_eq!(stdout, "0\n1\n2\n3\n4\n");
    assert_eq!(stderr, None);
    assert_eq!(task_status, "SUCCESS".to_string());
}

#[test]
fn test_zero_division_error() {
    let plan = python_plan("print(1 / 0)", "");
    let trace = "Traceback (most recent call last):\n  File \"<string>\", line 1, in <module>\nZeroDivisionError: division by zero\n";
    let (stdout, stderr, task_status) = ended(plan, false, "", trace);
    assert_eq!(stdout, "");
    assert_eq!(stderr, Some("Traceback (most recent call last):\n  File \"<string>\", line 1, in <module>\nZeroDivisionError: division by zero\n".to_string()));
    assert_eq!(task_status, "FAILED".to_string());
}

#[test]
fn test_arguments() {
    let python_code = "import sys

print(sys.argv[1])";
    let plan = python_plan(python_code, "test_argument");
    match &plan {
        ExecutionPlan::RunScript { code, arguments } => {
            assert_eq!(code, python_code);
            assert_eq!(arguments, "test_argument");
        }
        other => panic!("unexpected plan: {:?}", other),
    }
    let (stdout, stderr, task_status) = ended(plan, true, "test_argument\n", "");
    assert_eq!(stdout, "test_argument\n");
    assert_eq!(stderr, None);
    assert_eq!(task_status, "SUCCESS".to_string());
}
