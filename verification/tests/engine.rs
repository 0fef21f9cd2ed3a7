use base64::prelude::BASE64_STANDARD;
use base64::Engine;
use tasksolver::file_executer::conclude_execution;
use tasksolver::file_executer::decode_binary_payload;
use tasksolver::file_executer::failed_to_start;
use tasksolver::file_executer::plan_execution;
use tasksolver::file_executer::temporary_binary_paths;
use tasksolver::file_executer::ExecutionPlan;
use tasksolver::handlers::create_task;
use tasksolver::handlers::create_task_as;
use tasksolver::handlers::get_status;
use tasksolver::handlers::get_task_count;
use tasksolver::models::CreateTaskRequest;
use tasksolver::models::GetStatusRequest;
use tasksolver::models::GetStatusResponse;
use tasksolver::models::ServerStartArguments;
use tasksolver::models::TaskStatusEnum;
use tasksolver::models::TaskType;
use tasksolver::server::ServerInfo;
use tasksolver::status_store::finish_running_task;
use tasksolver::status_store::init_task_status;
use tasksolver::status_store::start_running_task;
use tasksolver::status_store::TaskStatus;
use tasksolver::worker_pool::init_task_queue;
use tasksolver::worker_pool::TaskInfo;
use tasksolver::worker_pool::WorkerPool;

fn python_request(code: &str, arguments: &str) -> CreateTaskRequest {
    CreateTaskRequest::new(TaskType::Python, code.to_string(), arguments.to_string())
}

fn binary_request(script: &str, arguments: &str) -> CreateTaskRequest {
    CreateTaskRequest::new(TaskType::Bin, BASE64_STANDARD.encode(script), arguments.to_string())
}

#[test]
fn test_create_python_task() {
    let mut server = ServerInfo::with_workers(4);
    let request = python_request("print('Hello, world!')", "");
    let response = create_task(request, &mut server).unwrap();
    let status = server.query_status(&response.id);
    assert_eq!(status.is_some(), true);
    assert_eq!(status.unwrap().status, TaskStatusEnum::Waiting);
}

#[test]
fn test_create_binary_task() {
    let mut server = ServerInfo::with_workers(4);
    let request = binary_request("echo Hello, world!", "");
    let response = create_task(request, &mut server).unwrap();
    let status = server.query_status(&response.id);
    assert_eq!(status.is_some(), true);
    assert_eq!(status.unwrap().status, TaskStatusEnum::Waiting);
}

#[test]
fn test_get_status_of_python_task() {
    let mut server = ServerInfo::with_workers(4);
    let request = python_request("print('Hello, world!')", "");
    let response = create_task(request, &mut server).unwrap();
    let id = response.id;
    assert_eq!(server.query_status(&id).is_some(), true);
    let result = get_status(GetStatusRequest { id }, &server);
    assert_eq!(result.status, TaskStatusEnum::Waiting);
    assert_eq!(result.meta.started_at, None);
    assert_eq!(result.meta.finished_at, None);
    assert_eq!(result.result.stdout, "");
    assert_eq!(result.result.stderr, None);
    assert!(!result.meta.created_at.is_empty());
}

#[test]
fn test_get_status_of_not_exist_task() {
    let server = ServerInfo::with_workers(4);
    let id = "random-UUID".to_string();
    let result = get_status(GetStatusRequest { id }, &server);
    assert_eq!(result.status, TaskStatusEnum::NotFound);
    assert!(server.query_status("random-UUID").is_none());
}

#[test]
fn test_get_queue_count_of_one_task() {
    let mut server = ServerInfo::with_workers(4);
    let request = python_request("print('Hello, world!')", "");
    let response = create_task(request, &mut server).unwrap();
    assert_eq!(server.query_status(&response.id).is_some(), true);
    let result = get_task_count(&server);
    assert_eq!(result.tasks, 1);
}

#[test]
fn test_get_queue_count_with_no_task() {
    let server = ServerInfo::with_workers(4);
    let result = get_task_count(&server);
    assert_eq!(result.tasks, 0);
}

#[test]
fn test_get_queue_count_with_many_tasks() {
    let mut server = ServerInfo::with_workers(4);
    let _ = create_task(python_request("print('Hello, world!')", ""), &mut server).unwrap();
    let _ = create_task(binary_request("echo Hello, world!", ""), &mut server).unwrap();
    let _ = create_task(binary_request("bim bim", ""), &mut server).unwrap();
    let result = get_task_count(&server);
    assert_eq!(result.tasks, 3);
}

#[test]
fn three_tasks_on_one_worker_leave_two_pending() {
    let mut server = ServerInfo::with_workers(1);
    for name in ["a", "b", "c"] {
        let accepted = create_task_as(name.to_string(), python_request("pass", ""), &mut server);
        assert_eq!(accepted.unwrap().id, name);
    }
    assert_eq!(get_task_count(&server).tasks, 3);
    let first = server.begin_task("t1".to_string()).unwrap();
    assert_eq!(first.id, "a");
    assert_eq!(get_task_count(&server).tasks, 2);
    assert!(server.begin_task("t2".to_string()).is_none());
    assert_eq!(get_task_count(&server).tasks, 2);
    assert_eq!(server.query_status("a").unwrap().status, TaskStatusEnum::Running);
    assert_eq!(server.query_status("b").unwrap().status, TaskStatusEnum::Waiting);
}

#[test]
fn a_task_goes_from_waiting_to_running_to_its_end() {
    let mut server = ServerInfo::with_workers(2);
    let request = python_request("print(1)", "");
    server.submit_task("id-1".to_string(), request, "t0".to_string());
    let waiting = server.query_status("id-1").unwrap();
    assert_eq!(waiting.status, TaskStatusEnum::Waiting);
    assert_eq!(waiting.meta.created_at, "t0");

    let task = server.begin_task("t1".to_string()).unwrap();
    assert_eq!(task.id, "id-1");
    assert_eq!(task.task_request.file, "print(1)");
    let running = server.query_status("id-1").unwrap();
    assert_eq!(running.status, TaskStatusEnum::Running);
    assert_eq!(running.meta.started_at, Some("t1".to_string()));
    assert_eq!(running.meta.finished_at, None);
    assert_eq!(server.pending_count(), 0);

    server.complete_task("id-1", "1\n".to_string(), None, TaskStatusEnum::Success, "t2".to_string());
    let done = server.query_status("id-1").unwrap();
    assert_eq!(done.status, TaskStatusEnum::Success);
    assert_eq!(done.meta.created_at, "t0");
    assert_eq!(done.meta.started_at, Some("t1".to_string()));
    assert_eq!(done.meta.finished_at, Some("t2".to_string()));
    assert_eq!(done.result.stdout, "1\n");
    assert_eq!(done.result.stderr, None);
}

#[test]
fn an_outcome_is_taken_only_for_a_running_task() {
    let mut server = ServerInfo::with_workers(1);
    server.submit_task("x".to_string(), python_request("pass", ""), "t0".to_string());
    assert!(!server.finish_task("x", String::new(), None, TaskStatusEnum::Success));
    assert!(!server.finish_task("unknown", String::new(), None, TaskStatusEnum::Success));
    assert!(server.begin_task_now().is_some());
    assert!(!server.finish_task("x", String::new(), None, TaskStatusEnum::Running));
    assert!(server.finish_task("x", "out".to_string(), Some("err".to_string()), TaskStatusEnum::Failed));
    let record = server.query_status("x").unwrap();
    assert_eq!(record.status, TaskStatusEnum::Failed);
    assert_eq!(record.result.stderr, Some("err".to_string()));
    assert!(record.meta.finished_at.is_some());
    assert!(!server.finish_task("x", String::new(), None, TaskStatusEnum::Success));
    assert_eq!(server.query_status("x").unwrap().status, TaskStatusEnum::Failed);
}

#[test]
fn an_id_in_use_is_refused() {
    let mut server = ServerInfo::with_workers(1);
    assert!(server.submit_as("same".to_string(), python_request("pass", "")));
    assert!(!server.submit_as("same".to_string(), python_request("other", "")));
    assert_eq!(server.pending_count(), 1);
    assert!(create_task_as("same".to_string(), python_request("x", ""), &mut server).is_none());
}

#[test]
fn more_tasks_than_workers_all_end() {
    let workers = 2;
    let tasks = 5;
    let mut server = ServerInfo::with_workers(workers);
    let mut ids = Vec::new();
    for _ in 0..tasks {
        ids.push(create_task(python_request("pass", ""), &mut server).unwrap().id);
    }
    let mut running: Vec<String> = Vec::new();
    let mut steps = 0;
    loop {
        while let Some(task) = server.begin_task_now() {
            running.push(task.id);
            assert!(running.len() <= workers);
        }
        if running.is_empty() {
            break;
        }
        let id = running.remove(0);
        assert!(server.finish_task(&id, String::new(), None, TaskStatusEnum::Success));
        steps += 1;
    }
    assert_eq!(steps, tasks);
    for id in ids {
        assert_eq!(server.query_status(&id).unwrap().status, TaskStatusEnum::Success);
    }
    assert_eq!(server.pending_count(), 0);
}

#[test]
fn tasks_leave_the_queue_in_the_order_of_submission() {
    let mut server = ServerInfo::with_workers(3);
    for name in ["1", "2", "3"] {
        server.submit_task(name.to_string(), python_request(name, ""), "t".to_string());
    }
    assert_eq!(server.begin_task_now().unwrap().id, "1");
    assert_eq!(server.begin_task_now().unwrap().id, "2");
    assert_eq!(server.begin_task_now().unwrap().id, "3");
    assert!(server.begin_task_now().is_none());
}

#[test]
fn a_pool_and_a_store_make_a_server() {
    let (sender, receiver) = init_task_queue();
    let pool = WorkerPool::new(4, sender, receiver);
    let store = init_task_status();
    let server = ServerInfo::new(pool, store);
    assert_eq!(server.pending_count(), 0);
}

#[test]
fn the_pool_counts_and_hands_out() {
    let (sender, receiver) = async_channel::unbounded();
    let mut pool = WorkerPool::new(1, sender, receiver);
    assert_eq!(pool.workers_count(), 1);
    pool.do_task(TaskInfo::new("a".to_string(), python_request("x", "")));
    pool.do_task(TaskInfo::new("b".to_string(), python_request("y", "")));
    assert_eq!(pool.pending_count(), 2);
    assert_eq!(pool.take_task().unwrap().id, "a");
    assert_eq!(pool.currently_working_count(), 1);
    assert!(pool.take_task().is_none());
    pool.release_worker();
    assert_eq!(pool.take_task().unwrap().id, "b");
    assert_eq!(pool.pending_count(), 0);
}

#[test]
fn the_store_keeps_and_updates_records() {
    let mut store = TaskStatus::new();
    assert!(!store.contains("k"));
    assert!(store.get("k").is_none());
    store.create("k".to_string(), GetStatusResponse::new_waiting("t0".to_string()));
    assert!(store.contains("k"));
    assert_eq!(store.get("k").unwrap().status, TaskStatusEnum::Waiting);
    start_running_task("k", &mut store);
    let running = store.get("k").unwrap();
    assert_eq!(running.status, TaskStatusEnum::Running);
    assert!(running.meta.started_at.is_some());
    finish_running_task("k", &mut store, "out".to_string(), Some("err".to_string()), TaskStatusEnum::Failed);
    let done = store.get("k").unwrap();
    assert_eq!(done.status, TaskStatusEnum::Failed);
    assert_eq!(done.result.stdout, "out");
    assert_eq!(done.result.stderr, Some("err".to_string()));
    assert!(done.meta.finished_at.is_some());
    assert_eq!(done.meta.created_at, "t0");
    assert!(!store.contains("other"));
}

#[test]
fn a_new_record_waits() {
    let record = GetStatusResponse::new();
    assert_eq!(record.status, TaskStatusEnum::Waiting);
    assert!(!record.meta.created_at.is_empty());
    assert_eq!(record.meta.started_at, None);
    let missing = GetStatusResponse::new_error_status();
    assert_eq!(missing.status, TaskStatusEnum::NotFound);
}

#[test]
fn kinds_and_statuses_have_their_names() {
    assert_eq!(TaskType::parse("python"), Some(TaskType::Python));
    assert_eq!(TaskType::parse("bin"), Some(TaskType::Bin));
    assert_eq!(TaskType::parse("ruby"), None);
    assert_eq!(TaskType::parse(""), None);
    assert_eq!(TaskType::Python.as_str(), "python");
    assert_eq!(TaskType::Bin.as_str(), "bin");
    assert_eq!(TaskStatusEnum::Waiting.as_str(), "WAIT");
    assert_eq!(TaskStatusEnum::Running.as_str(), "RUNNING");
    assert_eq!(TaskStatusEnum::Success.as_str(), "SUCCESS");
    assert_eq!(TaskStatusEnum::Failed.as_str(), "FAILED");
    assert!(TaskStatusEnum::Success.is_terminal());
    assert!(TaskStatusEnum::Failed.is_terminal());
    assert!(!TaskStatusEnum::Running.is_terminal());
    assert!(!TaskStatusEnum::Waiting.is_terminal());
}

#[test]
fn the_default_arguments() {
    let arguments = ServerStartArguments::defaults();
    assert_eq!(arguments.workers_count, 1);
    assert_eq!(arguments.address, "127.0.0.1");
    assert_eq!(arguments.port, 8080);
}

#[test]
fn a_script_is_run_as_it_is() {
    let task = TaskInfo::new("id".to_string(), python_request("print(1 / 0)", "arg"));
    match plan_execution(&task) {
        ExecutionPlan::RunScript { code, arguments } => {
            assert_eq!(code, "print(1 / 0)");
            assert_eq!(arguments, "arg");
        }
        other => panic!("unexpected plan: {:?}", other),
    }
}

#[test]
fn a_binary_is_decoded_and_named_after_its_task() {
    let id = "fb85a3a0-7e7f-4a20-8ced-65b3b2475144";
    let task = TaskInfo::new(id.to_string(), binary_request("echo Hello, world!", "hi"));
    assert_eq!(task.task_request.file, "ZWNobyBIZWxsbywgd29ybGQh");
    match plan_execution(&task) {
        ExecutionPlan::RunBinary { contents, file_path, execute_path, arguments } => {
            assert_eq!(contents, b"echo Hello, world!".to_vec());
            assert_eq!(file_path, "fb85a3a0-7e7f-4a20-8ced-65b3b2475144.bin");
            assert_eq!(execute_path, "./fb85a3a0-7e7f-4a20-8ced-65b3b2475144.bin");
            assert_eq!(arguments, "hi");
        }
        other => panic!("unexpected plan: {:?}", other),
    }
}

#[test]
fn a_payload_that_is_no_base64_fails_without_a_run() {
    let request = CreateTaskRequest::new(TaskType::Bin, "not base64!".to_string(), String::new());
    let task = TaskInfo::new("id".to_string(), request);
    match plan_execution(&task) {
        ExecutionPlan::Fail { outcome } => {
            assert_eq!(outcome.status, TaskStatusEnum::Failed);
            assert_eq!(outcome.stdout, "");
            assert_eq!(outcome.stderr, Some("binary payload is not valid base64".to_string()));
        }
        other => panic!("unexpected plan: {:?}", other),
    }
    assert_eq!(decode_binary_payload("not base64!"), None);
    assert_eq!(decode_binary_payload("aGk="), Some(b"hi".to_vec()));
    assert_eq!(decode_binary_payload(""), Some(Vec::new()));
}

#[test]
fn the_exit_decides_the_outcome() {
    let good = conclude_execution(true, "Hello, world!\n".to_string(), "ignored".to_string());
    assert_eq!(good.stdout, "Hello, world!\n");
    assert_eq!(good.stderr, None);
    assert_eq!(good.status, TaskStatusEnum::Success);
    let bad = conclude_execution(false, "Hello,\n".to_string(), "line 2: world!: command not found\n".to_string());
    assert_eq!(bad.stdout, "Hello,\n");
    assert_eq!(bad.stderr, Some("line 2: world!: command not found\n".to_string()));
    assert_eq!(bad.status, TaskStatusEnum::Failed);
    let unstarted = failed_to_start("no such file".to_string());
    assert_eq!(unstarted.stdout, "");
    assert_eq!(unstarted.stderr, Some("no such file".to_string()));
    assert_eq!(unstarted.status, TaskStatusEnum::Failed);
    assert_eq!(temporary_binary_paths("x"), ("x.bin".to_string(), "./x.bin".to_string()));
}

#[test]
fn a_binary_that_prints_its_argument_succeeds() {
    let mut server = ServerInfo::with_workers(1);
    let request = binary_request("#!/bin/sh\necho \"$1\"\n", "hi");
    let id = create_task(request, &mut server).unwrap().id;
    let task = server.begin_task_now().unwrap();
    assert_eq!(task.id, id);
    let arguments = match plan_execution(&task) {
        ExecutionPlan::RunBinary { contents, arguments, execute_path, .. } => {
            assert_eq!(contents, b"#!/bin/sh\necho \"$1\"\n".to_vec());
            assert_eq!(execute_path, format!("./{}.bin", id));
            arguments
        }
        other => panic!("unexpected plan: {:?}", other),
    };
    assert_eq!(arguments, "hi");
    let outcome = conclude_execution(true, format!("{}\n", arguments), String::new());
    assert!(server.finish_task(&id, outcome.stdout, outcome.stderr, outcome.status));
    let record = server.query_status(&id).unwrap();
    assert_eq!(record.status, TaskStatusEnum::Success);
    assert!(record.result.stdout.contains("hi"));
    assert_eq!(record.result.stderr, None);
}

#[test]
fn a_script_that_divides_by_zero_fails() {
    let mut server = ServerInfo::with_workers(1);
    let id = create_task(python_request("print(1 / 0)", ""), &mut server).unwrap().id;
    let task = server.begin_task_now().unwrap();
    assert!(matches!(plan_execution(&task), ExecutionPlan::RunScript { .. }));
    let outcome = conclude_execution(
        false,
        String::new(),
        "Traceback (most recent call last):\n  File \"<string>\", line 1, in <module>\nZeroDivisionError: division by zero\n".to_string(),
    );
    assert!(server.finish_task(&id, outcome.stdout, outcome.stderr, outcome.status));
    let record = server.query_status(&id).unwrap();
    assert_eq!(record.status, TaskStatusEnum::Failed);
    assert!(!record.result.stderr.unwrap().is_empty());
    assert_eq!(record.result.stdout, "");
}

#[test]
fn a_task_whose_payload_cannot_be_decoded_ends_as_failed() {
    let mut server = ServerInfo::with_workers(1);
    let request = CreateTaskRequest::new(TaskType::Bin, "%%%".to_string(), String::new());
    let id = create_task(request, &mut server).unwrap().id;
    assert_eq!(server.query_status(&id).unwrap().status, TaskStatusEnum::Waiting);
    let task = server.begin_task_now().unwrap();
    let outcome = match plan_execution(&task) {
        ExecutionPlan::Fail { outcome } => outcome,
        other => panic!("unexpected plan: {:?}", other),
    };
    assert!(server.finish_task(&id, outcome.stdout, outcome.stderr, outcome.status));
    let record = server.query_status(&id).unwrap();
    assert_eq!(record.status, TaskStatusEnum::Failed);
    assert_eq!(record.result.stdout, "");
    assert!(record.result.stderr.is_some());
}

#[test]
fn fresh_identifiers_differ() {
    let mut server = ServerInfo::with_workers(1);
    let a = create_task(python_request("pass", ""), &mut server).unwrap().id;
    let b = create_task(python_request("pass", ""), &mut server).unwrap().id;
    assert_ne!(a, b);
    assert!(!a.is_empty());
}

#[test]
fn lines_are_joined_with_line_feeds() {
    let lines = vec!["1 2 3".to_string(), "Hello".to_string(), String::new()];
    assert_eq!(tasksolver::file_executer::join_lines(&lines), "1 2 3\nHello\n");
    assert_eq!(tasksolver::file_executer::join_lines(&Vec::new()), "");
    assert_eq!(tasksolver::file_executer::join_lines(&vec!["x".to_string()]), "x");
}

#[test]
fn the_server_counts_its_workers() {
    let mut server = ServerInfo::with_workers(2);
    assert_eq!(server.workers_count(), 2);
    assert_eq!(server.running_count(), 0);
    server.submit_task("a".to_string(), python_request("pass", ""), "t".to_string());
    let _ = server.begin_task_now();
    assert_eq!(server.running_count(), 1);
    assert!(server.finish_task("a", String::new(), None, TaskStatusEnum::Success));
    assert_eq!(server.running_count(), 0);
}

#[test]
fn a_server_without_records_accepts_every_submission() {
    for _ in 0..20 {
        let mut server = ServerInfo::with_workers(1);
        let response = create_task(python_request("pass", ""), &mut server);
        let id = response.unwrap().id;
        assert_eq!(server.pending_count(), 1);
        assert_eq!(server.query_status(&id).unwrap().status, TaskStatusEnum::Waiting);
    }
}
