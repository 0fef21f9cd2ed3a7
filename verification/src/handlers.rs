//! The three operations that the request layer drives: submit a task, ask
//! for a task's record, ask how many tasks wait.

use vstd::prelude::*;
use crate::models::CreateTaskRequest;
use crate::models::CreateTaskResponse;
use crate::models::GetStatusRequest;
use crate::models::GetStatusResponse;
use crate::models::GetTaskCountResponse;
use crate::server::ServerInfo;

verus! {

/// Trusted: `uuid::Uuid::new_v4`, written out as text. The result is drawn
/// at random, so nothing is claimed of it.
#[verifier::external_body]
fn new_task_id() -> (id: String) {
    uuid::Uuid::new_v4().to_string()
}

/// Submits a task under `id`: where the id is free, the task is recorded as
/// waiting and queued, and the answer carries the id; where it is in use,
/// nothing changes and there is no answer.
pub fn create_task_as(id: String, request: CreateTaskRequest, server: &mut ServerInfo) -> (response:
    Option<CreateTaskResponse>)
    requires
        old(server).wf(),
    ensures
        final(server).wf(),
        response is Some <==> old(server)@.can_submit(id@),
        response is Some ==> response->0.id@ == id@,
        response is Some ==> exists|now: Seq<char>|
            final(server)@ == #[trigger] old(server)@.submit(id@, request@, now),
        response is None ==> final(server)@ == old(server)@,
{
    let answer = id.clone();
    if server.submit_as(id, request) {
        Some(CreateTaskResponse { id: answer })
    } else {
        None
    }
}

/// Submits a task under a fresh random id. Whatever id was drawn, the
/// outcome is that of `create_task_as` for it: the task is recorded and
/// queued under the id, and the answer carries it, unless the id is in use.
/// So there is no answer only where some id is in use, and a server that
/// holds no record accepts every submission.
pub fn create_task(request: CreateTaskRequest, server: &mut ServerInfo) -> (response: Option<
    CreateTaskResponse,
>)
    requires
        old(server).wf(),
    ensures
        final(server).wf(),
        response is Some ==> old(server)@.can_submit(response->0.id@),
        response is Some ==> exists|now: Seq<char>|
            final(server)@ == #[trigger] old(server)@.submit(response->0.id@, request@, now),
        response is None ==> final(server)@ == old(server)@,
        response is None ==> exists|id: Seq<char>| #[trigger] old(server)@.records.contains_key(id),
{
    let id = new_task_id();
    let ghost drawn = id@;
    let response = create_task_as(id, request, server);
    proof {
        if response is None {
            assert(old(server)@.records.contains_key(drawn));
        }
    }
    response
}

/// The record of the task that the request names, or the not-found record.
pub fn get_status(request: GetStatusRequest, server: &ServerInfo) -> (response: GetStatusResponse)
    ensures
        response@ == server@.query(request.id@),
{
    match server.query_status(request.id.as_str()) {
        Some(record) => record,
        None => GetStatusResponse::new_error_status(),
    }
}

/// The number of tasks that wait for a worker.
pub fn get_task_count(server: &ServerInfo) -> (response: GetTaskCountResponse)
    ensures
        response.tasks == server@.pending(),
{
    GetTaskCountResponse { tasks: server.pending_count() }
}

} // verus!
