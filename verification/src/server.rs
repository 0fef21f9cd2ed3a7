//! The engine: one status store and one worker pool, kept in step.

use vstd::prelude::*;
use crate::engine::lemma_begin_inv;
use crate::engine::lemma_complete_inv;
use crate::engine::lemma_init_inv;
use crate::engine::lemma_submit_inv;
use crate::engine::EngineState;
use crate::models::text_of;
use crate::models::utc_now;
use crate::models::CreateTaskRequest;
use crate::models::GetStatusResponse;
use crate::models::TaskStatusEnum;
use crate::status_store::TaskStatus;
use crate::worker_pool::init_task_queue;
use crate::worker_pool::TaskInfo;
use crate::worker_pool::WorkerPool;

verus! {

/// The state that a pool and a store make together.
pub open spec fn state_of(worker_pool: WorkerPool, task_status: TaskStatus) -> EngineState {
    EngineState {
        records: task_status@,
        queue: worker_pool.queue(),
        workers: worker_pool.workers(),
        working: worker_pool.working(),
    }
}

/// The engine.
pub struct ServerInfo {
    worker_pool: WorkerPool,
    task_status: TaskStatus,
}

impl View for ServerInfo {
    type V = EngineState;

    closed spec fn view(&self) -> EngineState {
        state_of(self.worker_pool, self.task_status)
    }
}

impl ServerInfo {
    /// The pool is sound and the state meets the invariant of the engine.
    pub closed spec fn wf(&self) -> bool {
        self.worker_pool.wf() && self@.inv()
    }

    /// An engine over a pool and a store that fit together.
    pub fn new(worker_pool: WorkerPool, task_status: TaskStatus) -> (server: ServerInfo)
        requires
            worker_pool.wf(),
            state_of(worker_pool, task_status).inv(),
        ensures
            server.wf(),
            server@ == state_of(worker_pool, task_status),
    {
        ServerInfo { worker_pool, task_status }
    }

    /// An engine with `workers_count` idle workers, an empty queue and an
    /// empty store.
    pub fn with_workers(workers_count: usize) -> (server: ServerInfo)
        ensures
            server.wf(),
            server@ == EngineState::init(workers_count as nat),
    {
        let (sender, receiver) = init_task_queue();
        let worker_pool = WorkerPool::new(workers_count, sender, receiver);
        let task_status = TaskStatus::new();
        proof {
            lemma_init_inv(workers_count as nat);
            assert(state_of(worker_pool, task_status) == EngineState::init(workers_count as nat));
        }
        ServerInfo { worker_pool, task_status }
    }

    /// Records a new task as waiting under `id`, created at `now`, and puts
    /// it at the end of the queue. The id must not be in use.
    pub fn submit_task(&mut self, id: String, request: CreateTaskRequest, now: String)
        requires
            old(self).wf(),
            old(self)@.can_submit(id@),
        ensures
            final(self).wf(),
            final(self)@ == old(self)@.submit(id@, request@, now@),
    {
        proof {
            lemma_submit_inv(self@, id@, request@, now@);
        }
        let key = id.clone();
        self.task_status.create(key, GetStatusResponse::new_waiting(now));
        self.worker_pool.do_task(TaskInfo::new(id, request));
    }

    /// Submits a task under `id`, created now, unless the id is in use; says
    /// whether it did.
    pub fn submit_as(&mut self, id: String, request: CreateTaskRequest) -> (accepted: bool)
        requires
            old(self).wf(),
        ensures
            final(self).wf(),
            accepted == old(self)@.can_submit(id@),
            accepted ==> exists|now: Seq<char>|
                final(self)@ == #[trigger] old(self)@.submit(id@, request@, now),
            !accepted ==> final(self)@ == old(self)@,
    {
        if self.task_status.contains(id.as_str()) {
            false
        } else {
            let now = utc_now();
            self.submit_task(id, request, now);
            true
        }
    }

    /// The record kept under `id`, if there is one.
    pub fn query_status(&self, id: &str) -> (found: Option<GetStatusResponse>)
        ensures
            match found {
                Some(record) => self@.records.contains_key(id@) && record@ == self@.query(id@),
                None => !self@.records.contains_key(id@),
            },
    {
        self.task_status.get(id)
    }

    /// The number of tasks that wait for a worker.
    pub fn pending_count(&self) -> (count: usize)
        ensures
            count == self@.pending(),
    {
        self.worker_pool.pending_count()
    }

    /// The number of tasks that run.
    pub fn running_count(&self) -> (count: usize)
        ensures
            count == self@.working,
    {
        self.worker_pool.currently_working_count()
    }

    /// The size of the pool.
    pub fn workers_count(&self) -> (count: usize)
        ensures
            count == self@.workers,
    {
        self.worker_pool.workers_count()
    }

    /// Hands the oldest waiting task to a worker and marks it as running
    /// since `now`; where no task waits or no worker is idle, nothing
    /// changes.
    pub fn begin_task(&mut self, now: String) -> (task: Option<TaskInfo>)
        requires
            old(self).wf(),
        ensures
            final(self).wf(),
            task is Some <==> old(self)@.can_begin(),
            task is Some ==> task->0@ == old(self)@.queue[0],
            task is Some ==> final(self)@ == old(self)@.begin(now@),
            task is None ==> final(self)@ == old(self)@,
    {
        proof {
            if self@.can_begin() {
                lemma_begin_inv(self@, now@);
            }
        }
        let task = self.worker_pool.take_task();
        match task {
            Some(info) => {
                self.task_status.start(info.id.as_str(), now);
                Some(info)
            },
            None => None,
        }
    }

    /// As `begin_task`, at the time of the call.
    pub fn begin_task_now(&mut self) -> (task: Option<TaskInfo>)
        requires
            old(self).wf(),
        ensures
            final(self).wf(),
            task is Some <==> old(self)@.can_begin(),
            task is Some ==> task->0@ == old(self)@.queue[0],
            task is Some ==> exists|now: Seq<char>| final(self)@ == #[trigger] old(self)@.begin(now),
            task is None ==> final(self)@ == old(self)@,
    {
        let now = utc_now();
        self.begin_task(now)
    }

    /// Records the outcome of the running task `id`, ended at `now`, and
    /// frees its worker.
    pub fn complete_task(
        &mut self,
        id: &str,
        stdout: String,
        stderr: Option<String>,
        status: TaskStatusEnum,
        now: String,
    )
        requires
            old(self).wf(),
            old(self)@.can_complete(id@, status),
        ensures
            final(self).wf(),
            final(self)@ == old(self)@.complete(id@, stdout@, text_of(stderr), status, now@),
    {
        proof {
            lemma_complete_inv(self@, id@, stdout@, text_of(stderr), status, now@);
        }
        self.task_status.finish(id, stdout, stderr, status, now);
        self.worker_pool.release_worker();
    }

    /// Records the outcome of task `id`, ended now, where that task runs and
    /// the outcome is an end; says whether it did.
    pub fn finish_task(
        &mut self,
        id: &str,
        stdout: String,
        stderr: Option<String>,
        status: TaskStatusEnum,
    ) -> (accepted: bool)
        requires
            old(self).wf(),
        ensures
            final(self).wf(),
            accepted == old(self)@.can_complete(id@, status),
            accepted ==> exists|now: Seq<char>|
                final(self)@ == #[trigger] old(self)@.complete(
                    id@,
                    stdout@,
                    text_of(stderr),
                    status,
                    now,
                ),
            !accepted ==> final(self)@ == old(self)@,
    {
        if !status.is_terminal() {
            return false;
        }
        match self.task_status.get(id) {
            Some(record) => {
                match record.status {
                    TaskStatusEnum::Running => {
                        let now = utc_now();
                        self.complete_task(id, stdout, stderr, status, now);
                        true
                    },
                    _ => false,
                }
            },
            None => false,
        }
    }
}

} // verus!
