//! The engine as a state machine over mathematical values: the records, the
//! queue and the workers, the three steps that change them, and what holds
//! of every state that the steps can reach.

use vstd::prelude::*;
use crate::models::RecordView;
use crate::models::RequestView;
use crate::models::TaskStatusEnum;
use crate::worker_pool::TaskInfoView;

verus! {

/// The state of the engine.
pub struct EngineState {
    /// The record of every task ever submitted, by id.
    pub records: Map<Seq<char>, RecordView>,
    /// The tasks that wait for a worker, oldest first.
    pub queue: Seq<TaskInfoView>,
    /// The size of the pool.
    pub workers: nat,
    /// The number of workers that hold a task.
    pub working: nat,
}

/// What a worker does: pick the oldest waiting task up, or hand in the
/// outcome of the task it holds.
pub enum WorkerStep {
    Begin { now: Seq<char> },
    Complete {
        id: Seq<char>,
        stdout: Seq<char>,
        stderr: Option<Seq<char>>,
        status: TaskStatusEnum,
        now: Seq<char>,
    },
}

impl EngineState {
    /// The state before any task was submitted.
    pub open spec fn init(workers: nat) -> EngineState {
        EngineState { records: Map::empty(), queue: Seq::empty(), workers, working: 0 }
    }

    /// Whether a record with this status is kept under `id`.
    pub open spec fn has_status(self, id: Seq<char>, status: TaskStatusEnum) -> bool {
        self.records.contains_key(id) && self.records[id].status == status
    }

    /// The ids of the tasks with a given status.
    pub open spec fn ids_with(self, status: TaskStatusEnum) -> Set<Seq<char>> {
        Set::new(|id: Seq<char>| self.has_status(id, status))
    }

    /// The ids in the queue, oldest first.
    pub open spec fn queued_ids(self) -> Seq<Seq<char>> {
        Seq::new(self.queue.len(), |i: int| self.queue[i].id)
    }

    /// What holds of every reachable state: each record is consistent, the
    /// queue holds exactly the waiting tasks, each once, and the busy workers
    /// are as many as the running tasks and no more than the pool has.
    pub open spec fn inv(self) -> bool {
        &&& self.records.dom().finite()
        &&& forall|id: Seq<char>| #[trigger]
            self.records.contains_key(id) ==> self.records[id].consistent()
        &&& forall|i: int|
            0 <= i < self.queue.len() ==> self.has_status(
                (#[trigger] self.queue[i]).id,
                TaskStatusEnum::Waiting,
            )
        &&& forall|i: int, j: int|
            0 <= i < j < self.queue.len() ==> (#[trigger] self.queue[i]).id != (
            #[trigger] self.queue[j]).id
        &&& forall|id: Seq<char>| #[trigger]
            self.has_status(id, TaskStatusEnum::Waiting) ==> exists|i: int|
                0 <= i < self.queue.len() && (#[trigger] self.queue[i]).id == id
        &&& self.working == self.ids_with(TaskStatusEnum::Running).len()
        &&& self.working <= self.workers
    }

    /// The answer to a query: the record, or the not-found record.
    pub open spec fn query(self, id: Seq<char>) -> RecordView {
        if self.records.contains_key(id) {
            self.records[id]
        } else {
            RecordView::not_found()
        }
    }

    /// The number of tasks that wait for a worker.
    pub open spec fn pending(self) -> nat {
        self.queue.len()
    }

    /// A task can be submitted under an id that is not in use.
    pub open spec fn can_submit(self, id: Seq<char>) -> bool {
        !self.records.contains_key(id)
    }

    /// The state after a submission: a waiting record, and the task at the
    /// end of the queue.
    pub open spec fn submit(self, id: Seq<char>, request: RequestView, now: Seq<char>) -> EngineState {
        EngineState {
            records: self.records.insert(id, RecordView::waiting(now)),
            queue: self.queue.push(TaskInfoView { id, request }),
            ..self
        }
    }

    /// A worker can pick a task up where one waits and a worker is idle.
    pub open spec fn can_begin(self) -> bool {
        self.queue.len() > 0 && self.working < self.workers
    }

    /// The state after a worker has picked the oldest waiting task up.
    pub open spec fn begin(self, now: Seq<char>) -> EngineState {
        let id = self.queue[0].id;
        EngineState {
            records: self.records.insert(id, self.records[id].started(now)),
            queue: self.queue.drop_first(),
            working: self.working + 1,
            ..self
        }
    }

    /// A worker can hand in an outcome for a task that runs.
    pub open spec fn can_complete(self, id: Seq<char>, status: TaskStatusEnum) -> bool {
        self.has_status(id, TaskStatusEnum::Running) && status.terminal()
    }

    /// The state after a worker has handed the outcome of a task in.
    pub open spec fn complete(
        self,
        id: Seq<char>,
        stdout: Seq<char>,
        stderr: Option<Seq<char>>,
        status: TaskStatusEnum,
        now: Seq<char>,
    ) -> EngineState {
        EngineState {
            records: self.records.insert(id, self.records[id].finished(stdout, stderr, status, now)),
            working: (self.working - 1) as nat,
            ..self
        }
    }

    /// Whether a worker can take this step now.
    pub open spec fn enabled(self, step: WorkerStep) -> bool {
        match step {
            WorkerStep::Begin { .. } => self.can_begin(),
            WorkerStep::Complete { id, status, .. } => self.can_complete(id, status),
        }
    }

    /// The state after a worker's step.
    pub open spec fn apply(self, step: WorkerStep) -> EngineState {
        match step {
            WorkerStep::Begin { now } => self.begin(now),
            WorkerStep::Complete { id, stdout, stderr, status, now } => self.complete(
                id,
                stdout,
                stderr,
                status,
                now,
            ),
        }
    }

    /// Whether the workers can take these steps one after the other.
    pub open spec fn can_run(self, steps: Seq<WorkerStep>) -> bool
        decreases steps.len(),
    {
        if steps.len() == 0 {
            true
        } else {
            self.enabled(steps[0]) && self.apply(steps[0]).can_run(steps.drop_first())
        }
    }

    /// The state after the workers have taken these steps.
    pub open spec fn run(self, steps: Seq<WorkerStep>) -> EngineState
        decreases steps.len(),
    {
        if steps.len() == 0 {
            self
        } else {
            self.apply(steps[0]).run(steps.drop_first())
        }
    }

    /// The number of steps that the workers still owe: two for each waiting
    /// task, one for each running task.
    pub open spec fn steps_owed(self) -> nat {
        2 * self.ids_with(TaskStatusEnum::Waiting).len() + self.ids_with(
            TaskStatusEnum::Running,
        ).len()
    }

    /// Whether every task has ended.
    pub open spec fn all_ended(self) -> bool {
        forall|id: Seq<char>| #[trigger]
            self.records.contains_key(id) ==> self.records[id].status.terminal()
    }

    /// Whether `next` differs from this state by one step: a submission, or a
    /// step of a worker.
    pub open spec fn steps_to(self, next: EngineState) -> bool {
        ||| exists|id: Seq<char>, request: RequestView, now: Seq<char>|
            self.can_submit(id) && next == #[trigger] self.submit(id, request, now)
        ||| exists|step: WorkerStep| self.enabled(step) && next == #[trigger] self.apply(step)
    }
}

/// The sets of ids by status are finite where the records are.
pub proof fn lemma_ids_finite(s: EngineState, status: TaskStatusEnum)
    requires
        s.records.dom().finite(),
    ensures
        s.ids_with(status).finite(),
        s.ids_with(status).subset_of(s.records.dom()),
{
    vstd::set_lib::lemma_len_subset(s.ids_with(status), s.records.dom());
}

/// The state before any submission meets the invariant.
pub proof fn lemma_init_inv(workers: nat)
    ensures
        EngineState::init(workers).inv(),
        EngineState::init(workers).pending() == 0,
{
    let s = EngineState::init(workers);
    assert(s.ids_with(TaskStatusEnum::Running) =~= Set::empty());
}

/// A submission keeps the invariant; it adds one waiting task and touches
/// no running one.
pub proof fn lemma_submit_inv(s: EngineState, id: Seq<char>, request: RequestView, now: Seq<char>)
    requires
        s.inv(),
        s.can_submit(id),
    ensures
        s.submit(id, request, now).inv(),
        s.submit(id, request, now).ids_with(TaskStatusEnum::Waiting) == s.ids_with(
            TaskStatusEnum::Waiting,
        ).insert(id),
        !s.ids_with(TaskStatusEnum::Waiting).contains(id),
        s.submit(id, request, now).ids_with(TaskStatusEnum::Running) == s.ids_with(
            TaskStatusEnum::Running,
        ),
{
    let t = s.submit(id, request, now);
    assert(t.ids_with(TaskStatusEnum::Running) =~= s.ids_with(TaskStatusEnum::Running));
    assert(t.ids_with(TaskStatusEnum::Waiting) =~= s.ids_with(TaskStatusEnum::Waiting).insert(id));
    assert forall|i: int| 0 <= i < t.queue.len() implies t.has_status(
        (#[trigger] t.queue[i]).id,
        TaskStatusEnum::Waiting,
    ) by {
        if i < s.queue.len() {
            assert(t.queue[i] == s.queue[i]);
            assert(s.has_status(s.queue[i].id, TaskStatusEnum::Waiting));
        }
    }
    assert forall|i: int, j: int| 0 <= i < j < t.queue.len() implies (#[trigger] t.queue[i]).id != (
    #[trigger] t.queue[j]).id by {
        assert(t.queue[i] == s.queue[i]);
        assert(s.has_status(s.queue[i].id, TaskStatusEnum::Waiting));
        if j < s.queue.len() {
            assert(t.queue[j] == s.queue[j]);
        }
    }
    assert forall|other: Seq<char>| #[trigger]
        t.has_status(other, TaskStatusEnum::Waiting) implies exists|i: int|
        0 <= i < t.queue.len() && (#[trigger] t.queue[i]).id == other by {
        if other == id {
            assert(t.queue[s.queue.len() as int].id == id);
        } else {
            assert(s.has_status(other, TaskStatusEnum::Waiting));
            let i = choose|i: int| 0 <= i < s.queue.len() && (#[trigger] s.queue[i]).id == other;
            assert(t.queue[i] == s.queue[i]);
        }
    }
}

/// Picking the oldest waiting task up keeps the invariant; the task leaves
/// the waiting ones and joins the running ones.
pub proof fn lemma_begin_inv(s: EngineState, now: Seq<char>)
    requires
        s.inv(),
        s.can_begin(),
    ensures
        s.begin(now).inv(),
        s.ids_with(TaskStatusEnum::Waiting).contains(s.queue[0].id),
        !s.ids_with(TaskStatusEnum::Running).contains(s.queue[0].id),
        s.begin(now).ids_with(TaskStatusEnum::Waiting) == s.ids_with(
            TaskStatusEnum::Waiting,
        ).remove(s.queue[0].id),
        s.begin(now).ids_with(TaskStatusEnum::Running) == s.ids_with(
            TaskStatusEnum::Running,
        ).insert(s.queue[0].id),
{
    let t = s.begin(now);
    let id = s.queue[0].id;
    assert(s.has_status(s.queue[0].id, TaskStatusEnum::Waiting));
    lemma_ids_finite(s, TaskStatusEnum::Running);
    assert(t.ids_with(TaskStatusEnum::Running) =~= s.ids_with(TaskStatusEnum::Running).insert(id));
    assert(t.ids_with(TaskStatusEnum::Waiting) =~= s.ids_with(TaskStatusEnum::Waiting).remove(id));
    assert forall|i: int| 0 <= i < t.queue.len() implies t.has_status(
        (#[trigger] t.queue[i]).id,
        TaskStatusEnum::Waiting,
    ) by {
        assert(t.queue[i] == s.queue[i + 1]);
        assert(s.has_status(s.queue[i + 1].id, TaskStatusEnum::Waiting));
        assert(s.queue[0].id != s.queue[i + 1].id);
    }
    assert forall|i: int, j: int| 0 <= i < j < t.queue.len() implies (#[trigger] t.queue[i]).id != (
    #[trigger] t.queue[j]).id by {
        assert(t.queue[i] == s.queue[i + 1]);
        assert(t.queue[j] == s.queue[j + 1]);
    }
    assert forall|other: Seq<char>| #[trigger]
        t.has_status(other, TaskStatusEnum::Waiting) implies exists|i: int|
        0 <= i < t.queue.len() && (#[trigger] t.queue[i]).id == other by {
        assert(other != id);
        assert(s.has_status(other, TaskStatusEnum::Waiting));
        let i = choose|i: int| 0 <= i < s.queue.len() && (#[trigger] s.queue[i]).id == other;
        assert(i > 0);
        assert(t.queue[i - 1] == s.queue[i]);
    }
}

/// Handing an outcome in keeps the invariant; the task leaves the running
/// ones, and the waiting ones stay as they are.
pub proof fn lemma_complete_inv(
    s: EngineState,
    id: Seq<char>,
    stdout: Seq<char>,
    stderr: Option<Seq<char>>,
    status: TaskStatusEnum,
    now: Seq<char>,
)
    requires
        s.inv(),
        s.can_complete(id, status),
    ensures
        s.complete(id, stdout, stderr, status, now).inv(),
        s.working > 0,
        s.ids_with(TaskStatusEnum::Running).contains(id),
        s.complete(id, stdout, stderr, status, now).ids_with(TaskStatusEnum::Waiting)
            == s.ids_with(TaskStatusEnum::Waiting),
        s.complete(id, stdout, stderr, status, now).ids_with(TaskStatusEnum::Running)
            == s.ids_with(TaskStatusEnum::Running).remove(id),
{
    let t = s.complete(id, stdout, stderr, status, now);
    lemma_ids_finite(s, TaskStatusEnum::Running);
    assert(s.ids_with(TaskStatusEnum::Running).contains(id));
    assert(t.ids_with(TaskStatusEnum::Running) =~= s.ids_with(TaskStatusEnum::Running).remove(id));
    assert(t.ids_with(TaskStatusEnum::Waiting) =~= s.ids_with(TaskStatusEnum::Waiting));
    assert forall|i: int| 0 <= i < t.queue.len() implies t.has_status(
        (#[trigger] t.queue[i]).id,
        TaskStatusEnum::Waiting,
    ) by {
        assert(s.has_status(s.queue[i].id, TaskStatusEnum::Waiting));
    }
    assert forall|other: Seq<char>| #[trigger]
        t.has_status(other, TaskStatusEnum::Waiting) implies exists|i: int|
        0 <= i < t.queue.len() && (#[trigger] t.queue[i]).id == other by {
        assert(s.has_status(other, TaskStatusEnum::Waiting));
    }
}

/// A query right after a submission finds the task waiting: it is never
/// answered with the not-found record.
pub proof fn law_submitted_task_is_waiting(
    s: EngineState,
    id: Seq<char>,
    request: RequestView,
    now: Seq<char>,
)
    requires
        s.inv(),
        s.can_submit(id),
    ensures
        s.submit(id, request, now).query(id) == RecordView::waiting(now),
        s.submit(id, request, now).query(id).status == TaskStatusEnum::Waiting,
{
}

/// One step never deletes a record, creates records only as waiting ones,
/// moves a task's status only from waiting to running or from running to an
/// end, and leaves the record of an ended task as it is.
pub proof fn law_status_progresses(s: EngineState, t: EngineState)
    requires
        s.inv(),
        s.steps_to(t),
    ensures
        t.inv(),
        forall|id: Seq<char>| #[trigger]
            s.records.contains_key(id) ==> t.records.contains_key(id) && (t.records[id].status
                == s.records[id].status || s.records[id].status.steps_to(t.records[id].status)),
        forall|id: Seq<char>| #[trigger]
            s.records.contains_key(id) && s.records[id].status.terminal() ==> t.records[id]
                == s.records[id],
        forall|id: Seq<char>| #[trigger]
            t.records.contains_key(id) && !s.records.contains_key(id) ==> t.records[id].status
                == TaskStatusEnum::Waiting,
{
    if exists|id: Seq<char>, request: RequestView, now: Seq<char>|
        s.can_submit(id) && t == #[trigger] s.submit(id, request, now) {
        let (id, request, now) = choose|id: Seq<char>, request: RequestView, now: Seq<char>|
            s.can_submit(id) && t == #[trigger] s.submit(id, request, now);
        lemma_submit_inv(s, id, request, now);
    } else {
        let step = choose|step: WorkerStep| s.enabled(step) && t == #[trigger] s.apply(step);
        match step {
            WorkerStep::Begin { now } => {
                lemma_begin_inv(s, now);
                assert(s.has_status(s.queue[0].id, TaskStatusEnum::Waiting));
            },
            WorkerStep::Complete { id, stdout, stderr, status, now } => {
                lemma_complete_inv(s, id, stdout, stderr, status, now);
            },
        }
    }
}

/// The number of pending tasks is the number of tasks that were submitted
/// and that no worker has picked up yet.
pub proof fn law_pending_counts_waiting(s: EngineState)
    requires
        s.inv(),
    ensures
        s.pending() == s.ids_with(TaskStatusEnum::Waiting).len(),
{
    let ids = s.queued_ids();
    assert forall|i: int, j: int| 0 <= i < ids.len() && 0 <= j < ids.len() && i != j implies ids[i]
        != ids[j] by {
        if i < j {
            assert(s.queue[i].id != s.queue[j].id);
        } else {
            assert(s.queue[j].id != s.queue[i].id);
        }
    }
    assert(ids.no_duplicates());
    assert forall|id: Seq<char>| ids.to_set().contains(id) <==> s.ids_with(
        TaskStatusEnum::Waiting,
    ).contains(id) by {
        if ids.to_set().contains(id) {
            let i = choose|i: int| 0 <= i < ids.len() && ids[i] == id;
            assert(s.has_status(s.queue[i].id, TaskStatusEnum::Waiting));
        }
        if s.has_status(id, TaskStatusEnum::Waiting) {
            let i = choose|i: int| 0 <= i < s.queue.len() && (#[trigger] s.queue[i]).id == id;
            assert(ids[i] == id);
        }
    }
    assert(ids.to_set() =~= s.ids_with(TaskStatusEnum::Waiting));
    ids.unique_seq_to_set();
}

/// No more tasks run at once than the pool has workers.
pub proof fn law_running_is_bounded(s: EngineState)
    requires
        s.inv(),
    ensures
        s.ids_with(TaskStatusEnum::Running).len() <= s.workers,
{
}

/// Every task has ended exactly when the workers owe no step.
pub proof fn lemma_ended_iff_nothing_owed(s: EngineState)
    requires
        s.inv(),
    ensures
        s.all_ended() <==> s.steps_owed() == 0,
{
    lemma_ids_finite(s, TaskStatusEnum::Waiting);
    lemma_ids_finite(s, TaskStatusEnum::Running);
    let waiting = s.ids_with(TaskStatusEnum::Waiting);
    let running = s.ids_with(TaskStatusEnum::Running);
    if s.all_ended() {
        assert(waiting =~= Set::empty());
        assert(running =~= Set::empty());
    }
    if s.steps_owed() == 0 {
        assert(waiting.len() == 0 && running.len() == 0);
        assert forall|id: Seq<char>| #[trigger]
            s.records.contains_key(id) implies s.records[id].status.terminal() by {
            assert(s.records[id].consistent());
            if s.has_status(id, TaskStatusEnum::Waiting) {
                assert(waiting.contains(id));
            }
            if s.has_status(id, TaskStatusEnum::Running) {
                assert(running.contains(id));
            }
        }
    }
}

/// Each step of a worker pays one of the steps owed.
pub proof fn lemma_step_pays(s: EngineState, step: WorkerStep)
    requires
        s.inv(),
        s.enabled(step),
    ensures
        s.apply(step).inv(),
        s.apply(step).steps_owed() + 1 == s.steps_owed(),
        s.apply(step).workers == s.workers,
{
    lemma_ids_finite(s, TaskStatusEnum::Waiting);
    lemma_ids_finite(s, TaskStatusEnum::Running);
    match step {
        WorkerStep::Begin { now } => {
            lemma_begin_inv(s, now);
        },
        WorkerStep::Complete { id, stdout, stderr, status, now } => {
            lemma_complete_inv(s, id, stdout, stderr, status, now);
        },
    }
}

/// While a task has not ended, a pool with at least one worker has a step
/// to take: a task to pick up, or a running task to end.
pub proof fn law_workers_never_stall(s: EngineState)
    requires
        s.inv(),
        s.workers > 0,
        !s.all_ended(),
    ensures
        exists|step: WorkerStep| s.enabled(step),
{
    lemma_ids_finite(s, TaskStatusEnum::Running);
    let running = s.ids_with(TaskStatusEnum::Running);
    if running.len() > 0 {
        let id = running.choose();
        assert(running.contains(id));
        let step = WorkerStep::Complete {
            id,
            stdout: Seq::empty(),
            stderr: None,
            status: TaskStatusEnum::Success,
            now: Seq::empty(),
        };
        assert(s.enabled(step));
    } else {
        let id = choose|id: Seq<char>| #[trigger]
            s.records.contains_key(id) && !s.records[id].status.terminal();
        assert(s.records[id].consistent());
        if s.has_status(id, TaskStatusEnum::Running) {
            assert(running.contains(id));
        }
        assert(s.has_status(id, TaskStatusEnum::Waiting));
        let step = WorkerStep::Begin { now: Seq::empty() };
        assert(s.enabled(step));
    }
}

/// Whatever steps the workers take, in whatever order, the invariant holds
/// after them (so no more tasks run at once than there are workers), and
/// once they have taken as many steps as were owed, every task has ended.
pub proof fn law_all_tasks_end(s: EngineState, steps: Seq<WorkerStep>)
    requires
        s.inv(),
        s.can_run(steps),
    ensures
        s.run(steps).inv(),
        s.run(steps).workers == s.workers,
        s.run(steps).ids_with(TaskStatusEnum::Running).len() <= s.workers,
        s.run(steps).steps_owed() + steps.len() == s.steps_owed(),
        steps.len() == s.steps_owed() ==> s.run(steps).all_ended(),
    decreases steps.len(),
{
    if steps.len() > 0 {
        lemma_step_pays(s, steps[0]);
        law_all_tasks_end(s.apply(steps[0]), steps.drop_first());
    }
    lemma_ended_iff_nothing_owed(s.run(steps));
}

/// The number of tasks that the workers pick up in a list of steps.
pub open spec fn begun(steps: Seq<WorkerStep>) -> nat
    decreases steps.len(),
{
    if steps.len() == 0 {
        0
    } else {
        begun(steps.drop_first()) + if steps[0] is Begin {
            1nat
        } else {
            0nat
        }
    }
}

/// The workers take tasks from the front of the queue only: after their
/// steps the queue is what it was, without as many tasks at its front as
/// they have picked up.
pub proof fn lemma_queue_shrinks_from_front(s: EngineState, steps: Seq<WorkerStep>)
    requires
        s.inv(),
        s.can_run(steps),
    ensures
        begun(steps) <= s.queue.len(),
        s.run(steps).queue == s.queue.skip(begun(steps) as int),
    decreases steps.len(),
{
    if steps.len() == 0 {
        assert(s.queue.skip(0) == s.queue);
    } else {
        lemma_step_pays(s, steps[0]);
        let t = s.apply(steps[0]);
        lemma_queue_shrinks_from_front(t, steps.drop_first());
        let later = begun(steps.drop_first());
        match steps[0] {
            WorkerStep::Begin { now } => {
                assert(t.queue == s.queue.drop_first());
                assert(s.queue.drop_first().skip(later as int) =~= s.queue.skip(later as int + 1));
            },
            WorkerStep::Complete { id, stdout, stderr, status, now } => {
                assert(t.queue == s.queue);
            },
        }
    }
}

/// Tasks are picked up in the order in which they were queued: whatever
/// steps the workers take, a task has left the waiting ones only when
/// every task that was queued before it has.
pub proof fn law_tasks_begin_in_order(s: EngineState, steps: Seq<WorkerStep>, i: int, j: int)
    requires
        s.inv(),
        s.can_run(steps),
        0 <= i < j < s.queue.len(),
        !s.run(steps).has_status(s.queue[j].id, TaskStatusEnum::Waiting),
    ensures
        !s.run(steps).has_status(s.queue[i].id, TaskStatusEnum::Waiting),
{
    law_all_tasks_end(s, steps);
    lemma_queue_shrinks_from_front(s, steps);
    let t = s.run(steps);
    let k = begun(steps) as int;
    if t.has_status(s.queue[i].id, TaskStatusEnum::Waiting) {
        let at = choose|at: int| 0 <= at < t.queue.len() && (#[trigger] t.queue[at]).id == s.queue[i].id;
        assert(t.queue[at] == s.queue[k + at]);
        if k + at != i {
            if k + at < i {
                assert(s.queue[k + at].id != s.queue[i].id);
            } else {
                assert(s.queue[i].id != s.queue[k + at].id);
            }
        }
        assert(k <= i);
        assert(t.queue[j - k] == s.queue[j]);
        assert(t.has_status(t.queue[j - k].id, TaskStatusEnum::Waiting));
    }
}

} // verus!
