//! The task queue and the pool of workers that draws from it.
//!
//! The queue is an unbounded `async_channel` channel. Verus does not read
//! that crate; what this module relies on is stated in the contracts of the
//! items marked as trusted below, and everything else is proved from them.
//!
//! The pool keeps both ends of the channel to itself and hands out no
//! copy of either, so that no task enters or leaves the queue but through
//! its methods.

use vstd::prelude::*;
use async_channel::Receiver;
use async_channel::Sender;
use crate::models::CreateTaskRequest;
use crate::models::RequestView;

verus! {

/// A queued task: the id it was recorded under, and what to run.
pub struct TaskInfo {
    pub id: String,
    pub task_request: CreateTaskRequest,
}

/// A queued task as a mathematical value.
pub struct TaskInfoView {
    pub id: Seq<char>,
    pub request: RequestView,
}

impl View for TaskInfo {
    type V = TaskInfoView;

    open spec fn view(&self) -> TaskInfoView {
        TaskInfoView { id: self.id@, request: self.task_request@ }
    }
}

impl TaskInfo {
    pub fn new(id: String, task_request: CreateTaskRequest) -> (task: TaskInfo)
        ensures
            task@ == (TaskInfoView { id: id@, request: task_request@ }),
    {
        TaskInfo { id, task_request }
    }
}

/// `async_channel::Sender`, opaque to the verifier.
#[verifier::external_type_specification]
#[verifier::external_body]
#[verifier::reject_recursive_types(T)]
pub struct ExSender<T>(Sender<T>);

/// `async_channel::Receiver`, opaque to the verifier.
#[verifier::external_type_specification]
#[verifier::external_body]
#[verifier::reject_recursive_types(T)]
pub struct ExReceiver<T>(Receiver<T>);

/// The tasks that wait in the channel behind a receiver, oldest first.
pub uninterp spec fn queued_tasks(receiver: Receiver<TaskInfo>) -> Seq<TaskInfoView>;

/// Whether the two are the ends of one unbounded channel that is open.
pub uninterp spec fn channel_ends(sender: Sender<TaskInfo>, receiver: Receiver<TaskInfo>) -> bool;

/// The queue that holds nothing.
pub open spec fn no_tasks() -> Seq<TaskInfoView> {
    Seq::empty()
}

/// Trusted: `async_channel::unbounded` gives the two ends of a new channel,
/// which is open, has no bound and holds no message.
#[verifier::external_body]
fn channel_unbounded() -> (ends: (Sender<TaskInfo>, Receiver<TaskInfo>))
    ensures
        channel_ends(ends.0, ends.1),
        queued_tasks(ends.1) == no_tasks(),
{
    async_channel::unbounded()
}

/// Trusted: `Sender::try_send` on an open channel without a bound puts the
/// message behind those that wait, and leaves the channel open. The receiver
/// is named because the queue is read through it; the call is made on the
/// sender.
#[verifier::external_body]
fn channel_try_send(sender: &Sender<TaskInfo>, receiver: &mut Receiver<TaskInfo>, task: TaskInfo)
    requires
        channel_ends(*sender, *old(receiver)),
    ensures
        queued_tasks(*final(receiver)) == queued_tasks(*old(receiver)).push(task@),
        channel_ends(*sender, *final(receiver)),
{
    let _ = sender.try_send(task);
}

/// Trusted: `Receiver::try_recv` takes the oldest waiting message out, or
/// fails where none waits; it neither closes nor opens the channel.
#[verifier::external_body]
fn channel_try_recv(sender: &Sender<TaskInfo>, receiver: &mut Receiver<TaskInfo>) -> (task: Option<TaskInfo>)
    ensures
        task is Some <==> queued_tasks(*old(receiver)).len() > 0,
        task is Some ==> task->0@ == queued_tasks(*old(receiver))[0],
        task is Some ==> queued_tasks(*final(receiver)) == queued_tasks(*old(receiver)).drop_first(),
        task is None ==> queued_tasks(*final(receiver)) == queued_tasks(*old(receiver)),
        channel_ends(*sender, *final(receiver)) == channel_ends(*sender, *old(receiver)),
{
    receiver.try_recv().ok()
}

/// Trusted: `Receiver::len` is the number of messages that wait.
#[verifier::external_body]
fn channel_len(receiver: &Receiver<TaskInfo>) -> (count: usize)
    ensures
        count == queued_tasks(*receiver).len(),
{
    receiver.len()
}

/// The two ends of a new task channel.
pub fn init_task_queue() -> (ends: (Sender<TaskInfo>, Receiver<TaskInfo>))
    ensures
        channel_ends(ends.0, ends.1),
        queued_tasks(ends.1) == no_tasks(),
{
    channel_unbounded()
}

/// The queue of tasks, and the count of workers that are busy.
pub struct WorkerPool {
    workers_count: usize,
    currently_working_count: usize,
    sender: Sender<TaskInfo>,
    receiver: Receiver<TaskInfo>,
}

impl WorkerPool {
    /// The queue's ends belong together and no more workers are busy than
    /// there are.
    pub closed spec fn wf(&self) -> bool {
        &&& channel_ends(self.sender, self.receiver)
        &&& self.currently_working_count <= self.workers_count
    }

    /// The tasks that wait, oldest first.
    pub closed spec fn queue(&self) -> Seq<TaskInfoView> {
        queued_tasks(self.receiver)
    }

    /// The size of the pool.
    pub closed spec fn workers(&self) -> nat {
        self.workers_count as nat
    }

    /// The number of workers that hold a task.
    pub closed spec fn working(&self) -> nat {
        self.currently_working_count as nat
    }

    /// A pool of `workers_count` idle workers on the given channel. The
    /// pool takes the two ends over: no copy of them may stay in use.
    pub fn new(workers_count: usize, sender: Sender<TaskInfo>, receiver: Receiver<TaskInfo>) -> (pool: WorkerPool)
        requires
            channel_ends(sender, receiver),
        ensures
            pool.wf(),
            pool.queue() == queued_tasks(receiver),
            pool.workers() == workers_count,
            pool.working() == 0,
    {
        WorkerPool { workers_count, currently_working_count: 0, sender, receiver }
    }

    /// Puts a task at the end of the queue. Never blocks.
    pub fn do_task(&mut self, task_info: TaskInfo)
        requires
            old(self).wf(),
        ensures
            final(self).wf(),
            final(self).queue() == old(self).queue().push(task_info@),
            final(self).workers() == old(self).workers(),
            final(self).working() == old(self).working(),
    {
        channel_try_send(&self.sender, &mut self.receiver, task_info);
    }

    /// The number of tasks that wait for a worker.
    pub fn pending_count(&self) -> (count: usize)
        ensures
            count == self.queue().len(),
    {
        channel_len(&self.receiver)
    }

    /// The size of the pool.
    pub fn workers_count(&self) -> (count: usize)
        ensures
            count == self.workers(),
    {
        self.workers_count
    }

    /// The number of busy workers.
    pub fn currently_working_count(&self) -> (count: usize)
        ensures
            count == self.working(),
    {
        self.currently_working_count
    }

    /// Hands the oldest waiting task to a worker: where a worker is idle and
    /// a task waits, that task leaves the queue and one more worker is busy.
    /// Otherwise nothing changes.
    pub fn take_task(&mut self) -> (task: Option<TaskInfo>)
        requires
            old(self).wf(),
        ensures
            final(self).wf(),
            final(self).workers() == old(self).workers(),
            task is Some <==> old(self).working() < old(self).workers() && old(self).queue().len() > 0,
            task is Some ==> task->0@ == old(self).queue()[0],
            task is Some ==> final(self).queue() == old(self).queue().drop_first(),
            task is Some ==> final(self).working() == old(self).working() + 1,
            task is None ==> final(self).queue() == old(self).queue(),
            task is None ==> final(self).working() == old(self).working(),
    {
        if self.currently_working_count < self.workers_count {
            let task = channel_try_recv(&self.sender, &mut self.receiver);
            if task.is_some() {
                self.currently_working_count = self.currently_working_count + 1;
            }
            task
        } else {
            None
        }
    }

    /// Notes that a worker has become idle.
    pub fn release_worker(&mut self)
        requires
            old(self).wf(),
            old(self).working() > 0,
        ensures
            final(self).wf(),
            final(self).queue() == old(self).queue(),
            final(self).workers() == old(self).workers(),
            final(self).working() == old(self).working() - 1,
    {
        self.currently_working_count = self.currently_working_count - 1;
    }
}

} // verus!
