//! The status store: the record of every task, by id.
//!
//! The records live in a `chashmap::CHashMap`. Verus does not read that
//! crate; what this module relies on is stated in the contracts of the items
//! marked as trusted below, and everything else is proved from them.
//!
//! Every change goes through `&mut self`: the contracts describe a store
//! that one caller at a time works on. Callers on several threads share it
//! behind a lock.

use vstd::prelude::*;
use chashmap::CHashMap;
use crate::models::GetStatusResponse;
use crate::models::RecordView;
use crate::models::TaskStatusEnum;

verus! {

/// `chashmap::CHashMap`, opaque to the verifier.
#[verifier::external_type_specification]
#[verifier::external_body]
#[verifier::reject_recursive_types(K)]
#[verifier::reject_recursive_types(V)]
pub struct ExCHashMap<K, V>(CHashMap<K, V>);

/// What a map of records holds: for each key, as a sequence of characters,
/// the record stored under it.
pub uninterp spec fn stored_records(table: CHashMap<String, GetStatusResponse>) -> Map<Seq<char>, RecordView>;

/// The store that holds nothing.
pub open spec fn no_records() -> Map<Seq<char>, RecordView> {
    Map::empty()
}

/// Trusted: `CHashMap::new` gives a map without entries.
#[verifier::external_body]
fn records_new() -> (table: CHashMap<String, GetStatusResponse>)
    ensures
        stored_records(table) == no_records(),
{
    CHashMap::new()
}

/// Trusted: `CHashMap::get` finds the value stored under a key, if there is
/// one; the map is left as it was. The value is handed out as a copy.
#[verifier::external_body]
fn records_get(table: &CHashMap<String, GetStatusResponse>, id: &str) -> (found: Option<GetStatusResponse>)
    ensures
        found is Some <==> stored_records(*table).contains_key(id@),
        found is Some ==> found->0@ == stored_records(*table)[id@],
{
    table.get(id).map(|guard| guard.clone())
}

/// Trusted: `CHashMap::insert` stores the value under the key, in place of
/// what was there, and touches no other key.
#[verifier::external_body]
fn records_insert(table: &mut CHashMap<String, GetStatusResponse>, id: String, record: GetStatusResponse)
    ensures
        stored_records(*final(table)) == stored_records(*old(table)).insert(id@, record@),
{
    table.insert(id, record);
}

/// Whether the task under `id` can be picked up: it is known and waits.
pub open spec fn can_start(records: Map<Seq<char>, RecordView>, id: Seq<char>) -> bool {
    records.contains_key(id) && records[id].status == TaskStatusEnum::Waiting
}

/// Whether the task under `id` can end with `status`: it is known and
/// runs, and the status is an end.
pub open spec fn can_finish(
    records: Map<Seq<char>, RecordView>,
    id: Seq<char>,
    status: TaskStatusEnum,
) -> bool {
    records.contains_key(id) && records[id].status == TaskStatusEnum::Running && status.terminal()
}

/// The status store.
pub struct TaskStatus {
    task_status_chashmap: CHashMap<String, GetStatusResponse>,
}

impl View for TaskStatus {
    type V = Map<Seq<char>, RecordView>;

    closed spec fn view(&self) -> Map<Seq<char>, RecordView> {
        stored_records(self.task_status_chashmap)
    }
}

impl TaskStatus {
    /// An empty store.
    pub fn new() -> (store: TaskStatus)
        ensures
            store@ == no_records(),
    {
        TaskStatus { task_status_chashmap: records_new() }
    }

    /// Whether a record is kept under `id`.
    pub fn contains(&self, id: &str) -> (present: bool)
        ensures
            present == self@.contains_key(id@),
    {
        records_get(&self.task_status_chashmap, id).is_some()
    }

    /// Stores the record of a new task. The id must not be in use.
    pub fn create(&mut self, id: String, record: GetStatusResponse)
        requires
            !old(self)@.contains_key(id@),
        ensures
            final(self)@ == old(self)@.insert(id@, record@),
    {
        records_insert(&mut self.task_status_chashmap, id, record);
    }

    /// A copy of the record kept under `id`, if there is one.
    pub fn get(&self, id: &str) -> (found: Option<GetStatusResponse>)
        ensures
            match found {
                Some(record) => self@.contains_key(id@) && record@ == self@[id@],
                None => !self@.contains_key(id@),
            },
    {
        records_get(&self.task_status_chashmap, id)
    }

    /// Marks the task under `id` as picked up at `now`. The task must be
    /// known and waiting.
    pub fn start(&mut self, id: &str, now: String)
        requires
            can_start(old(self)@, id@),
        ensures
            final(self)@ == old(self)@.insert(id@, old(self)@[id@].started(now@)),
    {
        let found = records_get(&self.task_status_chashmap, id);
        match found {
            Some(record) => {
                let key = id.to_owned();
                records_insert(&mut self.task_status_chashmap, key, record.mark_started(now));
            },
            None => {},
        }
    }

    /// Marks the task under `id` as ended at `now`, with its output and
    /// outcome. The task must be known and running, and the outcome an end.
    pub fn finish(
        &mut self,
        id: &str,
        stdout: String,
        stderr: Option<String>,
        status: TaskStatusEnum,
        now: String,
    )
        requires
            can_finish(old(self)@, id@, status),
        ensures
            final(self)@ == old(self)@.insert(
                id@,
                old(self)@[id@].finished(stdout@, crate::models::text_of(stderr), status, now@),
            ),
    {
        let found = records_get(&self.task_status_chashmap, id);
        match found {
            Some(record) => {
                let key = id.to_owned();
                records_insert(
                    &mut self.task_status_chashmap,
                    key,
                    record.mark_finished(stdout, stderr, status, now),
                );
            },
            None => {},
        }
    }
}

/// Initializes the status store.
pub fn init_task_status() -> (store: TaskStatus)
    ensures
        store@ == no_records(),
{
    TaskStatus::new()
}

/// Marks the task under `id` as picked up now. The task must be known and
/// waiting.
pub fn start_running_task(id: &str, task_status: &mut TaskStatus)
    requires
        can_start(old(task_status)@, id@),
    ensures
        exists|now: Seq<char>|
            final(task_status)@ == old(task_status)@.insert(
                id@,
                #[trigger] old(task_status)@[id@].started(now),
            ),
{
    let now = crate::models::utc_now();
    task_status.start(id, now);
}

/// Marks the task under `id` as ended now, with its output and outcome. The
/// task must be known and running, and the outcome an end.
pub fn finish_running_task(
    id: &str,
    task_status: &mut TaskStatus,
    stdout: String,
    stderr: Option<String>,
    execution_result: TaskStatusEnum,
)
    requires
        can_finish(old(task_status)@, id@, execution_result),
    ensures
        exists|now: Seq<char>|
            final(task_status)@ == old(task_status)@.insert(
                id@,
                #[trigger] old(task_status)@[id@].finished(
                    stdout@,
                    crate::models::text_of(stderr),
                    execution_result,
                    now,
                ),
            ),
{
    let now = crate::models::utc_now();
    task_status.finish(id, stdout, stderr, execution_result, now);
}

/// Picking a task up and ending it move its status one step forward and
/// leave every other record, and the times set before, as they are.
pub proof fn law_store_moves_forward(
    records: Map<Seq<char>, RecordView>,
    id: Seq<char>,
    now: Seq<char>,
    stdout: Seq<char>,
    stderr: Option<Seq<char>>,
    status: TaskStatusEnum,
)
    ensures
        can_start(records, id) ==> records[id].status.steps_to(records[id].started(now).status)
            && records[id].started(now).created_at == records[id].created_at,
        can_finish(records, id, status) ==> records[id].status.steps_to(
            records[id].finished(stdout, stderr, status, now).status,
        ) && records[id].finished(stdout, stderr, status, now).created_at == records[id].created_at
            && records[id].finished(stdout, stderr, status, now).started_at
            == records[id].started_at,
        forall|other: Seq<char>|
            other != id && records.contains_key(other) ==> #[trigger] records.insert(
                id,
                records[id].started(now),
            )[other] == records[other],
{
}

} // verus!
