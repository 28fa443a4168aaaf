//! The shape of the server's search responses (job and task lookup),
//! and the task-name resolution rule.
//!
//! Tasks carry two names: a short `taskname`, which row creation
//! requires, and a longer `description`, which users see and type. A
//! user-supplied task name resolves to the short name by
//! case-insensitive exact match on the description.

use crate::text::{eq_ignore_case, lower_of};
use vstd::prelude::*;

verus! {

pub struct Meta {
    pub pane_name: String,
    pub row_count: i64,
    pub row_offset: i64,
}

pub struct Record<T> {
    pub data: T,
}

pub struct Filter<T> {
    pub meta: Meta,
    pub records: Vec<Record<T>>,
}

pub struct Panes<T> {
    pub filter: Filter<T>,
}

pub struct SearchResponse<T> {
    pub panes: Panes<T>,
}

/// A task row: the short name rows are created with, the task list it
/// belongs to, and the long user-facing description.
pub struct Tasks {
    pub taskname: String,
    pub tasklist: String,
    pub description: String,
}

/// A job row of a job search: just the job number.
pub struct Jobs {
    pub jobnumber: String,
}

/// The short task name whose `taskname` the server requires, carried
/// separately so it cannot be confused with the long name.
pub struct ShortTaskName(pub String);

/// The job number a job search resolves to: the first record's, the
/// best match the server returned, or nothing when nothing matched.
pub fn first_job_number(records: &Vec<Record<Jobs>>) -> (r: Option<String>)
    ensures
        records@.len() == 0 ==> r is None,
        records@.len() > 0 ==> (r matches Some(j) && j == records@[0].data.jobnumber),
{
    if records.len() == 0 {
        None
    } else {
        Some(records[0].data.jobnumber.clone())
    }
}

/// The first task record whose long description matches the task name
/// (already lowercase), with none before it.
pub open spec fn spec_task_found(records: Seq<Record<Tasks>>, task: Seq<char>, i: int) -> bool {
    &&& 0 <= i < records.len()
    &&& lower_of((#[trigger] records[i]).data.description@) == task
    &&& forall|j: int| 0 <= j < i ==> lower_of((#[trigger] records[j]).data.description@) != task
}

pub open spec fn spec_no_task(records: Seq<Record<Tasks>>, task: Seq<char>) -> bool {
    forall|j: int|
        0 <= j < records.len() ==> lower_of((#[trigger] records[j]).data.description@) != task
}

/// Whether some task's description matches the task name.
pub open spec fn spec_task_matches(records: Seq<Record<Tasks>>, task: Seq<char>) -> bool {
    exists|i: int| spec_task_found(records, task, i)
}

/// The index of the matching task; meaningful when one matches, and
/// unique because `spec_task_found` names the first match.
pub open spec fn spec_first_task_match(records: Seq<Record<Tasks>>, task: Seq<char>) -> int {
    choose|i: int| spec_task_found(records, task, i)
}

/// Only one index can be the first match.
pub proof fn lemma_task_found_unique(records: Seq<Record<Tasks>>, task: Seq<char>, i: int, j: int)
    requires
        spec_task_found(records, task, i),
        spec_task_found(records, task, j),
    ensures
        i == j,
{
    if i < j {
        assert(lower_of(records[i].data.description@) != task);
    }
    if j < i {
        assert(lower_of(records[j].data.description@) != task);
    }
}

/// Resolves a user-supplied long task name to the short name of the
/// first task whose description matches it up to case.
pub fn short_task_name_for(records: &Vec<Record<Tasks>>, task: &str) -> (r: Option<ShortTaskName>)
    ensures
        match r {
            Some(short) => spec_task_matches(records@, lower_of(task@)) && short.0
                == records@[spec_first_task_match(records@, lower_of(task@))].data.taskname,
            None => spec_no_task(records@, lower_of(task@)),
        },
{
    let mut i: usize = 0;
    while i < records.len()
        invariant
            0 <= i <= records@.len(),
            forall|j: int|
                0 <= j < i ==> lower_of((#[trigger] records@[j]).data.description@) != lower_of(
                    task@,
                ),
        decreases records@.len() - i,
    {
        if eq_ignore_case(records[i].data.description.as_str(), task) {
            proof {
                assert(spec_task_found(records@, lower_of(task@), i as int));
                let m = spec_first_task_match(records@, lower_of(task@));
                assert(spec_task_found(records@, lower_of(task@), m));
                lemma_task_found_unique(records@, lower_of(task@), i as int, m);
            }
            return Some(ShortTaskName(records[i].data.taskname.clone()));
        }
        i = i + 1;
    }
    None
}

} // verus!
