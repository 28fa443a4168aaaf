//! The container protocol: instances, concurrency-control tokens, the
//! requests the client can make, and the reading of server answers.
//!
//! The server issues a fresh concurrency-control token with every
//! answer and requires it on the next request; a stale token is
//! rejected. A row-creation answer whose body carries an error message
//! with a fixed vendor prefix is the one signal that the targeted week
//! has never been initialized.

use crate::date::Date;
use crate::day::Day;
use vstd::prelude::*;
use vstd::string::StringExecFns;

verus! {

/// The token that must accompany the next request.
pub struct ConcurrencyControl(pub String);

/// The server-issued identifier of one edit session.
pub struct ContainerInstanceId(pub String);

/// One live edit session: its identifier and the token for the next
/// request.
pub struct ContainerInstance {
    pub id: ContainerInstanceId,
    pub concurrency_control: ConcurrencyControl,
}

impl ContainerInstance {
    pub fn duplicate(&self) -> (r: ContainerInstance)
        ensures
            r == *self,
    {
        ContainerInstance {
            id: ContainerInstanceId(self.id.0.clone()),
            concurrency_control: ConcurrencyControl(self.concurrency_control.0.clone()),
        }
    }
}

/// One request of the container protocol, with everything the wire
/// needs: the instance (whose token rides in the concurrency-control
/// header), the row addressed, and the values sent.
pub enum Request {
    /// Opens an edit session.
    AcquireInstance,
    /// Moves the server-side cursor to the week containing `date` and
    /// fetches the sheet there.
    AdvanceWeek { instance: ContainerInstance, date: Date },
    /// Runs the create-timesheet action for the current week.
    CreateTimesheet { instance: ContainerInstance },
    /// Looks a job number up by a name fragment.
    SearchJob { query: String },
    /// Lists the tasks of a job.
    SearchTasks { job_number: String },
    /// Appends a row for a job and short task name.
    CreateRow { instance: ContainerInstance, job_number: String, task_name: String },
    /// Writes `minutes` into the given days of a row.
    SetField { instance: ContainerInstance, row: usize, days: Vec<Day>, minutes: u32 },
    /// Deletes a row by its 0-based index.
    DeleteRow { instance: ContainerInstance, row: usize },
    /// Submits the sheet of the current week.
    Submit { instance: ContainerInstance },
}

/// The token a request carries, when it addresses an instance.
pub open spec fn spec_request_token(r: Request) -> Option<Seq<char>> {
    match r {
        Request::AdvanceWeek { instance, .. } => Some(instance.concurrency_control.0@),
        Request::CreateTimesheet { instance } => Some(instance.concurrency_control.0@),
        Request::CreateRow { instance, .. } => Some(instance.concurrency_control.0@),
        Request::SetField { instance, .. } => Some(instance.concurrency_control.0@),
        Request::DeleteRow { instance, .. } => Some(instance.concurrency_control.0@),
        Request::Submit { instance } => Some(instance.concurrency_control.0@),
        Request::AcquireInstance => None,
        Request::SearchJob { .. } => None,
        Request::SearchTasks { .. } => None,
    }
}

/// What came back for the running request, already decoded from the
/// wire into plain values.
pub enum Event {
    /// An instance was opened.
    Acquired { instance_id: String, token: String },
    /// A document with a fresh token (advance, row creation, deletion).
    Doc { doc: crate::document::TimeRegistration, token: String },
    /// A fresh token alone (field set, create timesheet, submit).
    TokenOnly { token: String },
    /// The job search's best match, if any.
    JobFound { job_number: Option<String> },
    /// The task rows of the searched job.
    TasksFound { records: Vec<crate::search::Record<crate::search::Tasks>> },
    /// Row creation hit a week that was never initialized.
    RowRejectedUninitialized,
    /// The server answered with a non-success status.
    Failed { status: u16, body: String },
}

/// The field name of a day's hours: "numberday1" for Monday through
/// "numberday7" for Sunday.
pub open spec fn spec_day_field_name(d: Day) -> Seq<char> {
    match d {
        Day::Monday => "numberday1"@,
        Day::Tuesday => "numberday2"@,
        Day::Wednesday => "numberday3"@,
        Day::Thursday => "numberday4"@,
        Day::Friday => "numberday5"@,
        Day::Saturday => "numberday6"@,
        Day::Sunday => "numberday7"@,
    }
}

pub fn day_field_name(d: Day) -> (r: String)
    ensures
        r@ == spec_day_field_name(d),
{
    match d {
        Day::Monday => String::from_str("numberday1"),
        Day::Tuesday => String::from_str("numberday2"),
        Day::Wednesday => String::from_str("numberday3"),
        Day::Thursday => String::from_str("numberday4"),
        Day::Friday => String::from_str("numberday5"),
        Day::Saturday => String::from_str("numberday6"),
        Day::Sunday => String::from_str("numberday7"),
    }
}

pub open spec fn is_success_status(status: u16) -> bool {
    200 <= status < 300
}

/// The `errorMessage` string field at the top level of a JSON body, if
/// the body is JSON and has one; the result depends on the body text
/// alone.
pub uninterp spec fn error_message_of(body: Seq<char>) -> Option<Seq<char>>;

/// Relies on serde_json::from_str and serde_json::Value::{get, as_str}:
/// extracts the top-level `errorMessage` string field of a JSON body.
#[verifier::external_body]
fn json_error_message(body: &str) -> (r: Option<String>)
    ensures
        match r {
            Some(m) => error_message_of(body@) == Some(m@),
            None => error_message_of(body@) is None,
        },
{
    let v: serde_json::Value = match serde_json::from_str(body) {
        Ok(v) => v,
        Err(_) => {
            return None;
        },
    };
    v.get("errorMessage").and_then(|m| m.as_str()).map(|s| s.to_string())
}

/// The vendor prefix whose presence on an error message is the sole
/// signal that the targeted week has never been initialized.
pub open spec fn uninitialized_week_prefix() -> Seq<char> {
    "Maconomy system error: "@
}

pub open spec fn is_uninitialized_message(m: Seq<char>) -> bool {
    m.len() >= uninitialized_week_prefix().len() && m.subrange(
        0,
        uninitialized_week_prefix().len() as int,
    ) == uninitialized_week_prefix()
}

/// Whether a response body is the recognizable uninitialized-week
/// payload: a JSON error message starting with the vendor prefix.
/// A body that is not JSON, or has no error message, does not carry the
/// signal — deliberately so: the prefix is the sole signal, and an
/// unreadable body counts as "not the signal" here rather than as a
/// distinct reading error, since such a body still fails where it is
/// decoded into a document.
pub open spec fn body_marks_uninitialized_week(body: Seq<char>) -> bool {
    match error_message_of(body) {
        Some(m) => is_uninitialized_message(m),
        None => false,
    }
}

pub fn is_uninitialized_week_error(body: &str) -> (r: bool)
    ensures
        r == body_marks_uninitialized_week(body@),
{
    match json_error_message(body) {
        Some(m) => crate::text::starts_with_str(m.as_str(), "Maconomy system error: "),
        None => false,
    }
}

/// How to read a row-creation response.
#[derive(Clone, Copy, Debug, PartialEq, Eq, Structural)]
pub enum RowCreationReading {
    /// Success: the body holds the updated document.
    Document,
    /// The recognizable uninitialized-week payload: recoverable.
    Uninitialized,
    /// Any other failure.
    Failure,
}

/// Reads a row-creation response: the uninitialized-week payload is
/// recognized by its message prefix whatever the status; otherwise the
/// status decides.
pub fn classify_row_creation(status: u16, body: &str) -> (r: RowCreationReading)
    ensures
        r is Uninitialized <==> body_marks_uninitialized_week(body@),
        r is Document <==> (!body_marks_uninitialized_week(body@) && is_success_status(status)),
        r is Failure <==> (!body_marks_uninitialized_week(body@) && !is_success_status(status)),
{
    if is_uninitialized_week_error(body) {
        RowCreationReading::Uninitialized
    } else if 200 <= status && status < 300 {
        RowCreationReading::Document
    } else {
        RowCreationReading::Failure
    }
}

/// The sheets-and-rows errors this layer surfaces.
pub enum RepoError {
    /// No job matched the given name.
    JobNotFound(String),
    /// No task of the job matched the given name.
    TaskNotFound(String),
    /// Any other failure, with its description and causes.
    Unknown(crate::errors::ErrorStack),
}

} // verus!
