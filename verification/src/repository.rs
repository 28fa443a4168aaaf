//! The time-sheet synchronizer: a state machine over the container
//! protocol.
//!
//! The repository owns the edit session: the container instance with its
//! concurrency-control token, and the last-fetched sheet. One operation
//! runs at a time; each call of `on_event` consumes the answer to the
//! previous request and either issues the next request, finishes, or
//! fails. Every recoverable condition is retried exactly once, enforced
//! by counters in the state: a missing line is created once, an
//! uninitialized week is initialized once before the lookup and once
//! more if row creation still reports it.

use crate::day::{Day, Days};
use crate::errors::{decimal_chars, u16_to_decimal, ErrorStack};
use crate::line_number::LineNumber;
use crate::protocol::{
    ConcurrencyControl, ContainerInstance, ContainerInstanceId, Event, RepoError, Request,
};
use crate::search::{
    short_task_name_for, spec_first_task_match, spec_task_found, spec_task_matches, Record,
    ShortTaskName, Tasks,
};
use crate::text::lower_of;
use crate::time_sheet::{sheet_from_registration, Line, TimeSheet};
use crate::week::WeekNumber;
use vstd::prelude::*;
use vstd::string::StringExecFns;

verus! {

/// What the synchronizer is doing for the running operation.
pub enum Phase {
    /// No operation runs.
    Idle,
    /// Waiting for a container instance.
    Acquiring,
    /// Waiting for the sheet of the target week.
    Advancing,
    /// Waiting for the create-timesheet action, run because the fetched
    /// sheet said the week was uninitialized.
    Initializing,
    /// Waiting for the job search.
    SearchingJob,
    /// Waiting for the task list of the found job.
    SearchingTasks { job_number: String },
    /// Waiting for the row creation.
    CreatingRow { job_number: String, task_name: String },
    /// Waiting for the create-timesheet action, run because row creation
    /// reported the week uninitialized; the row creation is retried once.
    InitializingForRow { job_number: String, task_name: String },
    /// Waiting for the field write on the resolved row.
    SettingField { row: usize },
    /// Waiting for the row deletion.
    Deleting { row: usize },
    /// Waiting for the submit action.
    Submitting,
}

/// The running operation.
pub enum Op {
    Get,
    SetTime { minutes: u32, job: String, task: String },
    Delete { line: LineNumber },
    Submit,
}

/// What the driver must do after a step.
pub enum StepResult {
    /// Perform this request and hand its answer to `on_event`.
    Issue(Request),
    /// The get operation finished with this sheet.
    DoneSheet(TimeSheet),
    /// The mutating operation finished.
    Done,
    /// The operation failed; the state is idle again.
    Fail(RepoError),
}

pub struct TimeSheetRepository {
    pub instance: Option<ContainerInstance>,
    pub sheet: Option<TimeSheet>,
    pub week: Option<WeekNumber>,
    pub days: Vec<Day>,
    pub op: Option<Op>,
    pub phase: Phase,
    /// Row creations issued during the running operation; at most one,
    /// plus one retry after an uninitialized-week answer.
    pub created_rows: u8,
    /// Create-timesheet actions issued during the running operation.
    pub created_sheets: u8,
    /// Whether the target line was absent when it was first looked up.
    pub line_missing: bool,
    /// Uninitialized-week answers received from row creation; at most
    /// one is recovered from.
    pub uninit_on_create: u8,
}

/// The token an event carries, when it carries one.
pub open spec fn spec_event_token(ev: Event) -> Option<Seq<char>> {
    match ev {
        Event::Acquired { token, .. } => Some(token@),
        Event::Doc { token, .. } => Some(token@),
        Event::TokenOnly { token } => Some(token@),
        Event::JobFound { .. } => None,
        Event::TasksFound { .. } => None,
        Event::RowRejectedUninitialized => None,
        Event::Failed { .. } => None,
    }
}

impl TimeSheetRepository {
    pub open spec fn running(self) -> bool {
        !(self.phase is Idle)
    }

    pub open spec fn inv(self) -> bool {
        &&& self.uninit_on_create <= 1
        &&& self.created_rows <= 1 + self.uninit_on_create
        &&& self.created_sheets <= 1 + self.uninit_on_create
        &&& (self.running() ==> self.week is Some && self.week.unwrap().wf() && self.op is Some)
        &&& (self.running() && !(self.phase is Acquiring) ==> self.instance is Some)
        &&& (self.phase is Acquiring ==> self.instance is None)
        &&& ((self.phase is Acquiring || self.phase is Advancing || self.phase is Initializing)
            ==> self.created_rows == 0 && self.uninit_on_create == 0 && !self.line_missing)
        &&& (match self.phase {
            Phase::SettingField { row } => {
                &&& self.op matches Some(Op::SetTime { .. })
                &&& (self.line_missing ==> self.created_rows == 1 + self.uninit_on_create)
                &&& (!self.line_missing ==> self.created_rows == 0)
            },
            Phase::SearchingJob => self.op matches Some(Op::SetTime { .. }) && self.line_missing
                && self.created_rows == 0 && self.uninit_on_create == 0,
            Phase::SearchingTasks { .. } => self.op matches Some(Op::SetTime { .. })
                && self.line_missing && self.created_rows == 0 && self.uninit_on_create == 0,
            Phase::CreatingRow { .. } => self.op matches Some(Op::SetTime { .. })
                && self.line_missing && self.created_rows == 1 + self.uninit_on_create,
            Phase::InitializingForRow { .. } => self.op matches Some(Op::SetTime { .. })
                && self.line_missing && self.uninit_on_create == 1 && self.created_rows == 1,
            Phase::Initializing => self.op matches Some(Op::SetTime { .. }),
            Phase::Deleting { .. } => self.op matches Some(Op::Delete { .. }),
            Phase::Submitting => self.op matches Some(Op::Submit),
            _ => true,
        })
    }

    /// The current token: the one the most recent answer carried.
    pub open spec fn spec_token(self) -> Option<Seq<char>> {
        match self.instance {
            Some(i) => Some(i.concurrency_control.0@),
            None => None,
        }
    }

    pub fn new() -> (r: TimeSheetRepository)
        ensures
            r.inv(),
            r.phase is Idle,
            r.instance is None,
            r.sheet is None,
    {
        TimeSheetRepository {
            instance: None,
            sheet: None,
            week: None,
            days: Vec::new(),
            op: None,
            phase: Phase::Idle,
            created_rows: 0,
            created_sheets: 0,
            line_missing: false,
            uninit_on_create: 0,
        }
    }
}

impl TimeSheetRepository {
    /// Replaces the token with the one the latest answer carried.
    fn set_token(&mut self, token: String)
        requires
            old(self).instance is Some,
        ensures
            final(self).instance matches Some(i) && i.id == old(self).instance.unwrap().id
                && i.concurrency_control.0 == token,
            final(self).sheet == old(self).sheet,
            final(self).week == old(self).week,
            final(self).days == old(self).days,
            final(self).op == old(self).op,
            final(self).phase == old(self).phase,
            final(self).created_rows == old(self).created_rows,
            final(self).created_sheets == old(self).created_sheets,
            final(self).line_missing == old(self).line_missing,
            final(self).uninit_on_create == old(self).uninit_on_create,
    {
        match &mut self.instance {
            Some(i) => {
                i.concurrency_control = ConcurrencyControl(token);
            },
            None => {},
        }
    }

    /// A copy of the current instance, for the next request to carry.
    fn instance_dup(&self) -> (r: ContainerInstance)
        requires
            self.instance is Some,
        ensures
            r == self.instance.unwrap(),
    {
        self.instance.as_ref().unwrap().duplicate()
    }

    /// The advance-to-week request for the running operation's week.
    fn issue_advance(&self) -> (r: Request)
        requires
            self.instance is Some,
            self.week is Some,
            self.week.unwrap().wf(),
        ensures
            r matches Request::AdvanceWeek { instance, date } && instance == self.instance.unwrap()
                && date == self.week.unwrap().spec_first_day(),
    {
        let w = self.week.unwrap();
        Request::AdvanceWeek { instance: self.instance_dup(), date: w.first_day() }
    }
}

fn copy_days(v: &Vec<Day>) -> (r: Vec<Day>)
    ensures
        r@ == v@,
{
    let mut r: Vec<Day> = Vec::new();
    let mut i: usize = 0;
    while i < v.len()
        invariant
            0 <= i <= v@.len(),
            r@.len() == i,
            forall|j: int| 0 <= j < i ==> r@[j] == v@[j],
        decreases v@.len() - i,
    {
        r.push(v[i]);
        i = i + 1;
    }
    proof {
        assert(r@ =~= v@);
    }
    r
}

/// An opaque-failure result with a fixed description.
fn fail_with(message: &str) -> (r: StepResult)
    ensures
        r is Fail,
{
    StepResult::Fail(
        RepoError::Unknown(ErrorStack { message: String::from_str(message), sources: Vec::new() }),
    )
}

/// The first line of a sheet matching the job and task (already
/// lowercase), with none before it.
pub open spec fn spec_line_found(sheet: TimeSheet, job: Seq<char>, task: Seq<char>, row: int) -> bool {
    &&& 0 <= row < sheet.lines@.len()
    &&& sheet.lines@[row].spec_matches(job, task)
    &&& forall|j: int| 0 <= j < row ==> !(#[trigger] sheet.lines@[j]).spec_matches(job, task)
}

/// What a sheet read from a server document looks like: the requested
/// week, the initialization flag from the card links, and one line per
/// table record with the record's job and task names.
pub open spec fn sheet_denotes(
    sh: TimeSheet,
    doc: crate::document::TimeRegistration,
    week: WeekNumber,
) -> bool {
    &&& sh.week_number == week
    &&& sh.needs_initialization == crate::document::spec_has_create_action(doc.panes.card.links@)
    &&& sh.lines@.len() == doc.panes.table.records@.len()
    &&& forall|i: int|
        0 <= i < sh.lines@.len() ==> crate::time_sheet::line_denotes(
            #[trigger] sh.lines@[i],
            doc.panes.table.records@[i],
        )
}

/// The message of the error surfaced for a non-success response.
pub open spec fn status_message(status: u16) -> Seq<char> {
    "server responded with status "@ + decimal_chars(status as int)
}

/// How the synchronizer resolves a freshly fetched sheet during a
/// set-time operation: initialize the week once if needed, write the
/// field when the line exists, otherwise start the job search.
pub open spec fn spec_resolution(
    s0: TimeSheetRepository,
    s1: TimeSheetRepository,
    r: StepResult,
    minutes: u32,
    job: String,
    task: String,
) -> bool {
    let sh = s1.sheet.unwrap();
    &&& s1.sheet is Some
    &&& if sh.needs_initialization {
        if s0.created_sheets == 0 {
            &&& r matches StepResult::Issue(Request::CreateTimesheet { .. })
            &&& s1.phase is Initializing
        } else {
            &&& r is Fail
            &&& s1.phase is Idle
        }
    } else if exists|row: int| spec_line_found(sh, lower_of(job@), lower_of(task@), row) {
        exists|row: int|
            {
                &&& #[trigger] spec_line_found(sh, lower_of(job@), lower_of(task@), row)
                &&& r matches StepResult::Issue(Request::SetField {
                    row: qrow,
                    minutes: qmin,
                    days: qdays,
                    ..
                }) && qrow == row && qmin == minutes && qdays@ == s1.days@
                &&& s1.phase matches Phase::SettingField { row: prow } && prow == row
            }
    } else {
        &&& r matches StepResult::Issue(Request::SearchJob { query }) && query == job
        &&& s1.phase is SearchingJob
        &&& s1.line_missing
    }
}

/// The transition relation of the synchronizer: what `on_event` does to
/// the state and what it answers, for every phase and event.
pub open spec fn spec_post(
    s0: TimeSheetRepository,
    ev: Event,
    s1: TimeSheetRepository,
    r: StepResult,
) -> bool {
    &&& s1.days@ == s0.days@
    // The target week is fixed when the operation starts and survives
    // every step, so the initialize-and-refetch path goes back to the
    // very week the operation is about.
    &&& s1.week == s0.week
    // The running operation (with its job, task and minutes) survives
    // every step that continues it, and is cleared when the operation
    // ends, one way or the other.
    &&& (r matches StepResult::Issue(q) ==> s1.op == s0.op)
    &&& (!(r matches StepResult::Issue(q)) ==> s1.op is None && s1.phase is Idle)
    // The instance identity never changes once acquired.
    &&& (s0.instance matches Some(i0) ==> s1.instance matches Some(i1) && i1.id.0@ == i0.id.0@)
    // An answer that carries no token leaves the instance — token
    // included — and the cached sheet exactly as they were.
    &&& (spec_event_token(ev) is None ==> s1.instance == s0.instance && s1.sheet == s0.sheet)
    // The token of every issued request is the current token, which is
    // the one the event carried when it carried one.
    &&& (r matches StepResult::Issue(q) ==> (crate::protocol::spec_request_token(q) is Some
        ==> crate::protocol::spec_request_token(q) == s1.spec_token()))
    &&& (spec_event_token(ev) is Some && !(r is Fail) ==> s1.spec_token() == spec_event_token(ev))
    // Counters move exactly with the requests they count.
    &&& s1.created_rows == s0.created_rows + (if r matches StepResult::Issue(
        Request::CreateRow { .. },
    ) {
        1int
    } else {
        0int
    })
    &&& s1.created_sheets == s0.created_sheets + (if r matches StepResult::Issue(
        Request::CreateTimesheet { .. },
    ) {
        1int
    } else {
        0int
    })
    // A failed response ends the operation with the status and body.
    &&& (ev matches Event::Failed { status, body } ==> {
        &&& s1.phase is Idle
        &&& r matches StepResult::Fail(RepoError::Unknown(stack)) && stack.message@
            == status_message(status) && stack.sources.deep_view() == seq![body@]
    })
    // The per-phase transitions.
    &&& match s0.phase {
        Phase::Acquiring => (ev matches Event::Acquired { instance_id, token } ==> {
            &&& s1.instance matches Some(i) && i.id.0@ == instance_id@ && i.concurrency_control.0@
                == token@
            &&& s1.sheet == s0.sheet
            &&& r matches StepResult::Issue(Request::AdvanceWeek { date, .. }) && date
                == s0.week.unwrap().spec_first_day()
            &&& s1.phase is Advancing
        }),
        Phase::Advancing => (ev matches Event::Doc { doc, token } ==> {
            &&& s1.sheet matches Some(sh) && sheet_denotes(sh, doc, s0.week.unwrap())
            &&& match s0.op {
                Some(Op::Get) => {
                    &&& r matches StepResult::DoneSheet(out) && crate::time_sheet::sheet_like(
                        out,
                        s1.sheet.unwrap(),
                    )
                    &&& s1.phase is Idle
                },
                Some(Op::SetTime { minutes, job, task }) => spec_resolution(
                    s0,
                    s1,
                    r,
                    minutes,
                    job,
                    task,
                ),
                Some(Op::Delete { line }) => match line {
                    LineNumber::Number(n) => if n >= 1 {
                        &&& r matches StepResult::Issue(Request::DeleteRow { row, .. }) && row == n
                            - 1
                        &&& s1.phase matches Phase::Deleting { row: prow } && prow == n - 1
                    } else {
                        r is Fail && s1.phase is Idle
                    },
                    LineNumber::Last => if doc.panes.table.records@.len() > 0 {
                        &&& r matches StepResult::Issue(Request::DeleteRow { row, .. }) && row
                            == doc.panes.table.records@.len() - 1
                        &&& s1.phase matches Phase::Deleting { row: prow } && prow
                            == doc.panes.table.records@.len() - 1
                    } else {
                        r is Fail && s1.phase is Idle
                    },
                },
                Some(Op::Submit) => {
                    &&& r matches StepResult::Issue(Request::Submit { .. })
                    &&& s1.phase is Submitting
                },
                _ => true,
            }
        }),
        Phase::Initializing => (ev matches Event::TokenOnly { token } ==> {
            &&& s1.sheet is None
            &&& r matches StepResult::Issue(Request::AdvanceWeek { date, .. }) && date
                == s0.week.unwrap().spec_first_day()
            &&& s1.phase is Advancing
        }),
        Phase::SearchingJob => (ev matches Event::JobFound { job_number } ==> match (
            job_number,
            s0.op,
        ) {
            (Some(jn), _) => {
                &&& r matches StepResult::Issue(Request::SearchTasks { job_number: q }) && q == jn
                &&& s1.phase matches Phase::SearchingTasks { job_number: p } && p == jn
            },
            (None, Some(Op::SetTime { job, .. })) => {
                &&& r matches StepResult::Fail(RepoError::JobNotFound(name)) && name == job
                &&& s1.phase is Idle
            },
            _ => true,
        }),
        Phase::SearchingTasks { job_number } => (ev matches Event::TasksFound { records }
            ==> match s0.op {
            Some(Op::SetTime { job, task, .. }) => {
                if spec_task_matches(records@, lower_of(task@)) {
                    &&& r matches StepResult::Issue(Request::CreateRow {
                        job_number: qj,
                        task_name: qt,
                        ..
                    }) && qj == job_number && qt == records@[spec_first_task_match(
                        records@,
                        lower_of(task@),
                    )].data.taskname
                    &&& s1.phase matches Phase::CreatingRow { .. }
                } else {
                    &&& r matches StepResult::Fail(RepoError::TaskNotFound(name)) && name == task
                    &&& s1.phase is Idle
                }
            },
            _ => true,
        }),
        Phase::CreatingRow { .. } => {
            &&& (ev matches Event::Doc { doc, token } ==> match s0.op {
                Some(Op::SetTime { minutes, job, task }) => {
                    &&& s1.sheet matches Some(sh) && sheet_denotes(sh, doc, s0.week.unwrap())
                    &&& if exists|row: int|
                        spec_line_found(
                            s1.sheet.unwrap(),
                            lower_of(job@),
                            lower_of(task@),
                            row,
                        ) {
                        exists|row: int|
                            {
                                &&& #[trigger] spec_line_found(
                                    s1.sheet.unwrap(),
                                    lower_of(job@),
                                    lower_of(task@),
                                    row,
                                )
                                &&& r matches StepResult::Issue(Request::SetField {
                                    row: qrow,
                                    minutes: qmin,
                                    ..
                                }) && qrow == row && qmin == minutes
                                &&& s1.phase matches Phase::SettingField { row: prow } && prow
                                    == row
                            }
                    } else {
                        r is Fail && s1.phase is Idle
                    }
                },
                _ => true,
            })
            &&& (ev is RowRejectedUninitialized ==> if s0.uninit_on_create == 0 {
                &&& r matches StepResult::Issue(Request::CreateTimesheet { .. })
                &&& s1.phase matches Phase::InitializingForRow { .. }
                &&& s1.uninit_on_create == 1
            } else {
                r is Fail && s1.phase is Idle
            })
        },
        Phase::InitializingForRow { job_number, task_name } => (ev matches Event::TokenOnly {
            token,
        } ==> {
            &&& s1.sheet == s0.sheet
            &&& r matches StepResult::Issue(Request::CreateRow { job_number: qj, task_name: qt, .. })
                && qj == job_number && qt == task_name
            &&& s1.phase matches Phase::CreatingRow { job_number: pj, task_name: pt } && pj
                == job_number && pt == task_name
        }),
        Phase::SettingField { .. } => (ev matches Event::TokenOnly { token } ==> {
            &&& r is Done
            &&& s1.phase is Idle
            &&& s1.sheet is None
        }),
        Phase::Deleting { .. } => (ev matches Event::Doc { doc, token } ==> {
            &&& r is Done
            &&& s1.phase is Idle
            &&& s1.sheet matches Some(sh) && sheet_denotes(sh, doc, s0.week.unwrap())
        }),
        Phase::Submitting => (ev matches Event::TokenOnly { token } ==> {
            &&& r is Done
            &&& s1.phase is Idle
            &&& s1.sheet is None
        }),
        Phase::Idle => r is Fail && s1.phase is Idle,
    }
}

/// Whether the cached sheet already answers for `week`.
pub open spec fn spec_cached_for(s: TimeSheetRepository, week: WeekNumber) -> bool {
    match s.sheet {
        Some(sh) => sh.week_number == week,
        None => false,
    }
}

/// How every operation begins: fresh counters, the target week stored,
/// and the first request of the chain — acquiring an instance when none
/// is cached, else advancing to the week.
pub open spec fn spec_started(
    s0: TimeSheetRepository,
    s1: TimeSheetRepository,
    r: StepResult,
    week: WeekNumber,
) -> bool {
    &&& s1.week == Some(week)
    &&& s1.created_rows == 0
    &&& s1.created_sheets == 0
    &&& s1.uninit_on_create == 0
    &&& !s1.line_missing
    &&& s1.instance == s0.instance
    &&& match s0.instance {
        None => r matches StepResult::Issue(Request::AcquireInstance) && s1.phase is Acquiring,
        Some(i) => {
            &&& r matches StepResult::Issue(Request::AdvanceWeek { instance, date }) && instance
                == i && date == week.spec_first_day()
            &&& s1.phase is Advancing
        },
    }
}

impl TimeSheetRepository {
    fn begin_op(&mut self, week: WeekNumber, op: Op) -> (r: StepResult)
        requires
            old(self).inv(),
            old(self).phase is Idle,
            week.wf(),
        ensures
            final(self).inv(),
            spec_started(*old(self), *final(self), r, week),
            final(self).op == Some(op),
            final(self).days == old(self).days,
            final(self).sheet == old(self).sheet,
    {
        self.week = Some(week);
        self.created_rows = 0;
        self.created_sheets = 0;
        self.uninit_on_create = 0;
        self.line_missing = false;
        self.op = Some(op);
        if self.instance.is_none() {
            self.phase = Phase::Acquiring;
            StepResult::Issue(Request::AcquireInstance)
        } else {
            self.phase = Phase::Advancing;
            StepResult::Issue(self.issue_advance())
        }
    }

    /// Starts fetching the sheet of a week; a cached sheet of that very
    /// week is answered at once.
    pub fn start_get(&mut self, week: WeekNumber) -> (r: StepResult)
        requires
            old(self).inv(),
            old(self).phase is Idle,
            week.wf(),
        ensures
            final(self).inv(),
            spec_cached_for(*old(self), week) ==> (r matches StepResult::DoneSheet(out)
                && crate::time_sheet::sheet_like(old(self).sheet.unwrap(), out)
                && final(self).phase is Idle),
            !spec_cached_for(*old(self), week) ==> spec_started(*old(self), *final(self), r, week)
                && final(self).op == Some(Op::Get),
    {
        let cached = match &self.sheet {
            Some(sh) => sh.week_number == week,
            None => false,
        };
        if cached {
            let out = self.sheet.as_ref().unwrap().duplicate();
            return StepResult::DoneSheet(out);
        }
        self.begin_op(week, Op::Get)
    }

    /// Starts setting `minutes` on the given days of the week's line for
    /// a job and task.
    pub fn start_set_time(
        &mut self,
        minutes: u32,
        days: &Days,
        week: WeekNumber,
        job: String,
        task: String,
    ) -> (r: StepResult)
        requires
            old(self).inv(),
            old(self).phase is Idle,
            week.wf(),
            days.wf(),
        ensures
            final(self).inv(),
            spec_started(*old(self), *final(self), r, week),
            final(self).op == Some(Op::SetTime { minutes, job, task }),
            // The stored day list is exactly the given set, in ordinal
            // order.
            forall|i: int|
                0 <= i < final(self).days@.len() ==> days@.contains(#[trigger] final(self).days@[i]),
            forall|d: Day| days@.contains(d) ==> final(self).days@.contains(d),
            forall|i: int, j: int|
                0 <= i < j < final(self).days@.len() ==> final(self).days@[i].spec_ordinal()
                    < final(self).days@[j].spec_ordinal(),
    {
        self.days = days.to_vec();
        self.begin_op(week, Op::SetTime { minutes, job, task })
    }

    /// Starts deleting a line of the week's sheet.
    pub fn start_delete(&mut self, line: LineNumber, week: WeekNumber) -> (r: StepResult)
        requires
            old(self).inv(),
            old(self).phase is Idle,
            week.wf(),
        ensures
            final(self).inv(),
            spec_started(*old(self), *final(self), r, week),
            final(self).op == Some(Op::Delete { line }),
    {
        self.begin_op(week, Op::Delete { line })
    }

    /// Starts submitting the week's sheet.
    pub fn start_submit(&mut self, week: WeekNumber) -> (r: StepResult)
        requires
            old(self).inv(),
            old(self).phase is Idle,
            week.wf(),
        ensures
            final(self).inv(),
            spec_started(*old(self), *final(self), r, week),
            final(self).op == Some(Op::Submit),
    {
        self.begin_op(week, Op::Submit)
    }

    /// Consumes the answer to the previous request and produces the next
    /// step of the running operation: the next request to perform, the
    /// finished result, or a failure.
    #[verifier::rlimit(100)]
    #[verifier::spinoff_prover]
    pub fn on_event(&mut self, ev: Event) -> (r: StepResult)
        requires
            old(self).inv(),
        ensures
            final(self).inv(),
            spec_post(*old(self), ev, *final(self), r),
    {
        if let Event::Failed { status, body } = ev {
            self.phase = Phase::Idle;
            self.op = None;
            let mut message = String::from_str("server responded with status ");
            let digits = u16_to_decimal(status);
            message.append(digits.as_str());
            let ghost body_view = body@;
            let mut sources: Vec<String> = Vec::new();
            sources.push(body);
            proof {
                assert(sources.deep_view() =~= seq![body_view]);
            }
            return StepResult::Fail(RepoError::Unknown(ErrorStack { message, sources }));
        }
        let mut phase0 = Phase::Idle;
        core::mem::swap(&mut phase0, &mut self.phase);
        let mut op0: Option<Op> = None;
        core::mem::swap(&mut op0, &mut self.op);
        match (phase0, op0, ev) {
            (Phase::Acquiring, op, Event::Acquired { instance_id, token }) => {
                self.instance = Some(
                    ContainerInstance {
                        id: ContainerInstanceId(instance_id),
                        concurrency_control: ConcurrencyControl(token),
                    },
                );
                self.op = op;
                self.phase = Phase::Advancing;
                StepResult::Issue(self.issue_advance())
            },
            (Phase::Advancing, Some(Op::Get), Event::Doc { doc, token }) => {
                self.set_token(token);
                let sh = sheet_from_registration(&doc, self.week.unwrap());
                let out = sh.duplicate();
                self.sheet = Some(sh);
                StepResult::DoneSheet(out)
            },
            (
                Phase::Advancing,
                Some(Op::SetTime { minutes, job, task }),
                Event::Doc { doc, token },
            ) => {
                self.set_token(token);
                let sh = sheet_from_registration(&doc, self.week.unwrap());
                if sh.needs_initialization {
                    if self.created_sheets == 0 {
                        self.created_sheets = self.created_sheets + 1;
                        self.sheet = Some(sh);
                        self.op = Some(Op::SetTime { minutes, job, task });
                        self.phase = Phase::Initializing;
                        StepResult::Issue(
                            Request::CreateTimesheet { instance: self.instance_dup() },
                        )
                    } else {
                        self.sheet = Some(sh);
                        fail_with("the week is still uninitialized after creating a time sheet")
                    }
                } else {
                    match sh.find_line_nr(job.as_str(), task.as_str()) {
                        Some(row) => {
                            proof {
                                assert(spec_line_found(
                                    sh,
                                    lower_of(job@),
                                    lower_of(task@),
                                    row as int,
                                ));
                            }
                            self.sheet = Some(sh);
                            self.op = Some(Op::SetTime { minutes, job, task });
                            self.phase = Phase::SettingField { row };
                            StepResult::Issue(
                                Request::SetField {
                                    instance: self.instance_dup(),
                                    row,
                                    days: copy_days(&self.days),
                                    minutes,
                                },
                            )
                        },
                        None => {
                            proof {
                                if exists|row: int|
                                    spec_line_found(sh, lower_of(job@), lower_of(task@), row) {
                                    let row = choose|row: int|
                                        spec_line_found(sh, lower_of(job@), lower_of(task@), row);
                                    assert(!sh.lines@[row].spec_matches(
                                        lower_of(job@),
                                        lower_of(task@),
                                    ));
                                }
                            }
                            self.sheet = Some(sh);
                            self.line_missing = true;
                            let query = job.clone();
                            self.op = Some(Op::SetTime { minutes, job, task });
                            self.phase = Phase::SearchingJob;
                            StepResult::Issue(Request::SearchJob { query })
                        },
                    }
                }
            },
            (Phase::Advancing, Some(Op::Delete { line }), Event::Doc { doc, token }) => {
                self.set_token(token);
                let sh = sheet_from_registration(&doc, self.week.unwrap());
                let count = sh.lines.len();
                self.sheet = Some(sh);
                match line {
                    LineNumber::Number(n) => {
                        if n >= 1 {
                            let row = (n - 1) as usize;
                            self.op = Some(Op::Delete { line });
                            self.phase = Phase::Deleting { row };
                            StepResult::Issue(
                                Request::DeleteRow { instance: self.instance_dup(), row },
                            )
                        } else {
                            fail_with("line numbers are 1-based; 0 names no line")
                        }
                    },
                    LineNumber::Last => {
                        if count > 0 {
                            let row = count - 1;
                            self.op = Some(Op::Delete { line });
                            self.phase = Phase::Deleting { row };
                            StepResult::Issue(
                                Request::DeleteRow { instance: self.instance_dup(), row },
                            )
                        } else {
                            fail_with("the time sheet has no lines to delete")
                        }
                    },
                }
            },
            (Phase::Advancing, Some(Op::Submit), Event::Doc { doc, token }) => {
                self.set_token(token);
                let sh = sheet_from_registration(&doc, self.week.unwrap());
                self.sheet = Some(sh);
                self.op = Some(Op::Submit);
                self.phase = Phase::Submitting;
                StepResult::Issue(Request::Submit { instance: self.instance_dup() })
            },
            (Phase::Initializing, op, Event::TokenOnly { token }) => {
                self.set_token(token);
                self.sheet = None;
                self.op = op;
                self.phase = Phase::Advancing;
                StepResult::Issue(self.issue_advance())
            },
            (
                Phase::SearchingJob,
                Some(Op::SetTime { minutes, job, task }),
                Event::JobFound { job_number },
            ) => {
                match job_number {
                    Some(jn) => {
                        let q = jn.clone();
                        self.op = Some(Op::SetTime { minutes, job, task });
                        self.phase = Phase::SearchingTasks { job_number: jn };
                        StepResult::Issue(Request::SearchTasks { job_number: q })
                    },
                    None => StepResult::Fail(RepoError::JobNotFound(job)),
                }
            },
            (
                Phase::SearchingTasks { job_number },
                Some(Op::SetTime { minutes, job, task }),
                Event::TasksFound { records },
            ) => {
                match short_task_name_for(&records, task.as_str()) {
                    Some(ShortTaskName(short_name)) => {
                        self.created_rows = self.created_rows + 1;
                        let qj = job_number.clone();
                        let qt = short_name.clone();
                        self.op = Some(Op::SetTime { minutes, job, task });
                        self.phase = Phase::CreatingRow { job_number, task_name: short_name };
                        StepResult::Issue(
                            Request::CreateRow {
                                instance: self.instance_dup(),
                                job_number: qj,
                                task_name: qt,
                            },
                        )
                    },
                    None => {
                        proof {
                            if exists|i: int| spec_task_found(records@, lower_of(task@), i) {
                                let i = choose|i: int|
                                    spec_task_found(records@, lower_of(task@), i);
                                assert(lower_of((records@[i]).data.description@) != lower_of(
                                    task@,
                                ));
                            }
                        }
                        StepResult::Fail(RepoError::TaskNotFound(task))
                    },
                }
            },
            (
                Phase::CreatingRow { job_number, task_name },
                Some(Op::SetTime { minutes, job, task }),
                Event::Doc { doc, token },
            ) => {
                self.set_token(token);
                let sh = sheet_from_registration(&doc, self.week.unwrap());
                match sh.find_line_nr(job.as_str(), task.as_str()) {
                    Some(row) => {
                        proof {
                            assert(spec_line_found(sh, lower_of(job@), lower_of(task@), row as int));
                        }
                        self.sheet = Some(sh);
                        self.op = Some(Op::SetTime { minutes, job, task });
                        self.phase = Phase::SettingField { row };
                        StepResult::Issue(
                            Request::SetField {
                                instance: self.instance_dup(),
                                row,
                                days: copy_days(&self.days),
                                minutes,
                            },
                        )
                    },
                    None => {
                        proof {
                            if exists|row: int|
                                spec_line_found(sh, lower_of(job@), lower_of(task@), row) {
                                let row = choose|row: int|
                                    spec_line_found(sh, lower_of(job@), lower_of(task@), row);
                                assert(!sh.lines@[row].spec_matches(
                                    lower_of(job@),
                                    lower_of(task@),
                                ));
                            }
                        }
                        self.sheet = Some(sh);
                        fail_with("no line for the job and task, even after creating one")
                    },
                }
            },
            (Phase::CreatingRow { job_number, task_name }, op, Event::RowRejectedUninitialized) => {
                if self.uninit_on_create == 0 {
                    self.uninit_on_create = 1;
                    self.created_sheets = self.created_sheets + 1;
                    self.op = op;
                    self.phase = Phase::InitializingForRow { job_number, task_name };
                    StepResult::Issue(Request::CreateTimesheet { instance: self.instance_dup() })
                } else {
                    fail_with("the week is still uninitialized after creating a time sheet")
                }
            },
            (Phase::InitializingForRow { job_number, task_name }, op, Event::TokenOnly { token }) => {
                self.set_token(token);
                self.created_rows = self.created_rows + 1;
                let qj = job_number.clone();
                let qt = task_name.clone();
                self.op = op;
                self.phase = Phase::CreatingRow { job_number, task_name };
                StepResult::Issue(
                    Request::CreateRow { instance: self.instance_dup(), job_number: qj, task_name: qt },
                )
            },
            (Phase::SettingField { .. }, _, Event::TokenOnly { token }) => {
                self.set_token(token);
                self.sheet = None;
                StepResult::Done
            },
            (Phase::Deleting { .. }, _, Event::Doc { doc, token }) => {
                self.set_token(token);
                let sh = sheet_from_registration(&doc, self.week.unwrap());
                self.sheet = Some(sh);
                StepResult::Done
            },
            (Phase::Submitting, _, Event::TokenOnly { token }) => {
                self.set_token(token);
                self.sheet = None;
                StepResult::Done
            },
            (_, _, _) => fail_with("unexpected answer for the running request"),
        }
    }
}

/// Law: when the field-set request goes out, exactly one row-creation
/// request was made if the line was missing — plus exactly one more only
/// after an uninitialized-week answer — and none at all if the line
/// already existed.
pub proof fn lemma_single_row_creation(s: TimeSheetRepository)
    requires
        s.inv(),
        s.phase matches Phase::SettingField { .. },
    ensures
        !s.line_missing ==> s.created_rows == 0,
        s.line_missing && s.uninit_on_create == 0 ==> s.created_rows == 1,
        s.created_rows <= 2,
{
}

/// Law: when the target week is uninitialized, setting hours runs the
/// create-timesheet action exactly once before the row lookup: the
/// fetched sheet that demands initialization triggers the action when
/// none was run yet, and fails rather than running it a second time.
pub proof fn lemma_single_initialization(
    s0: TimeSheetRepository,
    doc: crate::document::TimeRegistration,
    token: String,
    s1: TimeSheetRepository,
    r: StepResult,
)
    requires
        s0.inv(),
        spec_post(s0, Event::Doc { doc, token }, s1, r),
        s0.phase is Advancing,
        s0.op matches Some(Op::SetTime { .. }),
        crate::document::spec_has_create_action(doc.panes.card.links@),
    ensures
        s0.created_sheets == 0 ==> (r matches StepResult::Issue(Request::CreateTimesheet { .. })
            && s1.created_sheets == 1),
        s0.created_sheets != 0 ==> r is Fail,
{
    let m = s0.op.unwrap();
    if let Op::SetTime { minutes, job, task } = m {
        assert(spec_resolution(s0, s1, r, minutes, job, task));
        assert(s1.sheet.unwrap().needs_initialization);
    }
}

/// Law: deleting line "last" when the sheet has N lines deletes row
/// index N - 1 on the wire.
pub proof fn lemma_delete_last_row(
    s0: TimeSheetRepository,
    doc: crate::document::TimeRegistration,
    token: String,
    s1: TimeSheetRepository,
    r: StepResult,
)
    requires
        spec_post(s0, Event::Doc { doc, token }, s1, r),
        s0.phase is Advancing,
        s0.op == Some(Op::Delete { line: LineNumber::Last }),
        doc.panes.table.records@.len() > 0,
    ensures
        r matches StepResult::Issue(Request::DeleteRow { row, .. }) && row
            == doc.panes.table.records@.len() - 1,
{
}

/// Law: a job or task that cannot be found fails the operation and
/// touches nothing else: the cached sheet, the instance with its token,
/// and the target week stay exactly as they were.
pub proof fn lemma_not_found_leaves_state(
    s0: TimeSheetRepository,
    ev: Event,
    s1: TimeSheetRepository,
    r: StepResult,
)
    requires
        spec_post(s0, ev, s1, r),
        ev matches Event::JobFound { .. } || ev matches Event::TasksFound { .. },
        r is Fail,
    ensures
        s1.sheet == s0.sheet,
        s1.instance == s0.instance,
        s1.week == s0.week,
        s1.phase is Idle,
{
}

/// Law: initializing an uninitialized week and re-fetching stay on the
/// same operation and the same week. The fetched sheet that demands
/// initialization triggers the create-timesheet action, and the advance
/// issued after its answer goes to the very week the operation began
/// with, with the operation unchanged.
pub proof fn lemma_initialize_then_refetch_same_week(
    s0: TimeSheetRepository,
    doc: crate::document::TimeRegistration,
    t1: String,
    s1: TimeSheetRepository,
    r1: StepResult,
    t2: String,
    s2: TimeSheetRepository,
    r2: StepResult,
)
    requires
        s0.phase is Advancing,
        s0.op matches Some(Op::SetTime { .. }),
        s0.created_sheets == 0,
        spec_post(s0, Event::Doc { doc, token: t1 }, s1, r1),
        crate::document::spec_has_create_action(doc.panes.card.links@),
        spec_post(s1, Event::TokenOnly { token: t2 }, s2, r2),
    ensures
        r1 matches StepResult::Issue(Request::CreateTimesheet { .. }),
        s1.phase is Initializing,
        r2 matches StepResult::Issue(Request::AdvanceWeek { date, .. }) && date
            == s0.week.unwrap().spec_first_day(),
        s2.op == s0.op,
        s2.week == s0.week,
{
    let m = s0.op.unwrap();
    if let Op::SetTime { minutes, job, task } = m {
        assert(spec_resolution(s0, s1, r1, minutes, job, task));
        assert(s1.sheet.unwrap().needs_initialization);
    }
}

/// Law: the row created for a missing line belongs to the running
/// operation. The job number sent to the row creation is the one the
/// job search returned for the operation's job, the short task name is
/// that of a task whose description matches the operation's task up to
/// case, and the operation itself survives both steps unchanged.
pub proof fn lemma_created_row_is_for_the_operation(
    s0: TimeSheetRepository,
    minutes: u32,
    job: String,
    task: String,
    jn: String,
    s1: TimeSheetRepository,
    r1: StepResult,
    records: Vec<Record<Tasks>>,
    s2: TimeSheetRepository,
    r2: StepResult,
)
    requires
        s0.phase is SearchingJob,
        s0.op == Some(Op::SetTime { minutes, job, task }),
        spec_post(s0, Event::JobFound { job_number: Some(jn) }, s1, r1),
        spec_post(s1, Event::TasksFound { records }, s2, r2),
        spec_task_matches(records@, lower_of(task@)),
    ensures
        r1 matches StepResult::Issue(Request::SearchTasks { job_number }) && job_number == jn,
        r2 matches StepResult::Issue(Request::CreateRow { job_number, task_name, .. })
            && job_number == jn && task_name == records@[crate::search::spec_first_task_match(
            records@,
            lower_of(task@),
        )].data.taskname,
        s2.op == s0.op,
        s2.week == s0.week,
{
    assert(s1.op == s0.op);
    assert(s1.phase matches Phase::SearchingTasks { job_number: p } && p == jn);
}

/// Law: the concurrency-control token carried by the next request is
/// always the one the previous response returned, never an earlier one.
pub proof fn lemma_token_threading(
    s0: TimeSheetRepository,
    ev: Event,
    s1: TimeSheetRepository,
    r: StepResult,
    q: Request,
)
    requires
        spec_post(s0, ev, s1, r),
        r == StepResult::Issue(q),
        spec_event_token(ev) is Some,
        crate::protocol::spec_request_token(q) is Some,
    ensures
        crate::protocol::spec_request_token(q) == spec_event_token(ev),
{
}

} // verus!
