//! The domain view of a weekly time sheet.
//!
//! A sheet holds one line per (job, task) pair with the registered
//! minutes for each of the seven days, the week it belongs to, and
//! whether the server still has to initialize the week. Lines are found
//! by case-insensitive match on job and task names.

use crate::document::{TableRecord, TimeRegistration};
use crate::text::{lower_of, to_lowercase};
use crate::week::WeekNumber;
use vstd::prelude::*;

verus! {

/// An amount of worked time, in whole minutes.
#[derive(Clone, Copy, Debug, PartialEq, Eq, Structural)]
pub struct Hours(pub u32);

/// The seven per-day amounts of one line, Monday through Sunday.
#[derive(Clone, Copy, Debug, PartialEq, Eq, Structural)]
pub struct Week {
    pub monday: Hours,
    pub tuesday: Hours,
    pub wednesday: Hours,
    pub thursday: Hours,
    pub friday: Hours,
    pub saturday: Hours,
    pub sunday: Hours,
}

pub struct Line {
    pub job: String,
    pub task: String,
    pub week: Week,
}

impl Line {
    pub fn new(job: String, task: String, week: Week) -> (r: Line)
        ensures
            r.job == job,
            r.task == task,
            r.week == week,
    {
        Line { job, task, week }
    }

    /// Whether this line belongs to the given job and task, up to case.
    pub open spec fn spec_matches(self, job_lower: Seq<char>, task_lower: Seq<char>) -> bool {
        lower_of(self.job@) == job_lower && lower_of(self.task@) == task_lower
    }
}

pub struct TimeSheet {
    pub lines: Vec<Line>,
    pub week_number: WeekNumber,
    /// True when the server offered the create-timesheet action for the
    /// week, meaning no sheet exists there yet.
    pub needs_initialization: bool,
}

impl TimeSheet {
    pub fn new(lines: Vec<Line>, week_number: WeekNumber, needs_initialization: bool) -> (r:
        TimeSheet)
        ensures
            r.lines == lines,
            r.week_number == week_number,
            r.needs_initialization == needs_initialization,
    {
        TimeSheet { lines, week_number, needs_initialization }
    }

    /// The 0-based row of the first line matching the job and task up
    /// to case, as the server numbers rows.
    pub fn find_line_nr(&self, job: &str, task: &str) -> (r: Option<usize>)
        ensures
            match r {
                Some(i) => i < self.lines@.len() && self.lines@[i as int].spec_matches(
                    lower_of(job@),
                    lower_of(task@),
                ) && (forall|j: int|
                    0 <= j < i ==> !(#[trigger] self.lines@[j]).spec_matches(
                        lower_of(job@),
                        lower_of(task@),
                    )),
                None => forall|j: int|
                    0 <= j < self.lines@.len() ==> !(#[trigger] self.lines@[j]).spec_matches(
                        lower_of(job@),
                        lower_of(task@),
                    ),
            },
    {
        let jl = to_lowercase(job);
        let tl = to_lowercase(task);
        let mut i: usize = 0;
        while i < self.lines.len()
            invariant
                0 <= i <= self.lines@.len(),
                jl@ == lower_of(job@),
                tl@ == lower_of(task@),
                forall|j: int|
                    0 <= j < i ==> !(#[trigger] self.lines@[j]).spec_matches(
                        lower_of(job@),
                        lower_of(task@),
                    ),
            decreases self.lines@.len() - i,
        {
            let line = &self.lines[i];
            let lj = to_lowercase(line.job.as_str());
            let lt = to_lowercase(line.task.as_str());
            if lj == jl && lt == tl {
                return Some(i);
            }
            i = i + 1;
        }
        None
    }
}

/// Two sheets with the same lines, week and initialization flag.
pub open spec fn sheet_like(a: TimeSheet, b: TimeSheet) -> bool {
    &&& a.lines@ == b.lines@
    &&& a.week_number == b.week_number
    &&& a.needs_initialization == b.needs_initialization
}

impl Line {
    pub fn duplicate(&self) -> (r: Line)
        ensures
            r == *self,
    {
        Line { job: self.job.clone(), task: self.task.clone(), week: self.week }
    }
}

impl TimeSheet {
    /// A value equal to this sheet in every observable way.
    pub fn duplicate(&self) -> (r: TimeSheet)
        ensures
            sheet_like(*self, r),
    {
        let mut lines: Vec<Line> = Vec::new();
        let mut i: usize = 0;
        while i < self.lines.len()
            invariant
                0 <= i <= self.lines@.len(),
                lines@.len() == i,
                forall|j: int| 0 <= j < i ==> lines@[j] == self.lines@[j],
            decreases self.lines@.len() - i,
        {
            lines.push(self.lines[i].duplicate());
            i = i + 1;
        }
        proof {
            assert(lines@ =~= self.lines@);
        }
        TimeSheet {
            lines,
            week_number: self.week_number,
            needs_initialization: self.needs_initialization,
        }
    }
}

/// The domain line a table record denotes: the user-facing job name,
/// the long task name, and the seven per-day amounts.
pub fn line_from_record(record: &TableRecord) -> (r: Line)
    ensures
        r.job == record.data.jobnamevar,
        r.task == record.data.tasktextvar,
        r.week.monday.0 == record.data.numberday1,
        r.week.tuesday.0 == record.data.numberday2,
        r.week.wednesday.0 == record.data.numberday3,
        r.week.thursday.0 == record.data.numberday4,
        r.week.friday.0 == record.data.numberday5,
        r.week.saturday.0 == record.data.numberday6,
        r.week.sunday.0 == record.data.numberday7,
{
    let d = &record.data;
    Line {
        job: d.jobnamevar.clone(),
        task: d.tasktextvar.clone(),
        week: Week {
            monday: Hours(d.numberday1),
            tuesday: Hours(d.numberday2),
            wednesday: Hours(d.numberday3),
            thursday: Hours(d.numberday4),
            friday: Hours(d.numberday5),
            saturday: Hours(d.numberday6),
            sunday: Hours(d.numberday7),
        },
    }
}

/// The domain sheet a server document denotes, for the requested week:
/// one line per table record, in order, and the initialization flag read
/// from the card pane's links.
/// Whether a domain line carries exactly what a table record holds: the
/// user-facing names and the seven per-day amounts.
pub open spec fn line_denotes(line: Line, record: TableRecord) -> bool {
    &&& line.job == record.data.jobnamevar
    &&& line.task == record.data.tasktextvar
    &&& line.week.monday.0 == record.data.numberday1
    &&& line.week.tuesday.0 == record.data.numberday2
    &&& line.week.wednesday.0 == record.data.numberday3
    &&& line.week.thursday.0 == record.data.numberday4
    &&& line.week.friday.0 == record.data.numberday5
    &&& line.week.saturday.0 == record.data.numberday6
    &&& line.week.sunday.0 == record.data.numberday7
}

pub fn sheet_from_registration(doc: &TimeRegistration, week: WeekNumber) -> (r: TimeSheet)
    ensures
        r.week_number == week,
        r.needs_initialization == crate::document::spec_has_create_action(doc.panes.card.links@),
        r.lines@.len() == doc.panes.table.records@.len(),
        forall|i: int|
            0 <= i < r.lines@.len() ==> line_denotes(
                #[trigger] r.lines@[i],
                doc.panes.table.records@[i],
            ),
{
    let needs_initialization = crate::document::has_create_timesheet_action(&doc.panes.card);
    let mut lines: Vec<Line> = Vec::new();
    let records = &doc.panes.table.records;
    let mut i: usize = 0;
    while i < records.len()
        invariant
            0 <= i <= records@.len(),
            lines@.len() == i,
            forall|j: int| 0 <= j < i ==> line_denotes(#[trigger] lines@[j], records@[j]),
        decreases records@.len() - i,
    {
        lines.push(line_from_record(&records[i]));
        i = i + 1;
    }
    TimeSheet { lines, week_number: week, needs_initialization }
}

} // verus!
