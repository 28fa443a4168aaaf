//! The domain façade over the synchronizer: clearing is setting to
//! zero, and the synchronizer's errors map onto the user-facing ones.

use crate::day::Days;
use crate::errors::ErrorStack;
use crate::line_number::LineNumber;
use crate::protocol::{Event, RepoError};
use crate::repository::{spec_started, Op, StepResult, TimeSheetRepository};
use crate::week::WeekNumber;
use vstd::prelude::*;

verus! {

/// The errors a set-time command can surface to the user.
pub enum SetTimeError {
    JobNotFound(String),
    TaskNotFound(String),
    Unknown(ErrorStack),
}

/// Maps a synchronizer error onto the user-facing taxonomy, variant for
/// variant.
pub fn set_time_error_from(e: RepoError) -> (r: SetTimeError)
    ensures
        match e {
            RepoError::JobNotFound(name) => r matches SetTimeError::JobNotFound(got) && got
                == name,
            RepoError::TaskNotFound(name) => r matches SetTimeError::TaskNotFound(got) && got
                == name,
            RepoError::Unknown(stack) => r matches SetTimeError::Unknown(got) && got == stack,
        },
{
    match e {
        RepoError::JobNotFound(name) => SetTimeError::JobNotFound(name),
        RepoError::TaskNotFound(name) => SetTimeError::TaskNotFound(name),
        RepoError::Unknown(stack) => SetTimeError::Unknown(stack),
    }
}

/// The thin policy layer over the repository.
pub struct TimeSheetService {
    pub repository: TimeSheetRepository,
}

impl TimeSheetService {
    pub fn new(repository: TimeSheetRepository) -> (r: TimeSheetService)
        ensures
            r.repository == repository,
    {
        TimeSheetService { repository }
    }

    /// Starts setting hours, as whole minutes, on the given days.
    pub fn set_time(
        &mut self,
        minutes: u32,
        days: &Days,
        week: WeekNumber,
        job: String,
        task: String,
    ) -> (r: StepResult)
        requires
            old(self).repository.inv(),
            old(self).repository.phase is Idle,
            week.wf(),
            days.wf(),
        ensures
            final(self).repository.inv(),
            spec_started(old(self).repository, final(self).repository, r, week),
            final(self).repository.op == Some(Op::SetTime { minutes, job, task }),
    {
        self.repository.start_set_time(minutes, days, week, job, task)
    }

    /// Starts clearing the given days: clearing is setting zero minutes.
    pub fn clear(&mut self, days: &Days, week: WeekNumber, job: String, task: String) -> (r:
        StepResult)
        requires
            old(self).repository.inv(),
            old(self).repository.phase is Idle,
            week.wf(),
            days.wf(),
        ensures
            final(self).repository.inv(),
            spec_started(old(self).repository, final(self).repository, r, week),
            final(self).repository.op == Some(Op::SetTime { minutes: 0, job, task }),
    {
        self.repository.start_set_time(0, days, week, job, task)
    }

    /// Starts deleting a line of the week's sheet.
    pub fn delete_line(&mut self, line: LineNumber, week: WeekNumber) -> (r: StepResult)
        requires
            old(self).repository.inv(),
            old(self).repository.phase is Idle,
            week.wf(),
        ensures
            final(self).repository.inv(),
            spec_started(old(self).repository, final(self).repository, r, week),
            final(self).repository.op == Some(Op::Delete { line }),
    {
        self.repository.start_delete(line, week)
    }

    /// Starts submitting the week's sheet.
    pub fn submit(&mut self, week: WeekNumber) -> (r: StepResult)
        requires
            old(self).repository.inv(),
            old(self).repository.phase is Idle,
            week.wf(),
        ensures
            final(self).repository.inv(),
            spec_started(old(self).repository, final(self).repository, r, week),
            final(self).repository.op == Some(Op::Submit),
    {
        self.repository.start_submit(week)
    }

    /// Forwards an answer to the synchronizer.
    pub fn on_event(&mut self, ev: Event) -> (r: StepResult)
        requires
            old(self).repository.inv(),
        ensures
            final(self).repository.inv(),
            crate::repository::spec_post(old(self).repository, ev, final(self).repository, r),
    {
        self.repository.on_event(ev)
    }
}

} // verus!
