//! The record shapes exchanged with the HR platform, held as plain values.
//!
//! The crate computes over these records only through the `String` fields the
//! classifiers read; everything else is carried through unchanged.

use vstd::prelude::*;

verus! {

/// One "who's out" record: a span of days off of some kind. A bank holiday
/// arrives as a record whose `kind` is `"holiday"`.
pub struct TimeOffEntry {
    pub id: i32,
    /// The platform's free-form classification of the absence.
    pub kind: String,
    pub employee_id: Option<i32>,
    pub name: String,
    /// First day of the span, `YYYY-MM-DD`.
    pub start: String,
    /// Last day of the span, `YYYY-MM-DD`.
    pub end: String,
}

/// The approval actions available on a time-off request.
pub struct Actions {
    pub view: bool,
    pub edit: bool,
    pub cancel: bool,
    pub approve: bool,
    pub deny: bool,
    pub bypass: bool,
}

/// The overall amount a time-off request asks for.
pub struct Amount {
    pub unit: String,
    pub amount: String,
}

/// The free-text notes attached to a time-off request.
pub struct Notes {
    pub employee: Option<String>,
    pub manager: Option<String>,
}

/// The category of a time-off request.
pub struct RequestType {
    pub id: String,
    pub name: String,
    pub icon: String,
}

/// The approval state of a time-off request.
pub struct Status {
    pub last_changed: String,
    pub last_changed_by_user_id: String,
    pub status: String,
}

/// One leave request, possibly spanning many days. `dates` maps each day of
/// the span (`YYYY-MM-DD`) to the fraction of that day requested, as the
/// platform's amount string (`"1"` for a full day); it is held as a list of
/// pairs in the order the platform sent them.
pub struct TimeOffRequest {
    pub id: String,
    pub employee_id: String,
    pub name: String,
    pub status: Status,
    pub start: String,
    pub end: String,
    pub created: String,
    pub kind: RequestType,
    pub amount: Amount,
    pub actions: Option<Actions>,
    pub dates: Option<Vec<(String, String)>>,
    pub notes: Option<Notes>,
}

/// A project a timesheet entry can be booked on.
pub struct Project {
    pub id: u32,
    pub name: String,
}

/// A task within a project.
pub struct Task {
    pub id: u32,
    pub name: String,
}

/// The project and task a timesheet entry is booked on.
pub struct ProjectInfo {
    pub project: Project,
    pub task: Task,
}

/// One existing timesheet entry; only its `date` matters to the
/// reconciliation.
pub struct TimsheetEntry {
    pub id: u32,
    pub employee_id: i32,
    pub kind: String,
    /// The day the entry is booked on, `YYYY-MM-DD`.
    pub date: String,
    pub start: String,
    pub end: String,
    pub timezone: String,
    pub hours: u32,
    pub note: Option<String>,
    pub project_info: Option<ProjectInfo>,
    pub approved_at: Option<String>,
    pub approved: Option<bool>,
}

/// One timesheet entry to be created.
pub struct AddTimesheetEntry {
    pub employee_id: i32,
    pub date: String,
    pub start: String,
    pub end: String,
}

/// The body of a request creating timesheet entries.
pub struct AddEntryRequest {
    pub entries: Vec<AddTimesheetEntry>,
}

} // verus!
