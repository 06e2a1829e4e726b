//! The two kinds of calendar entry that a snapshot holds: the occurrence of a
//! timetable period and the task that a homework item gives.

use vstd::prelude::*;

verus! {

/// Whether a period takes place.
#[derive(Debug, Clone, Copy, PartialEq, Eq, Structural)]
pub enum OccurrenceStatus {
    Confirmed,
    Cancelled,
}

/// One timetable period rendered as a calendar event. Its identity is the
/// provider's entry id.
#[derive(Debug, PartialEq, Eq)]
pub struct Occurrence {
    pub group: String,
    pub id: i64,
    pub stamp: String,
    pub start: String,
    pub end: String,
    pub summary: String,
    pub description: String,
    pub location: String,
    pub status: OccurrenceStatus,
}

/// What an `Occurrence` holds, as mathematical values.
pub struct OccurrenceView {
    pub group: Seq<char>,
    pub id: int,
    pub stamp: Seq<char>,
    pub start: Seq<char>,
    pub end: Seq<char>,
    pub summary: Seq<char>,
    pub description: Seq<char>,
    pub location: Seq<char>,
    pub status: OccurrenceStatus,
}

/// One homework item rendered as a calendar event. Two tasks are the same
/// task only if they agree in every field.
#[derive(Debug, PartialEq, Eq)]
pub struct Task {
    pub group: String,
    pub id: i64,
    pub stamp: String,
    pub due: String,
    pub summary: String,
    pub description: String,
}

/// What a `Task` holds, as mathematical values.
pub struct TaskView {
    pub group: Seq<char>,
    pub id: int,
    pub stamp: Seq<char>,
    pub due: Seq<char>,
    pub summary: Seq<char>,
    pub description: Seq<char>,
}

impl View for Occurrence {
    type V = OccurrenceView;

    open spec fn view(&self) -> OccurrenceView {
        OccurrenceView {
            group: self.group@,
            id: self.id as int,
            stamp: self.stamp@,
            start: self.start@,
            end: self.end@,
            summary: self.summary@,
            description: self.description@,
            location: self.location@,
            status: self.status,
        }
    }
}

impl View for Task {
    type V = TaskView;

    open spec fn view(&self) -> TaskView {
        TaskView {
            group: self.group@,
            id: self.id as int,
            stamp: self.stamp@,
            due: self.due@,
            summary: self.summary@,
            description: self.description@,
        }
    }
}

/// The views of a sequence of occurrences.
pub open spec fn occurrence_views(items: Seq<Occurrence>) -> Seq<OccurrenceView> {
    Seq::new(items.len(), |i: int| items[i]@)
}

/// The views of a sequence of tasks.
pub open spec fn task_views(items: Seq<Task>) -> Seq<TaskView> {
    Seq::new(items.len(), |i: int| items[i]@)
}

impl Clone for Occurrence {
    fn clone(&self) -> (copy: Occurrence)
        ensures
            copy == *self,
    {
        Occurrence {
            group: self.group.clone(),
            id: self.id,
            stamp: self.stamp.clone(),
            start: self.start.clone(),
            end: self.end.clone(),
            summary: self.summary.clone(),
            description: self.description.clone(),
            location: self.location.clone(),
            status: self.status,
        }
    }
}

impl Clone for Task {
    fn clone(&self) -> (copy: Task)
        ensures
            copy == *self,
    {
        Task {
            group: self.group.clone(),
            id: self.id,
            stamp: self.stamp.clone(),
            due: self.due.clone(),
            summary: self.summary.clone(),
            description: self.description.clone(),
        }
    }
}

impl Task {
    /// Tells whether the two tasks agree in every field.
    pub fn same(&self, other: &Task) -> (b: bool)
        ensures
            b == (self@ == other@),
    {
        self.id == other.id && self.group == other.group && self.stamp == other.stamp && self.due
            == other.due && self.summary == other.summary && self.description
            == other.description
    }
}

} // verus!
