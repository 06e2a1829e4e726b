//! The record shapes in which the timetable provider answers a day query.
//!
//! Only the fields with a fixed shape are held here; loosely typed payload
//! fields end at the decoding boundary.

use vstd::prelude::*;

verus! {

/// The answer to one day query.
#[derive(Default, Debug, Clone, PartialEq)]
pub struct Root {
    pub calendar_entries: Vec<CalendarEntry>,
}

/// One timetable period as the provider reports it.
#[derive(Default, Debug, Clone, PartialEq)]
pub struct CalendarEntry {
    pub id: i64,
    pub previous_id: Option<i64>,
    pub next_id: Option<i64>,
    pub color: String,
    pub end_date_time: String,
    pub homeworks: Vec<Homework>,
    pub klasses: Vec<Klass>,
    pub lesson: Lesson,
    pub main_student_group: Option<MainStudentGroup>,
    pub permissions: Vec<String>,
    pub rooms: Vec<Room>,
    pub single_entries: Vec<SingleEntry>,
    pub start_date_time: String,
    pub status: Status,
    pub sub_type: Option<SubType>,
    pub subject: Subject,
    pub teachers: Vec<Teacher>,
    pub teaching_content: Option<String>,
    pub type_field: Type,
}

/// The state of a period, a room or a teacher within a period.
#[derive(Default, Debug, Clone, PartialEq)]
pub enum Status {
    #[default]
    TakingPlace,
    Cancelled,
    Moved,
    Substitution,
    Removed,
    Regular,
    Default(String),
}

/// The kind of a period.
#[derive(Default, Debug, Clone, PartialEq)]
pub enum Type {
    #[default]
    NormalTeachingPeriod,
    AddiotionalPeriod,
}

/// One homework item attached to a period.
#[derive(Default, Debug, Clone, PartialEq)]
pub struct Homework {
    pub completed: bool,
    pub date_time: String,
    pub due_date_time: String,
    pub id: i64,
    pub remark: String,
    pub text: String,
}

/// A class attending a period.
#[derive(Default, Debug, Clone, PartialEq)]
pub struct Klass {
    pub display_name: String,
    pub has_timetable: bool,
    pub id: i64,
    pub long_name: String,
    pub short_name: String,
}

/// The lesson that a period belongs to.
#[derive(Default, Debug, Clone, PartialEq)]
pub struct Lesson {
    pub lesson_id: i64,
    pub lesson_number: i64,
}

/// The student group that a period is held for.
#[derive(Default, Debug, Clone, PartialEq)]
pub struct MainStudentGroup {
    pub id: i64,
    pub name: String,
}

/// A room listed for a period, with its own state.
#[derive(Default, Debug, Clone, PartialEq)]
pub struct Room {
    pub display_name: String,
    pub has_timetable: bool,
    pub id: i64,
    pub long_name: String,
    pub short_name: String,
    pub status: Status,
}

/// One of the single entries that make up a period.
#[derive(Default, Debug, Clone, PartialEq)]
pub struct SingleEntry {
    pub id: i64,
    pub previous_id: Option<i64>,
    pub next_id: Option<i64>,
    pub end_date_time: String,
    pub permissions: Vec<String>,
    pub start_date_time: String,
    pub teaching_content: Option<String>,
}

/// The sub type of a period.
#[derive(Default, Debug, Clone, PartialEq)]
pub struct SubType {
    pub display_in_period_details: bool,
    pub display_name: String,
    pub id: i64,
}

/// The subject taught in a period.
#[derive(Default, Debug, Clone, PartialEq)]
pub struct Subject {
    pub display_name: String,
    pub has_timetable: bool,
    pub id: i64,
    pub long_name: String,
    pub short_name: String,
}

/// A teacher listed for a period; `status` is the provider's own word.
#[derive(Default, Debug, Clone, PartialEq)]
pub struct Teacher {
    pub display_name: String,
    pub has_timetable: bool,
    pub id: i64,
    pub long_name: String,
    pub short_name: String,
    pub status: String,
}

impl Status {
    /// Tells whether this is the state of something taken off a period.
    pub fn is_removed(&self) -> (b: bool)
        ensures
            b == (*self is Removed),
    {
        match self {
            Status::Removed => true,
            _ => false,
        }
    }
}

} // verus!
