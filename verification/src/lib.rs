//! Timetable snapshots rendered as calendar documents.
//!
//! The library keeps, for each tracked key, what a provider of timetables
//! reports: it turns the provider's entries into occurrences and tasks,
//! merges the days of a fetch window into one snapshot, drives the refresh
//! pipeline of a key as a state machine, registers the keys with the
//! handles to their snapshots, and builds the calendar document that a
//! reader asks for.

pub mod alias;
pub mod auth;
pub mod calendar;
pub mod cycle;
pub mod definitions;
pub mod events;
pub mod pipeline;
pub mod routes;
pub mod snapshot;
pub mod stamps;
pub mod store;
pub mod synth;
pub mod text;
pub mod window;

use crate::events::{Task, TaskView};
use crate::synth::homework_mark;
use crate::text::{glue, decimal, decimal_text};
use vstd::prelude::*;

verus! {

/// The answer of the provider's homework interface.
#[derive(Default, Debug, Clone, PartialEq)]
pub struct Root {
    pub data: Data,
}

/// The homework of a span of days, with the lessons and teachers it names.
#[derive(Default, Debug, Clone, PartialEq)]
pub struct Data {
    pub records: Vec<Record>,
    pub homeworks: Vec<Homework>,
    pub teachers: Vec<Teacher>,
    pub lessons: Vec<Lesson>,
}

/// Which teacher gave a homework item, and to whom.
#[derive(Default, Debug, Clone, PartialEq)]
pub struct Record {
    pub homework_id: i64,
    pub teacher_id: i64,
    pub element_ids: Vec<i64>,
}

/// One homework item; its dates are day numbers such as 20240308.
#[derive(Default, Debug, Clone, PartialEq)]
pub struct Homework {
    pub id: i64,
    pub lesson_id: i64,
    pub date: i64,
    pub due_date: i64,
    pub text: String,
    pub remark: String,
    pub completed: bool,
}

/// A teacher named by a homework record.
#[derive(Default, Debug, Clone, PartialEq)]
pub struct Teacher {
    pub id: i64,
    pub name: String,
}

/// A lesson named by a homework item.
#[derive(Default, Debug, Clone, PartialEq)]
pub struct Lesson {
    pub id: i64,
    pub subject: String,
    pub lesson_type: String,
}

/// `i` is the first lesson of the list with the identifier `id`.
pub open spec fn lesson_choice(lessons: Seq<Lesson>, id: i64, i: int) -> bool {
    &&& 0 <= i < lessons.len()
    &&& lessons[i].id == id
    &&& forall|j: int| 0 <= j < i ==> lessons[j].id != id
}

/// The subject of the first lesson with the identifier `id`, and the empty
/// text where no lesson has it.
pub open spec fn subject_of(lessons: Seq<Lesson>, id: i64) -> Seq<char> {
    if exists|i: int| lesson_choice(lessons, id, i) {
        lessons[choose|i: int| lesson_choice(lessons, id, i)].subject@
    } else {
        Seq::empty()
    }
}

/// The task of a homework item of the homework interface, for a time
/// stamp: it is due on the item's due day and described by its text.
pub open spec fn homework_task(lessons: Seq<Lesson>, item: Homework, stamp: Seq<char>) -> TaskView {
    TaskView {
        group: subject_of(lessons, item.lesson_id),
        id: item.id as int,
        stamp,
        due: decimal_text(item.due_date as int),
        summary: homework_mark() + subject_of(lessons, item.lesson_id),
        description: item.text@,
    }
}

/// The tasks of the items of an answer, in their order.
pub open spec fn homework_tasks(data: Data, stamp: Seq<char>) -> Seq<TaskView> {
    Seq::new(
        data.homeworks@.len(),
        |i: int| homework_task(data.lessons@, data.homeworks@[i], stamp),
    )
}

/// The subject of the first lesson with the identifier `id`.
fn find_subject(lessons: &Vec<Lesson>, id: i64) -> (subject: String)
    ensures
        subject@ == subject_of(lessons@, id),
{
    let mut i: usize = 0;
    while i < lessons.len()
        invariant
            i <= lessons.len(),
            forall|j: int| 0 <= j < i ==> lessons@[j].id != id,
        decreases lessons.len() - i,
    {
        if lessons[i].id == id {
            proof {
                assert(lesson_choice(lessons@, id, i as int));
                let k = choose|k: int| lesson_choice(lessons@, id, k);
                assert(k == i);
            }
            return lessons[i].subject.clone();
        }
        i = i + 1;
    }
    String::new()
}

/// The tasks that an answer of the homework interface gives, one for each
/// of its items and in their order, each under the subject of its lesson
/// and stamped with `stamp`.
pub fn homework(data: &Data, stamp: &str) -> (tasks: Vec<Task>)
    ensures
        crate::events::task_views(tasks@) == homework_tasks(*data, stamp@),
{
    proof {
        reveal_strlit("\u{1F3E0} ");
        assert("\u{1F3E0} "@ =~= homework_mark());
    }
    let mut tasks: Vec<Task> = Vec::new();
    let mut i: usize = 0;
    while i < data.homeworks.len()
        invariant
            i <= data.homeworks.len(),
            "\u{1F3E0} "@ == homework_mark(),
            tasks@.len() == i,
            forall|k: int|
                0 <= k < i ==> (#[trigger] tasks@[k])@ == homework_task(
                    data.lessons@,
                    data.homeworks@[k],
                    stamp@,
                ),
        decreases data.homeworks.len() - i,
    {
        let item = &data.homeworks[i];
        let subject = find_subject(&data.lessons, item.lesson_id);
        let task = Task {
            summary: glue("\u{1F3E0} ", subject.as_str()),
            group: subject,
            id: item.id,
            stamp: stamp.to_owned(),
            due: decimal(item.due_date),
            description: item.text.clone(),
        };
        tasks.push(task);
        i = i + 1;
    }
    assert(crate::events::task_views(tasks@) =~= homework_tasks(*data, stamp@));
    tasks
}

} // verus!
