use untis_calendar::events::Task;
use untis_calendar::{homework, Data, Homework, Lesson, Record, Root, Teacher};

fn data() -> Data {
    Data {
        records: vec![Record { homework_id: 42, teacher_id: 3, element_ids: vec![1708] }],
        homeworks: vec![
            Homework {
                id: 42,
                lesson_id: 5,
                date: 20240301,
                due_date: 20240308,
                text: "read\nchapter 3".to_string(),
                ..Homework::default()
            },
            Homework { id: 43, lesson_id: 9, due_date: 20240311, ..Homework::default() },
        ],
        teachers: vec![Teacher { id: 3, name: "Lovelace".to_string() }],
        lessons: vec![
            Lesson { id: 5, subject: "MA".to_string(), lesson_type: "lesson".to_string() },
            Lesson { id: 5, subject: "DE".to_string(), lesson_type: "lesson".to_string() },
        ],
    }
}

#[test]
fn tasks_of_the_homework_interface() {
    let root = Root { data: data() };
    let tasks = homework(&root.data, "20240301T100000");
    assert_eq!(
        tasks,
        vec![
            Task {
                group: "MA".to_string(),
                id: 42,
                stamp: "20240301T100000".to_string(),
                due: "20240308".to_string(),
                summary: "\u{1F3E0} MA".to_string(),
                description: "read\nchapter 3".to_string(),
            },
            Task {
                group: String::new(),
                id: 43,
                stamp: "20240301T100000".to_string(),
                due: "20240311".to_string(),
                summary: "\u{1F3E0} ".to_string(),
                description: String::new(),
            },
        ]
    );
}

#[test]
fn no_homework_no_task() {
    assert_eq!(homework(&Data::default(), "x"), Vec::<Task>::new());
}
