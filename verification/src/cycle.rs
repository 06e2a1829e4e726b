//! One refresh cycle: the entries of each fetched day become occurrences and
//! tasks, and the days of the window are merged into one snapshot.

use crate::alias::AliasMap;
use crate::definitions::{CalendarEntry, Root};
use crate::events::{occurrence_views, task_views, Occurrence, OccurrenceView, Task, TaskView};
use crate::snapshot::{extended, merged_lists, merged_sets, set_at, united, Snapshot};
use crate::stamps::{is_stamp, may_stamp};
use crate::synth::{create_block_event, create_hw_events, gives_occurrence, occurrence_of, task_of};
use vstd::prelude::*;

verus! {

/// `found` are the occurrences of the entries that give one, in the order of
/// the entries. Their three time stamps are what the conversion of the
/// entry's times and of the present moment may give.
pub open spec fn occurrences_fit(
    entries: Seq<CalendarEntry>,
    aliases: Map<Seq<char>, Seq<char>>,
    found: Seq<OccurrenceView>,
) -> bool
    decreases entries.len(),
{
    if entries.len() == 0 {
        found.len() == 0
    } else if gives_occurrence(entries.last()) {
        &&& found.len() > 0
        &&& found.last() == occurrence_of(
            entries.last(),
            aliases,
            found.last().stamp,
            found.last().start,
            found.last().end,
        )
        &&& is_stamp(found.last().stamp)
        &&& may_stamp(entries.last().start_date_time@, found.last().start)
        &&& may_stamp(entries.last().end_date_time@, found.last().end)
        &&& occurrences_fit(entries.drop_last(), aliases, found.drop_last())
    } else {
        occurrences_fit(entries.drop_last(), aliases, found)
    }
}

/// `found` are the tasks of the homework items of the entries, one for each
/// item and in their order, each stamped with what the conversion of the
/// item's time may give.
pub open spec fn tasks_fit(entries: Seq<CalendarEntry>, found: Seq<TaskView>) -> bool
    decreases entries.len(),
{
    if entries.len() == 0 {
        found.len() == 0
    } else {
        let entry = entries.last();
        let cut = found.len() - entry.homeworks@.len();
        &&& cut >= 0
        &&& forall|j: int|
            0 <= j < entry.homeworks@.len() ==> #[trigger] found[cut + j] == task_of(
                entry.subject.display_name@,
                entry.homeworks@[j],
                found[cut + j].stamp,
            ) && may_stamp(entry.homeworks@[j].date_time@, found[cut + j].stamp)
        &&& tasks_fit(entries.drop_last(), found.take(cut))
    }
}

/// `found` are the tasks of the entries of the answers, answer after
/// answer, each part as `tasks_fit` says.
pub open spec fn homework_fits(payloads: Seq<Root>, found: Seq<TaskView>) -> bool
    decreases payloads.len(),
{
    if payloads.len() == 0 {
        found.len() == 0
    } else {
        exists|cut: int|
            {
                &&& 0 <= cut <= found.len()
                &&& homework_fits(payloads.drop_last(), #[trigger] found.take(cut))
                &&& tasks_fit(payloads.last().calendar_entries@, found.skip(cut))
            }
    }
}

/// The occurrences of a list put into groups, each behind those that came
/// before it.
pub open spec fn blocks_from(found: Seq<OccurrenceView>) -> Map<Seq<char>, Seq<OccurrenceView>>
    decreases found.len(),
{
    if found.len() == 0 {
        Map::empty()
    } else {
        extended(blocks_from(found.drop_last()), found.last().group, seq![found.last()])
    }
}

/// The tasks of a list put into groups, each group a set.
pub open spec fn task_sets_from(found: Seq<TaskView>) -> Map<Seq<char>, Set<TaskView>>
    decreases found.len(),
{
    if found.len() == 0 {
        Map::empty()
    } else {
        united(task_sets_from(found.drop_last()), found.last().group, set![found.last()])
    }
}

/// The occurrences of the days of a window under each group, day after day.
pub open spec fn window_blocks(days: Seq<Snapshot>) -> Map<Seq<char>, Seq<OccurrenceView>>
    decreases days.len(),
{
    if days.len() == 0 {
        Map::empty()
    } else {
        merged_lists(days[0].blocks(), window_blocks(days.drop_first()))
    }
}

/// The tasks of the days of a window under each group, each task once.
pub open spec fn window_tasks(days: Seq<Snapshot>) -> Map<Seq<char>, Set<TaskView>>
    decreases days.len(),
{
    if days.len() == 0 {
        Map::empty()
    } else {
        merged_sets(days[0].tasks(), window_tasks(days.drop_first()))
    }
}

/// The teachers' groups of the days of a window.
pub open spec fn window_teachers(days: Seq<Snapshot>) -> Set<(Seq<char>, Seq<char>)>
    decreases days.len(),
{
    if days.len() == 0 {
        Set::empty()
    } else {
        days[0].teachers().union(window_teachers(days.drop_first()))
    }
}

/// Merging a snapshot whose tasks are all there already changes no group's
/// tasks.
pub proof fn lemma_covered_tasks_change_nothing(
    held: Map<Seq<char>, Set<TaskView>>,
    again: Map<Seq<char>, Set<TaskView>>,
)
    requires
        forall|g: Seq<char>|
            again.contains_key(g) ==> held.contains_key(g) && again[g].subset_of(held[g]),
    ensures
        merged_sets(held, again) == held,
{
    assert(merged_sets(held, again) =~~= held);
}

/// Merging the snapshot of a day a second time changes no group's tasks, and
/// so not their number.
pub proof fn lemma_remerge_keeps_tasks(snapshot: Snapshot, day: Snapshot)
    ensures
        merged_sets(merged_sets(snapshot.tasks(), day.tasks()), day.tasks()) == merged_sets(
            snapshot.tasks(),
            day.tasks(),
        ),
        forall|g: Seq<char>|
            set_at(merged_sets(merged_sets(snapshot.tasks(), day.tasks()), day.tasks()), g).len()
                == set_at(merged_sets(snapshot.tasks(), day.tasks()), g).len(),
{
    lemma_covered_tasks_change_nothing(merged_sets(snapshot.tasks(), day.tasks()), day.tasks());
}

/// Entries without homework give no task at all.
pub proof fn lemma_no_homework_no_task(entries: Seq<CalendarEntry>, found: Seq<TaskView>)
    requires
        tasks_fit(entries, found),
        forall|i: int| 0 <= i < entries.len() ==> (#[trigger] entries[i]).homeworks@.len() == 0,
    ensures
        found.len() == 0,
    decreases entries.len(),
{
    if entries.len() > 0 {
        assert(entries.last().homeworks@.len() == 0);
        assert(found.take(found.len() as int) =~= found);
        assert forall|i: int| 0 <= i < entries.drop_last().len() implies (
        #[trigger] entries.drop_last()[i]).homeworks@.len() == 0 by {
            assert(entries.drop_last()[i] == entries[i]);
        }
        lemma_no_homework_no_task(entries.drop_last(), found);
    }
}

/// The occurrences of the entries of a day: one for each entry that has a
/// room and a teacher left, in the order of the entries. An entry without
/// is dropped and the others stay.
pub fn day_occurrences(entries: &Vec<CalendarEntry>, aliases: &AliasMap) -> (found: Vec<Occurrence>)
    ensures
        occurrences_fit(entries@, aliases@, occurrence_views(found@)),
{
    let mut found: Vec<Occurrence> = Vec::new();
    let mut i: usize = 0;
    assert(entries@.take(0).len() == 0);
    while i < entries.len()
        invariant
            i <= entries.len(),
            occurrences_fit(entries@.take(i as int), aliases@, occurrence_views(found@)),
        decreases entries.len() - i,
    {
        let ghost before = occurrence_views(found@);
        proof {
            assert(entries@.take(i + 1).drop_last() =~= entries@.take(i as int));
            assert(entries@.take(i + 1).last() == entries@[i as int]);
        }
        match create_block_event(&entries[i], aliases) {
            Ok(occurrence) => {
                found.push(occurrence);
                proof {
                    assert(occurrence_views(found@).drop_last() =~= before);
                    assert(occurrence_views(found@).last() == occurrence@);
                }
            },
            Err(_) => {},
        }
        i = i + 1;
    }
    assert(entries@.take(entries.len() as int) =~= entries@);
    found
}

/// The tasks of the entries of a day: one for each homework item, in the
/// order of the entries and of their items.
pub fn day_tasks(entries: &Vec<CalendarEntry>) -> (found: Vec<Task>)
    ensures
        tasks_fit(entries@, task_views(found@)),
{
    let mut found: Vec<Task> = Vec::new();
    let mut i: usize = 0;
    assert(entries@.take(0).len() == 0);
    while i < entries.len()
        invariant
            i <= entries.len(),
            tasks_fit(entries@.take(i as int), task_views(found@)),
        decreases entries.len() - i,
    {
        let ghost before = task_views(found@);
        proof {
            assert(entries@.take(i + 1).drop_last() =~= entries@.take(i as int));
            assert(entries@.take(i + 1).last() == entries@[i as int]);
        }
        match create_hw_events(&entries[i]) {
            Some((_, mut tasks)) => {
                let ghost added = task_views(tasks@);
                found.append(&mut tasks);
                proof {
                    assert(task_views(found@) =~= before + added);
                    assert(task_views(found@).take(before.len() as int) =~= before);
                }
            },
            None => {
                assert(before.take(before.len() as int) =~= before);
            },
        }
        i = i + 1;
    }
    assert(entries@.take(entries.len() as int) =~= entries@);
    found
}

/// The tasks of the homework items of several answers, answer after
/// answer, one for each item of each entry.
fn homework_items(payloads: &Vec<Root>) -> (found: Vec<Task>)
    ensures
        homework_fits(payloads@, task_views(found@)),
{
    let mut found: Vec<Task> = Vec::new();
    let mut i: usize = 0;
    assert(payloads@.take(0).len() == 0);
    while i < payloads.len()
        invariant
            i <= payloads.len(),
            homework_fits(payloads@.take(i as int), task_views(found@)),
        decreases payloads.len() - i,
    {
        let ghost before = task_views(found@);
        let mut tasks = day_tasks(&payloads[i].calendar_entries);
        let ghost added = task_views(tasks@);
        found.append(&mut tasks);
        proof {
            let now = task_views(found@);
            let cut = before.len() as int;
            assert(now =~= before + added);
            assert(now.take(cut) =~= before);
            assert(now.skip(cut) =~= added);
            assert(payloads@.take(i + 1).drop_last() =~= payloads@.take(i as int));
            assert(payloads@.take(i + 1).last() == payloads@[i as int]);
            assert(homework_fits(payloads@.take(i + 1).drop_last(), now.take(cut)));
        }
        i = i + 1;
    }
    assert(payloads@.take(payloads.len() as int) =~= payloads@);
    found
}

/// The homework of several answers whose spans of days may overlap: the
/// tasks of their homework items under their groups, each task once however
/// many answers report it. The snapshot holds no occurrence and no teacher.
pub fn fetch_homework(payloads: &Vec<Root>) -> (snapshot: Snapshot)
    ensures
        exists|found: Seq<TaskView>|
            homework_fits(payloads@, found) && snapshot.tasks() == #[trigger] task_sets_from(
                found,
            ),
        snapshot.blocks() == Map::<Seq<char>, Seq<OccurrenceView>>::empty(),
        snapshot.teachers() == Set::<(Seq<char>, Seq<char>)>::empty(),
{
    let found = homework_items(payloads);
    let ghost given = task_views(found@);
    let none: Vec<Occurrence> = Vec::new();
    assert(occurrence_views(none@) =~= Seq::<OccurrenceView>::empty());
    let snapshot = collect(none, found);
    assert(homework_fits(payloads@, given) && snapshot.tasks() == task_sets_from(given));
    snapshot
}

/// The snapshot that holds the given occurrences and tasks under their
/// groups and no teacher.
pub fn collect(occurrences: Vec<Occurrence>, tasks: Vec<Task>) -> (snapshot: Snapshot)
    ensures
        snapshot.blocks() == blocks_from(occurrence_views(occurrences@)),
        snapshot.tasks() == task_sets_from(task_views(tasks@)),
        snapshot.teachers() == Set::<(Seq<char>, Seq<char>)>::empty(),
{
    let mut snapshot = Snapshot::new();
    assert(snapshot.tasks() =~= Map::<Seq<char>, Set<TaskView>>::empty());
    let mut i: usize = 0;
    assert(occurrence_views(occurrences@.take(0)).len() == 0);
    while i < occurrences.len()
        invariant
            i <= occurrences.len(),
            snapshot.blocks() == blocks_from(occurrence_views(occurrences@.take(i as int))),
            snapshot.tasks() == Map::<Seq<char>, Set<TaskView>>::empty(),
            snapshot.teachers() == Set::<(Seq<char>, Seq<char>)>::empty(),
        decreases occurrences.len() - i,
    {
        proof {
            let next = occurrence_views(occurrences@.take(i + 1));
            assert(next.drop_last() =~= occurrence_views(occurrences@.take(i as int)));
            assert(next.last() == occurrences@[i as int]@);
        }
        snapshot.add_occurrence(occurrences[i].clone());
        i = i + 1;
    }
    assert(occurrences@.take(occurrences.len() as int) =~= occurrences@);
    let mut j: usize = 0;
    assert(task_views(tasks@.take(0)).len() == 0);
    while j < tasks.len()
        invariant
            j <= tasks.len(),
            snapshot.blocks() == blocks_from(occurrence_views(occurrences@)),
            snapshot.tasks() == task_sets_from(task_views(tasks@.take(j as int))),
            snapshot.teachers() == Set::<(Seq<char>, Seq<char>)>::empty(),
        decreases tasks.len() - j,
    {
        proof {
            let next = task_views(tasks@.take(j + 1));
            assert(next.drop_last() =~= task_views(tasks@.take(j as int)));
            assert(next.last() == tasks@[j as int]@);
        }
        snapshot.add_task(tasks[j].clone());
        j = j + 1;
    }
    assert(tasks@.take(tasks.len() as int) =~= tasks@);
    snapshot
}

/// `day` is what the answer to one day query contributes: nothing where
/// the query failed, and else the occurrences and tasks of the entries
/// under their groups.
pub open spec fn day_fits(
    payload: Option<Root>,
    aliases: Map<Seq<char>, Seq<char>>,
    day: Snapshot,
) -> bool {
    &&& day.teachers() == Set::<(Seq<char>, Seq<char>)>::empty()
    &&& match payload {
        None => {
            &&& day.blocks() == Map::<Seq<char>, Seq<OccurrenceView>>::empty()
            &&& day.tasks() == Map::<Seq<char>, Set<TaskView>>::empty()
        },
        Some(root) => exists|occurrences: Seq<OccurrenceView>, tasks: Seq<TaskView>|
            {
                &&& occurrences_fit(root.calendar_entries@, aliases, occurrences)
                &&& tasks_fit(root.calendar_entries@, tasks)
                &&& day.blocks() == blocks_from(occurrences)
                &&& day.tasks() == task_sets_from(tasks)
            },
    }
}

/// What one day of the window contributes: the occurrences and tasks of its
/// entries under their groups. A day whose query failed, or whose answer
/// could not be read, contributes nothing, as a day without entries does.
pub fn fetch_for_day(payload: &Option<Root>, aliases: &AliasMap) -> (day: Snapshot)
    ensures
        day_fits(*payload, aliases@, day),
{
    match payload {
        Some(root) => {
            let occurrences = day_occurrences(&root.calendar_entries, aliases);
            let tasks = day_tasks(&root.calendar_entries);
            let ghost found = occurrence_views(occurrences@);
            let ghost given = task_views(tasks@);
            let day = collect(occurrences, tasks);
            assert(occurrences_fit(root.calendar_entries@, aliases@, found) && tasks_fit(
                root.calendar_entries@,
                given,
            ) && day.blocks() == blocks_from(found) && day.tasks() == task_sets_from(given));
            day
        },
        None => {
            let day = Snapshot::new();
            assert(day.tasks() =~= Map::<Seq<char>, Set<TaskView>>::empty());
            day
        },
    }
}

/// The days of a window merged into the snapshot of the cycle: under each
/// group the occurrences day after day, and each task once however many
/// days report it.
pub fn merge_days(days: Vec<Snapshot>) -> (merged: Snapshot)
    ensures
        merged.blocks() == window_blocks(days@),
        merged.tasks() == window_tasks(days@),
        merged.teachers() == window_teachers(days@),
{
    let ghost all = days@;
    let mut days = days;
    let mut merged = Snapshot::new();
    proof {
        assert(merged.tasks() =~= Map::<Seq<char>, Set<TaskView>>::empty());
        assert(all.skip(all.len() as int).len() == 0);
    }
    while days.len() > 0
        invariant
            days@ == all.take(days.len() as int),
            days.len() <= all.len(),
            merged.blocks() == window_blocks(all.skip(days.len() as int)),
            merged.tasks() == window_tasks(all.skip(days.len() as int)),
            merged.teachers() == window_teachers(all.skip(days.len() as int)),
        decreases days.len(),
    {
        let ghost rest = all.skip(days.len() as int);
        let day = days.pop().unwrap();
        proof {
            let now = all.skip(days.len() as int);
            assert(now[0] == day);
            assert(now.drop_first() =~= rest);
            assert(days@ =~= all.take(days.len() as int));
        }
        merged = day.merge(merged);
    }
    assert(all.skip(0) =~= all);
    merged
}

/// The snapshot of one cycle from the answers to the day queries of its
/// window, in the order of the days; `None` stands for a query that failed.
/// Each answer contributes what `day_fits` says, and the contributions are
/// merged day after day.
pub fn fetch(payloads: &Vec<Option<Root>>, aliases: &AliasMap) -> (snapshot: Snapshot)
    ensures
        exists|days: Seq<Snapshot>|
            {
                &&& days.len() == payloads@.len()
                &&& forall|i: int|
                    0 <= i < days.len() ==> day_fits(payloads@[i], aliases@, #[trigger] days[i])
                &&& snapshot.blocks() == window_blocks(days)
                &&& snapshot.tasks() == window_tasks(days)
                &&& snapshot.teachers() == window_teachers(days)
            },
{
    let mut days: Vec<Snapshot> = Vec::new();
    let mut i: usize = 0;
    while i < payloads.len()
        invariant
            i <= payloads.len(),
            days@.len() == i,
            forall|k: int| 0 <= k < i ==> day_fits(payloads@[k], aliases@, #[trigger] days@[k]),
        decreases payloads.len() - i,
    {
        let day = fetch_for_day(&payloads[i], aliases);
        days.push(day);
        i = i + 1;
    }
    let ghost made = days@;
    let snapshot = merge_days(days);
    assert(made.len() == payloads@.len() && snapshot.blocks() == window_blocks(made));
    snapshot
}

} // verus!
