//! The aggregate that one refresh cycle publishes: the occurrences of each
//! group in the order in which they were fetched, the tasks of each group as
//! a set, and an index from teachers to groups.

use crate::events::{occurrence_views, task_views, Occurrence, OccurrenceView, Task, TaskView};
use crate::text::{join, join_seq, pair_views, views};
use vstd::prelude::*;

verus! {

/// The items kept under one group name.
#[derive(Debug, PartialEq, Eq)]
struct Bucket<T> {
    name: String,
    items: Vec<T>,
}

/// What one refresh cycle found for a tracked key. A snapshot is built once
/// and then only read.
#[derive(Debug, PartialEq, Eq)]
pub struct Snapshot {
    blocks: Vec<Bucket<Occurrence>>,
    tasks: Vec<Bucket<Task>>,
    teachers: Vec<(String, String)>,
}

/// The list that a map holds under `k`, or the empty list.
pub open spec fn list_at<V>(m: Map<Seq<char>, Seq<V>>, k: Seq<char>) -> Seq<V> {
    if m.contains_key(k) {
        m[k]
    } else {
        Seq::empty()
    }
}

/// The set that a map holds under `k`, or the empty set.
pub open spec fn set_at<V>(m: Map<Seq<char>, Set<V>>, k: Seq<char>) -> Set<V> {
    if m.contains_key(k) {
        m[k]
    } else {
        Set::empty()
    }
}

/// `m` with `items` put behind what it holds under `k`.
pub open spec fn extended<V>(m: Map<Seq<char>, Seq<V>>, k: Seq<char>, items: Seq<V>) -> Map<
    Seq<char>,
    Seq<V>,
> {
    m.insert(k, list_at(m, k) + items)
}

/// `m` with the elements of `more` added to the set that it holds under `k`.
pub open spec fn united<V>(m: Map<Seq<char>, Set<V>>, k: Seq<char>, more: Set<V>) -> Map<
    Seq<char>,
    Set<V>,
> {
    m.insert(k, set_at(m, k).union(more))
}

/// Two maps of lists put together: under each name the list of the first
/// followed by the list of the second.
pub open spec fn merged_lists<V>(a: Map<Seq<char>, Seq<V>>, b: Map<Seq<char>, Seq<V>>) -> Map<
    Seq<char>,
    Seq<V>,
> {
    Map::new(
        |k: Seq<char>| a.contains_key(k) || b.contains_key(k),
        |k: Seq<char>| list_at(a, k) + list_at(b, k),
    )
}

/// Two maps of sets put together: under each name the union of the two sets.
pub open spec fn merged_sets<V>(a: Map<Seq<char>, Set<V>>, b: Map<Seq<char>, Set<V>>) -> Map<
    Seq<char>,
    Set<V>,
> {
    Map::new(
        |k: Seq<char>| a.contains_key(k) || b.contains_key(k),
        |k: Seq<char>| set_at(a, k).union(set_at(b, k)),
    )
}

/// The sets of the elements of the lists of a map.
pub open spec fn sets_of<V>(lists: Map<Seq<char>, Seq<V>>) -> Map<Seq<char>, Set<V>> {
    Map::new(|k: Seq<char>| lists.contains_key(k), |k: Seq<char>| lists[k].to_set())
}

/// The bucket at place `i` has the name `name`.
spec fn named_at<T>(buckets: Seq<Bucket<T>>, name: Seq<char>, i: int) -> bool {
    0 <= i < buckets.len() && buckets[i].name@ == name
}

/// Some bucket has the name `name`.
spec fn has_name<T>(buckets: Seq<Bucket<T>>, name: Seq<char>) -> bool {
    exists|i: int| named_at(buckets, name, i)
}

/// The place of a bucket with the name `name`, where there is one.
spec fn index_of<T>(buckets: Seq<Bucket<T>>, name: Seq<char>) -> int {
    choose|i: int| named_at(buckets, name, i)
}

/// No two buckets have the same name.
spec fn distinct_names<T>(buckets: Seq<Bucket<T>>) -> bool {
    forall|i: int, j: int|
        0 <= i < j < buckets.len() ==> (#[trigger] buckets[i]).name@ != (#[trigger] buckets[j]).name@
}

/// The items of the buckets under their names.
spec fn bucket_map<T>(buckets: Seq<Bucket<T>>) -> Map<Seq<char>, Seq<T>> {
    Map::new(
        |k: Seq<char>| has_name(buckets, k),
        |k: Seq<char>| buckets[index_of(buckets, k)].items@,
    )
}

/// The views of the occurrences of the buckets under their names.
spec fn block_map(buckets: Seq<Bucket<Occurrence>>) -> Map<Seq<char>, Seq<OccurrenceView>> {
    Map::new(
        |k: Seq<char>| has_name(buckets, k),
        |k: Seq<char>| occurrence_views(bucket_map(buckets)[k]),
    )
}

/// The views of the tasks of the buckets under their names.
spec fn task_map(buckets: Seq<Bucket<Task>>) -> Map<Seq<char>, Seq<TaskView>> {
    Map::new(
        |k: Seq<char>| has_name(buckets, k),
        |k: Seq<char>| task_views(bucket_map(buckets)[k]),
    )
}

/// The names of the buckets, in their order.
spec fn names_of<T>(buckets: Seq<Bucket<T>>) -> Seq<Seq<char>> {
    Seq::new(buckets.len(), |i: int| buckets[i].name@)
}

/// The groups that the pairs give for a teacher, in their order.
spec fn groups_in(links: Seq<(String, String)>, teacher: Seq<char>) -> Seq<Seq<char>>
    decreases links.len(),
{
    if links.len() == 0 {
        Seq::empty()
    } else if links.last().0@ == teacher {
        groups_in(links.drop_last(), teacher).push(links.last().1@)
    } else {
        groups_in(links.drop_last(), teacher)
    }
}

/// No bucket holds two tasks that agree in every field.
spec fn tasks_distinct(buckets: Seq<Bucket<Task>>) -> bool {
    forall|i: int| 0 <= i < buckets.len() ==> task_views(#[trigger] buckets[i].items@).no_duplicates()
}

/// With distinct names, a bucket with the name `name` is the one that
/// `index_of` finds.
proof fn lemma_index<T>(buckets: Seq<Bucket<T>>, name: Seq<char>, i: int)
    requires
        distinct_names(buckets),
        named_at(buckets, name, i),
    ensures
        has_name(buckets, name),
        index_of(buckets, name) == i,
{
    let k = index_of(buckets, name);
    assert(named_at(buckets, name, k));
    if k < i {
        assert(buckets[k].name@ != buckets[i].name@);
    } else if i < k {
        assert(buckets[i].name@ != buckets[k].name@);
    }
}

/// A bucket with a new name, put behind the others, adds its items under
/// its name and leaves the rest.
proof fn lemma_after_push<T>(buckets: Seq<Bucket<T>>, b: Bucket<T>)
    requires
        distinct_names(buckets),
        !has_name(buckets, b.name@),
    ensures
        distinct_names(buckets.push(b)),
        bucket_map(buckets.push(b)) == bucket_map(buckets).insert(b.name@, b.items@),
        forall|k: Seq<char>| has_name(buckets.push(b), k) <==> has_name(buckets, k) || k == b.name@,
{
    let new = buckets.push(b);
    let n = buckets.len() as int;
    assert forall|i: int, j: int| 0 <= i < j < new.len() implies (#[trigger] new[i]).name@ != (
    #[trigger] new[j]).name@ by {
        if j == n {
            assert(!named_at(buckets, b.name@, i));
        } else {
            assert(buckets[i].name@ != buckets[j].name@);
        }
    }
    assert forall|k: Seq<char>| has_name(new, k) <==> has_name(buckets, k) || k == b.name@ by {
        if has_name(new, k) {
            let i = index_of(new, k);
            if i < n {
                assert(named_at(buckets, k, i));
            }
        }
        if has_name(buckets, k) {
            assert(named_at(new, k, index_of(buckets, k)));
        }
        if k == b.name@ {
            assert(named_at(new, k, n));
        }
    }
    assert forall|k: Seq<char>| has_name(new, k) implies new[index_of(new, k)].items@ == (if k
        == b.name@ {
        b.items@
    } else {
        buckets[index_of(buckets, k)].items@
    }) by {
        if k == b.name@ {
            assert(named_at(new, k, n));
            lemma_index(new, k, n);
        } else {
            let j = index_of(buckets, k);
            assert(named_at(new, k, j));
            lemma_index(new, k, j);
        }
    }
    assert(bucket_map(new) =~= bucket_map(buckets).insert(b.name@, b.items@));
}

/// A bucket put in place of one with the same name changes the items under
/// that name and leaves the rest.
proof fn lemma_after_update<T>(buckets: Seq<Bucket<T>>, i: int, b: Bucket<T>)
    requires
        distinct_names(buckets),
        0 <= i < buckets.len(),
        b.name@ == buckets[i].name@,
    ensures
        distinct_names(buckets.update(i, b)),
        bucket_map(buckets.update(i, b)) == bucket_map(buckets).insert(b.name@, b.items@),
        forall|k: Seq<char>| has_name(buckets.update(i, b), k) <==> has_name(buckets, k),
        has_name(buckets, b.name@),
{
    let new = buckets.update(i, b);
    assert forall|x: int, y: int| 0 <= x < y < new.len() implies (#[trigger] new[x]).name@ != (
    #[trigger] new[y]).name@ by {
        assert(buckets[x].name@ != buckets[y].name@);
    }
    assert(named_at(buckets, b.name@, i));
    assert forall|k: Seq<char>| has_name(new, k) <==> has_name(buckets, k) by {
        if has_name(new, k) {
            assert(named_at(buckets, k, index_of(new, k)));
        }
        if has_name(buckets, k) {
            assert(named_at(new, k, index_of(buckets, k)));
        }
    }
    assert forall|k: Seq<char>| has_name(new, k) implies new[index_of(new, k)].items@ == (if k
        == b.name@ {
        b.items@
    } else {
        buckets[index_of(buckets, k)].items@
    }) by {
        let j = index_of(buckets, k);
        assert(named_at(new, k, j));
        lemma_index(new, k, j);
        if k == b.name@ {
            lemma_index(buckets, k, i);
        }
    }
    assert(bucket_map(new) =~= bucket_map(buckets).insert(b.name@, b.items@));
}

/// The first `i + 1` buckets are the first `i` with one bucket of a new name
/// behind them.
proof fn lemma_prefix<T>(buckets: Seq<Bucket<T>>, i: int)
    requires
        distinct_names(buckets),
        0 <= i < buckets.len(),
    ensures
        distinct_names(buckets.take(i)),
        distinct_names(buckets.take(i + 1)),
        !has_name(buckets.take(i), buckets[i].name@),
        buckets.take(i + 1) == buckets.take(i).push(buckets[i]),
        bucket_map(buckets.take(i + 1)) == bucket_map(buckets.take(i)).insert(
            buckets[i].name@,
            buckets[i].items@,
        ),
        forall|k: Seq<char>|
            has_name(buckets.take(i + 1), k) <==> has_name(buckets.take(i), k) || k
                == buckets[i].name@,
{
    let head = buckets.take(i);
    assert forall|x: int, y: int| 0 <= x < y < head.len() implies (#[trigger] head[x]).name@ != (
    #[trigger] head[y]).name@ by {
        assert(buckets[x].name@ != buckets[y].name@);
    }
    if has_name(head, buckets[i].name@) {
        let j = index_of(head, buckets[i].name@);
        assert(named_at(head, buckets[i].name@, j));
        assert(buckets[j].name@ != buckets[i].name@);
    }
    assert(buckets.take(i + 1) =~= head.push(buckets[i]));
    lemma_after_push(head, buckets[i]);
}

/// The elements of a list with `x` behind it are those of the list and `x`.
proof fn lemma_push_to_set<A>(s: Seq<A>, x: A)
    ensures
        s.push(x).to_set() == s.to_set().insert(x),
        forall|a: A| #[trigger] s.push(x).contains(a) <==> s.contains(a) || a == x,
{
    let new = s.push(x);
    assert forall|a: A| new.contains(a) <==> s.contains(a) || a == x by {
        if s.contains(a) {
            let i = choose|i: int| 0 <= i < s.len() && s[i] == a;
            assert(new[i] == a);
        }
        if a == x {
            assert(new[s.len() as int] == a);
        }
        if new.contains(a) {
            let i = choose|i: int| 0 <= i < new.len() && new[i] == a;
            if i < s.len() {
                assert(s[i] == a);
            }
        }
    }
    assert(new.to_set() =~= s.to_set().insert(x));
}

/// A list without repetition stays so when an element that it does not hold
/// is put behind it.
proof fn lemma_push_distinct<A>(s: Seq<A>, x: A)
    requires
        s.no_duplicates(),
        !s.contains(x),
    ensures
        s.push(x).no_duplicates(),
{
    let new = s.push(x);
    assert forall|i: int, j: int| 0 <= i < new.len() && 0 <= j < new.len() && i != j implies new[i]
        != new[j] by {
        if i < s.len() && j < s.len() {
        } else if i < s.len() {
            assert(s[i] != x);
        } else {
            assert(s[j] != x);
        }
    }
}

/// The place of the bucket named `name`.
fn position<T>(buckets: &Vec<Bucket<T>>, name: &str) -> (res: Option<usize>)
    ensures
        res is Some <==> has_name(buckets@, name@),
        res matches Some(i) ==> named_at(buckets@, name@, i as int),
{
    let key = name.to_owned();
    let mut i: usize = 0;
    while i < buckets.len()
        invariant
            i <= buckets.len(),
            key@ == name@,
            forall|j: int| 0 <= j < i ==> !named_at(buckets@, name@, j),
        decreases buckets.len() - i,
    {
        if buckets[i].name == key {
            assert(named_at(buckets@, name@, i as int));
            return Some(i);
        }
        i = i + 1;
    }
    None
}

/// Puts `items` behind the items of the bucket named `name`, in a new
/// bucket where there is none.
fn extend_bucket<T>(buckets: &mut Vec<Bucket<T>>, name: String, items: Vec<T>)
    requires
        distinct_names(old(buckets)@),
    ensures
        distinct_names(final(buckets)@),
        bucket_map(final(buckets)@) == extended(bucket_map(old(buckets)@), name@, items@),
        forall|k: Seq<char>|
            has_name(final(buckets)@, k) <==> has_name(old(buckets)@, k) || k == name@,
{
    let mut items = items;
    match position(buckets, name.as_str()) {
        Some(i) => {
            let ghost before = buckets@;
            let bucket = &mut buckets[i];
            bucket.items.append(&mut items);
            proof {
                lemma_index(before, name@, i as int);
                lemma_after_update(before, i as int, buckets@[i as int]);
                assert(buckets@ =~= before.update(i as int, buckets@[i as int]));
            }
        },
        None => {
            let ghost before = buckets@;
            let bucket = Bucket { name, items };
            buckets.push(bucket);
            proof {
                lemma_after_push(before, bucket);
                assert(list_at(bucket_map(before), name@) + bucket.items@ =~= bucket.items@);
            }
        },
    }
}

/// Tells whether a task with the same fields as `task` is among `items`.
fn holds_task(items: &Vec<Task>, task: &Task) -> (b: bool)
    ensures
        b == task_views(items@).contains(task@),
{
    let mut i: usize = 0;
    while i < items.len()
        invariant
            i <= items.len(),
            forall|j: int| 0 <= j < i ==> task_views(items@)[j] != task@,
        decreases items.len() - i,
    {
        if items[i].same(task) {
            assert(task_views(items@)[i as int] == task@);
            return true;
        }
        i = i + 1;
    }
    false
}

/// Adds to `items` each task of `more` that it does not hold yet.
fn unite_tasks(items: &mut Vec<Task>, more: &Vec<Task>)
    requires
        task_views(old(items)@).no_duplicates(),
    ensures
        task_views(final(items)@).no_duplicates(),
        task_views(final(items)@).to_set() == task_views(old(items)@).to_set().union(
            task_views(more@).to_set(),
        ),
{
    let mut j: usize = 0;
    assert(task_views(more@.take(0)).to_set() =~= Set::<TaskView>::empty());
    assert(task_views(items@).to_set().union(Set::<TaskView>::empty()) =~= task_views(
        items@,
    ).to_set());
    while j < more.len()
        invariant
            j <= more.len(),
            task_views(items@).no_duplicates(),
            task_views(items@).to_set() == task_views(old(items)@).to_set().union(
                task_views(more@.take(j as int)).to_set(),
            ),
        decreases more.len() - j,
    {
        let ghost before = items@;
        let ghost seen = task_views(more@.take(j as int));
        proof {
            assert(task_views(more@.take(j + 1)) =~= seen.push(more@[j as int]@));
            lemma_push_to_set(seen, more@[j as int]@);
        }
        if !holds_task(items, &more[j]) {
            items.push(more[j].clone());
            proof {
                assert(task_views(items@) =~= task_views(before).push(more@[j as int]@));
                lemma_push_to_set(task_views(before), more@[j as int]@);
                lemma_push_distinct(task_views(before), more@[j as int]@);
            }
        }
        assert(task_views(items@).to_set() =~= task_views(old(items)@).to_set().union(
            task_views(more@.take(j + 1)).to_set(),
        ));
        j = j + 1;
    }
    assert(more@.take(more.len() as int) =~= more@);
}

/// Adds the tasks of `more` to the set of the bucket named `name`, in a new
/// bucket where there is none.
fn unite_bucket(buckets: &mut Vec<Bucket<Task>>, name: String, more: &Vec<Task>)
    requires
        distinct_names(old(buckets)@),
        tasks_distinct(old(buckets)@),
    ensures
        distinct_names(final(buckets)@),
        tasks_distinct(final(buckets)@),
        sets_of(task_map(final(buckets)@)) == united(
            sets_of(task_map(old(buckets)@)),
            name@,
            task_views(more@).to_set(),
        ),
{
    let ghost before = buckets@;
    match position(buckets, name.as_str()) {
        Some(i) => {
            assert(task_views(before[i as int].items@).no_duplicates());
            let bucket = &mut buckets[i];
            unite_tasks(&mut bucket.items, more);
            proof {
                let after = buckets@;
                lemma_index(before, name@, i as int);
                lemma_after_update(before, i as int, after[i as int]);
                assert(after =~= before.update(i as int, after[i as int]));
                assert forall|x: int| 0 <= x < after.len() implies task_views(
                    #[trigger] after[x].items@,
                ).no_duplicates() by {
                    if x != i {
                        assert(after[x] == before[x]);
                    }
                }
                assert(sets_of(task_map(after)) =~= united(
                    sets_of(task_map(before)),
                    name@,
                    task_views(more@).to_set(),
                ));
            }
        },
        None => {
            let mut items: Vec<Task> = Vec::new();
            assert(task_views(items@).to_set() =~= Set::<TaskView>::empty());
            unite_tasks(&mut items, more);
            let bucket = Bucket { name, items };
            buckets.push(bucket);
            proof {
                let after = buckets@;
                lemma_after_push(before, bucket);
                assert forall|x: int| 0 <= x < after.len() implies task_views(
                    #[trigger] after[x].items@,
                ).no_duplicates() by {
                    if x < before.len() {
                        assert(after[x] == before[x]);
                    }
                }
                assert(Set::<TaskView>::empty().union(task_views(more@).to_set()) =~= task_views(
                    more@,
                ).to_set());
                assert(sets_of(task_map(after)) =~= united(
                    sets_of(task_map(before)),
                    name@,
                    task_views(more@).to_set(),
                ));
            }
        },
    }
}

/// What holds of the items of the buckets after `extend_bucket` holds of
/// their views too.
proof fn lemma_blocks_extended(
    before: Seq<Bucket<Occurrence>>,
    after: Seq<Bucket<Occurrence>>,
    name: Seq<char>,
    items: Seq<Occurrence>,
)
    requires
        bucket_map(after) == extended(bucket_map(before), name, items),
        forall|k: Seq<char>| has_name(after, k) <==> has_name(before, k) || k == name,
    ensures
        block_map(after) == extended(block_map(before), name, occurrence_views(items)),
{
    assert(occurrence_views(list_at(bucket_map(before), name) + items) =~= list_at(
        block_map(before),
        name,
    ) + occurrence_views(items));
    assert(block_map(after) =~= extended(block_map(before), name, occurrence_views(items)));
}

/// Tells whether the pair of `teacher` and `group` is among `links`.
fn holds_link(links: &Vec<(String, String)>, teacher: &String, group: &String) -> (b: bool)
    ensures
        b == pair_views(links@).contains((teacher@, group@)),
{
    let mut i: usize = 0;
    while i < links.len()
        invariant
            i <= links.len(),
            forall|j: int| 0 <= j < i ==> pair_views(links@)[j] != (teacher@, group@),
        decreases links.len() - i,
    {
        if links[i].0 == *teacher && links[i].1 == *group {
            assert(pair_views(links@)[i as int] == (teacher@, group@));
            return true;
        }
        i = i + 1;
    }
    false
}

/// Adds the pair of `teacher` and `group` to `links` unless it is there.
fn add_link(links: &mut Vec<(String, String)>, teacher: String, group: String)
    requires
        pair_views(old(links)@).no_duplicates(),
    ensures
        pair_views(final(links)@).no_duplicates(),
        pair_views(final(links)@).to_set() == pair_views(old(links)@).to_set().insert(
            (teacher@, group@),
        ),
{
    let ghost before = pair_views(links@);
    if holds_link(links, &teacher, &group) {
        assert(before.to_set().insert((teacher@, group@)) =~= before.to_set());
    } else {
        links.push((teacher, group));
        proof {
            assert(pair_views(links@) =~= before.push((teacher@, group@)));
            lemma_push_to_set(before, (teacher@, group@));
            lemma_push_distinct(before, (teacher@, group@));
        }
    }
}

impl Snapshot {
    #[verifier::type_invariant]
    spec fn well_formed(self) -> bool {
        &&& distinct_names(self.blocks@)
        &&& distinct_names(self.tasks@)
        &&& tasks_distinct(self.tasks@)
        &&& pair_views(self.teachers@).no_duplicates()
    }

    /// The occurrences of each group that has any, in the order in which
    /// they were added.
    pub closed spec fn blocks(&self) -> Map<Seq<char>, Seq<OccurrenceView>> {
        block_map(self.blocks@)
    }

    /// The tasks of each group that has any, as the snapshot lists them.
    /// No list holds a task twice.
    pub closed spec fn task_lists(&self) -> Map<Seq<char>, Seq<TaskView>> {
        task_map(self.tasks@)
    }

    /// The tasks of each group that has any, as a set.
    pub open spec fn tasks(&self) -> Map<Seq<char>, Set<TaskView>> {
        sets_of(self.task_lists())
    }

    /// The pairs of a teacher and a group that the teacher is in charge of.
    pub closed spec fn teachers(&self) -> Set<(Seq<char>, Seq<char>)> {
        pair_views(self.teachers@).to_set()
    }

    /// The groups that a teacher is in charge of, as the snapshot lists
    /// them.
    pub closed spec fn teacher_groups(&self, teacher: Seq<char>) -> Seq<Seq<char>> {
        groups_in(self.teachers@, teacher)
    }

    /// The names of the groups that have occurrences, as the snapshot lists
    /// them.
    pub closed spec fn names(&self) -> Seq<Seq<char>> {
        names_of(self.blocks@)
    }

    /// No group of the snapshot has an occurrence.
    pub open spec fn occurrence_free(&self) -> bool {
        forall|k: Seq<char>| self.blocks().contains_key(k) ==> self.blocks()[k].len() == 0
    }

    /// The snapshot of a key before its first refresh: nothing in it.
    pub fn new() -> (s: Snapshot)
        ensures
            s.blocks() == Map::<Seq<char>, Seq<OccurrenceView>>::empty(),
            s.task_lists() == Map::<Seq<char>, Seq<TaskView>>::empty(),
            s.teachers() == Set::<(Seq<char>, Seq<char>)>::empty(),
            s.names() == Seq::<Seq<char>>::empty(),
    {
        let s = Snapshot { blocks: Vec::new(), tasks: Vec::new(), teachers: Vec::new() };
        proof {
            assert(s.blocks() =~= Map::<Seq<char>, Seq<OccurrenceView>>::empty());
            assert(s.task_lists() =~= Map::<Seq<char>, Seq<TaskView>>::empty());
            assert(s.teachers() =~= Set::<(Seq<char>, Seq<char>)>::empty());
            assert(s.names() =~= Seq::<Seq<char>>::empty());
        }
        s
    }

    /// Puts an occurrence behind those of its group.
    pub fn add_occurrence(&mut self, occurrence: Occurrence)
        ensures
            final(self).blocks() == extended(
                old(self).blocks(),
                occurrence@.group,
                seq![occurrence@],
            ),
            final(self).task_lists() == old(self).task_lists(),
            final(self).teachers() == old(self).teachers(),
    {
        proof {
            use_type_invariant(&*self);
        }
        let mut blocks: Vec<Bucket<Occurrence>> = Vec::new();
        std::mem::swap(&mut blocks, &mut self.blocks);
        let ghost before = blocks@;
        let name = occurrence.group.clone();
        let mut items: Vec<Occurrence> = Vec::new();
        items.push(occurrence);
        proof {
            assert(occurrence_views(items@) =~= seq![occurrence@]);
        }
        extend_bucket(&mut blocks, name, items);
        proof {
            lemma_blocks_extended(before, blocks@, occurrence@.group, items@);
        }
        self.blocks = blocks;
    }

    /// Adds a task to the set of its group. A task that agrees in every
    /// field with one that is there changes nothing.
    pub fn add_task(&mut self, task: Task)
        ensures
            final(self).tasks() == united(old(self).tasks(), task@.group, set![task@]),
            final(self).blocks() == old(self).blocks(),
            final(self).teachers() == old(self).teachers(),
    {
        proof {
            use_type_invariant(&*self);
        }
        let mut tasks: Vec<Bucket<Task>> = Vec::new();
        std::mem::swap(&mut tasks, &mut self.tasks);
        let name = task.group.clone();
        let mut more: Vec<Task> = Vec::new();
        more.push(task);
        proof {
            assert(task_views(more@) =~= seq![task@]);
            assert(seq![task@].to_set() =~= set![task@]) by {
                lemma_push_to_set(Seq::<TaskView>::empty(), task@);
                assert(Seq::<TaskView>::empty().push(task@) =~= seq![task@]);
                assert(Seq::<TaskView>::empty().to_set() =~= Set::<TaskView>::empty());
            }
        }
        unite_bucket(&mut tasks, name, &more);
        self.tasks = tasks;
    }

    /// Records that `teacher` is in charge of `group`.
    pub fn index_teacher(&mut self, teacher: String, group: String)
        ensures
            final(self).teachers() == old(self).teachers().insert((teacher@, group@)),
            final(self).blocks() == old(self).blocks(),
            final(self).task_lists() == old(self).task_lists(),
    {
        proof {
            use_type_invariant(&*self);
        }
        let mut links: Vec<(String, String)> = Vec::new();
        std::mem::swap(&mut links, &mut self.teachers);
        add_link(&mut links, teacher, group);
        self.teachers = links;
    }

    /// Puts the snapshot of a later fetch behind this one: under each group
    /// the occurrences of this one followed by those of the other, the union
    /// of the tasks, and the union of the teachers' groups.
    pub fn merge(self, other: Snapshot) -> (merged: Snapshot)
        ensures
            merged.blocks() == merged_lists(self.blocks(), other.blocks()),
            merged.tasks() == merged_sets(self.tasks(), other.tasks()),
            merged.teachers() == self.teachers().union(other.teachers()),
    {
        proof {
            use_type_invariant(&self);
            use_type_invariant(&other);
        }
        let ghost first = self;
        let mut blocks = self.blocks;
        let mut tasks = self.tasks;
        let mut teachers = self.teachers;
        let mut i: usize = 0;
        proof {
            assert(block_map(other.blocks@.take(0)) =~= Map::<
                Seq<char>,
                Seq<OccurrenceView>,
            >::empty());
            assert(block_map(blocks@) =~= merged_lists(
                block_map(first.blocks@),
                block_map(other.blocks@.take(0)),
            ));
        }
        while i < other.blocks.len()
            invariant
                i <= other.blocks.len(),
                distinct_names(other.blocks@),
                distinct_names(blocks@),
                block_map(blocks@) == merged_lists(
                    block_map(first.blocks@),
                    block_map(other.blocks@.take(i as int)),
                ),
            decreases other.blocks.len() - i,
        {
            let ghost before = blocks@;
            let bucket = &other.blocks[i];
            let items = bucket.items.clone();
            assert(items@ =~= bucket.items@);
            extend_bucket(&mut blocks, bucket.name.clone(), items);
            proof {
                lemma_prefix(other.blocks@, i as int);
                lemma_blocks_extended(before, blocks@, bucket.name@, bucket.items@);
                assert(block_map(blocks@) =~= merged_lists(
                    block_map(first.blocks@),
                    block_map(other.blocks@.take(i + 1)),
                ));
            }
            i = i + 1;
        }
        assert(other.blocks@.take(other.blocks.len() as int) =~= other.blocks@);
        let mut j: usize = 0;
        proof {
            assert(sets_of(task_map(other.tasks@.take(0))) =~= Map::<
                Seq<char>,
                Set<TaskView>,
            >::empty());
            assert(sets_of(task_map(tasks@)) =~~= merged_sets(
                sets_of(task_map(first.tasks@)),
                sets_of(task_map(other.tasks@.take(0))),
            ));
        }
        while j < other.tasks.len()
            invariant
                j <= other.tasks.len(),
                distinct_names(other.tasks@),
                distinct_names(tasks@),
                tasks_distinct(tasks@),
                sets_of(task_map(tasks@)) == merged_sets(
                    sets_of(task_map(first.tasks@)),
                    sets_of(task_map(other.tasks@.take(j as int))),
                ),
            decreases other.tasks.len() - j,
        {
            let bucket = &other.tasks[j];
            unite_bucket(&mut tasks, bucket.name.clone(), &bucket.items);
            proof {
                lemma_prefix(other.tasks@, j as int);
                assert(sets_of(task_map(tasks@)) =~~= merged_sets(
                    sets_of(task_map(first.tasks@)),
                    sets_of(task_map(other.tasks@.take(j + 1))),
                ));
            }
            j = j + 1;
        }
        assert(other.tasks@.take(other.tasks.len() as int) =~= other.tasks@);
        let mut n: usize = 0;
        proof {
            assert(pair_views(other.teachers@.take(0)).to_set() =~= Set::<
                (Seq<char>, Seq<char>),
            >::empty());
            assert(pair_views(teachers@).to_set() =~= pair_views(first.teachers@).to_set().union(
                pair_views(other.teachers@.take(0)).to_set(),
            ));
        }
        while n < other.teachers.len()
            invariant
                n <= other.teachers.len(),
                pair_views(teachers@).no_duplicates(),
                pair_views(teachers@).to_set() == pair_views(first.teachers@).to_set().union(
                    pair_views(other.teachers@.take(n as int)).to_set(),
                ),
            decreases other.teachers.len() - n,
        {
            let link = &other.teachers[n];
            proof {
                let seen = pair_views(other.teachers@.take(n as int));
                assert(pair_views(other.teachers@.take(n + 1)) =~= seen.push((link.0@, link.1@)));
                lemma_push_to_set(seen, (link.0@, link.1@));
            }
            add_link(&mut teachers, link.0.clone(), link.1.clone());
            assert(pair_views(teachers@).to_set() =~= pair_views(first.teachers@).to_set().union(
                pair_views(other.teachers@.take(n + 1)).to_set(),
            ));
            n = n + 1;
        }
        assert(other.teachers@.take(other.teachers.len() as int) =~= other.teachers@);
        Snapshot { blocks, tasks, teachers }
    }

    /// The occurrences of a group, in their order; `None` for a name that
    /// the snapshot does not know.
    pub fn occurrences_of(&self, group: &str) -> (res: Option<&Vec<Occurrence>>)
        ensures
            res is Some <==> self.blocks().contains_key(group@),
            res matches Some(items) ==> occurrence_views(items@) == self.blocks()[group@],
    {
        proof {
            use_type_invariant(self);
        }
        match position(&self.blocks, group) {
            Some(i) => {
                proof {
                    lemma_index(self.blocks@, group@, i as int);
                }
                Some(&self.blocks[i].items)
            },
            None => None,
        }
    }

    /// The tasks of a group, each once; `None` for a name that has no task.
    pub fn tasks_of(&self, group: &str) -> (res: Option<&Vec<Task>>)
        ensures
            res is Some <==> self.task_lists().contains_key(group@),
            res matches Some(items) ==> task_views(items@) == self.task_lists()[group@]
                && task_views(items@).no_duplicates(),
    {
        proof {
            use_type_invariant(self);
        }
        match position(&self.tasks, group) {
            Some(i) => {
                proof {
                    lemma_index(self.tasks@, group@, i as int);
                }
                Some(&self.tasks[i].items)
            },
            None => None,
        }
    }

    /// The number of tasks of a group, 0 for a name that has none.
    pub fn task_count(&self, group: &str) -> (count: usize)
        ensures
            count == set_at(self.tasks(), group@).len(),
    {
        match self.tasks_of(group) {
            Some(items) => {
                proof {
                    task_views(items@).unique_seq_to_set();
                }
                items.len()
            },
            None => 0,
        }
    }

    /// The names of the groups that have occurrences, each once.
    pub fn group_names(&self) -> (names: Vec<String>)
        ensures
            views(names@) == self.names(),
            self.names().no_duplicates(),
            self.names().to_set() == self.blocks().dom(),
    {
        proof {
            use_type_invariant(self);
        }
        let mut names: Vec<String> = Vec::new();
        let mut i: usize = 0;
        while i < self.blocks.len()
            invariant
                i <= self.blocks.len(),
                views(names@) == names_of(self.blocks@.take(i as int)),
            decreases self.blocks.len() - i,
        {
            let ghost before = views(names@);
            names.push(self.blocks[i].name.clone());
            proof {
                assert(views(names@) =~= before.push(self.blocks@[i as int].name@));
                assert(names_of(self.blocks@.take(i + 1)) =~= names_of(
                    self.blocks@.take(i as int),
                ).push(self.blocks@[i as int].name@));
            }
            i = i + 1;
        }
        proof {
            assert(self.blocks@.take(self.blocks.len() as int) =~= self.blocks@);
            let all = names_of(self.blocks@);
            assert forall|x: int, y: int| 0 <= x < all.len() && 0 <= y < all.len() && x
                != y implies all[x] != all[y] by {
                if x < y {
                    assert(self.blocks@[x].name@ != self.blocks@[y].name@);
                } else {
                    assert(self.blocks@[y].name@ != self.blocks@[x].name@);
                }
            }
            assert forall|k: Seq<char>| all.contains(k) <==> has_name(self.blocks@, k) by {
                if all.contains(k) {
                    let x = choose|x: int| 0 <= x < all.len() && all[x] == k;
                    assert(named_at(self.blocks@, k, x));
                }
                if has_name(self.blocks@, k) {
                    let x = index_of(self.blocks@, k);
                    assert(all[x] == k);
                }
            }
            assert(all.to_set() =~= self.blocks().dom());
        }
        names
    }

    /// The groups that a teacher is in charge of, each once.
    pub fn groups_of_teacher(&self, teacher: &str) -> (groups: Vec<String>)
        ensures
            views(groups@) == self.teacher_groups(teacher@),
            views(groups@).no_duplicates(),
            forall|g: Seq<char>|
                views(groups@).contains(g) <==> self.teachers().contains((teacher@, g)),
    {
        proof {
            use_type_invariant(self);
        }
        let key = teacher.to_owned();
        let mut groups: Vec<String> = Vec::new();
        let mut i: usize = 0;
        while i < self.teachers.len()
            invariant
                i <= self.teachers.len(),
                key@ == teacher@,
                pair_views(self.teachers@).no_duplicates(),
                views(groups@).no_duplicates(),
                views(groups@) == groups_in(self.teachers@.take(i as int), teacher@),
                forall|g: Seq<char>|
                    views(groups@).contains(g) <==> pair_views(
                        self.teachers@.take(i as int),
                    ).contains((teacher@, g)),
            decreases self.teachers.len() - i,
        {
            let ghost seen = pair_views(self.teachers@.take(i as int));
            let ghost before = views(groups@);
            let link = &self.teachers[i];
            let ghost pair = (link.0@, link.1@);
            proof {
                assert(self.teachers@.take(i + 1).drop_last() =~= self.teachers@.take(i as int));
                assert(self.teachers@.take(i + 1).last() == self.teachers@[i as int]);
                assert(pair_views(self.teachers@.take(i + 1)) =~= seen.push(pair));
                lemma_push_to_set(seen, pair);
            }
            if link.0 == key {
                proof {
                    if seen.contains(pair) {
                        let x = choose|x: int| 0 <= x < seen.len() && seen[x] == pair;
                        assert(pair_views(self.teachers@)[x] == pair_views(self.teachers@)[i as int]);
                    }
                    assert(!before.contains(link.1@));
                    lemma_push_distinct(before, link.1@);
                    lemma_push_to_set(before, link.1@);
                }
                groups.push(link.1.clone());
                proof {
                    assert(views(groups@) =~= before.push(link.1@));
                    assert forall|g: Seq<char>|
                        views(groups@).contains(g) <==> seen.push(pair).contains((teacher@, g)) by {
                        assert(before.push(link.1@).contains(g) <==> before.contains(g) || g
                            == link.1@);
                        assert(seen.push(pair).contains((teacher@, g)) <==> seen.contains(
                            (teacher@, g),
                        ) || (teacher@, g) == pair);
                    }
                }
            } else {
                proof {
                    assert forall|g: Seq<char>|
                        views(groups@).contains(g) <==> seen.push(pair).contains((teacher@, g)) by {
                        assert(seen.push(pair).contains((teacher@, g)) <==> seen.contains(
                            (teacher@, g),
                        ) || (teacher@, g) == pair);
                    }
                }
            }
            i = i + 1;
        }
        proof {
            assert(self.teachers@.take(self.teachers.len() as int) =~= self.teachers@);
        }
        groups
    }

    /// Tells whether no group has an occurrence.
    pub fn is_empty(&self) -> (b: bool)
        ensures
            b == self.occurrence_free(),
    {
        proof {
            use_type_invariant(self);
        }
        let mut i: usize = 0;
        while i < self.blocks.len()
            invariant
                i <= self.blocks.len(),
                distinct_names(self.blocks@),
                forall|j: int| 0 <= j < i ==> (#[trigger] self.blocks@[j]).items@.len() == 0,
            decreases self.blocks.len() - i,
        {
            if self.blocks[i].items.len() > 0 {
                proof {
                    let name = self.blocks@[i as int].name@;
                    assert(named_at(self.blocks@, name, i as int));
                    lemma_index(self.blocks@, name, i as int);
                    assert(self.blocks().contains_key(name));
                    assert(self.blocks()[name].len() > 0);
                }
                return false;
            }
            i = i + 1;
        }
        proof {
            assert forall|k: Seq<char>| self.blocks().contains_key(k) implies self.blocks()[k].len()
                == 0 by {
                let x = index_of(self.blocks@, k);
                assert(named_at(self.blocks@, k, x));
            }
        }
        true
    }

    /// The names of the groups that have occurrences, one on each line.
    pub fn listing(&self) -> (text: String)
        ensures
            text@ == join_seq(self.names(), "\n"@),
    {
        let names = self.group_names();
        join(&names, "\n")
    }
}

impl Default for Snapshot {
    fn default() -> (s: Snapshot)
        ensures
            s.blocks() == Map::<Seq<char>, Seq<OccurrenceView>>::empty(),
            s.task_lists() == Map::<Seq<char>, Seq<TaskView>>::empty(),
            s.teachers() == Set::<(Seq<char>, Seq<char>)>::empty(),
    {
        Snapshot::new()
    }
}

} // verus!
