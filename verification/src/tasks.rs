//! Tasks with their outcomes, found by name.
use crate::record::{Outcome, Task};
use vstd::hash_map::StringHashMap;
use vstd::prelude::*;

verus! {

/// The outcome of each of a number of tasks.
///
/// Its view maps the name of each task to the content of its outcome.
#[verifier::reject_recursive_types(T)]
#[verifier::reject_recursive_types(V)]
pub struct TaskMap<T: Task, V: Outcome<T>> {
    by_name: StringHashMap<(T, V)>,
}

/// The contents by name, where a later entry takes the place of an earlier one
/// with the same name.
pub open spec fn collected(entries: Seq<(Seq<char>, Seq<char>)>) -> Map<Seq<char>, Seq<char>>
    decreases entries.len(),
{
    if entries.len() == 0 {
        Map::empty()
    } else {
        collected(entries.drop_last()).insert(entries.last().0, entries.last().1)
    }
}

/// The map with the entry added to it, unless the name has one already.
pub open spec fn added(
    map: Map<Seq<char>, Seq<char>>,
    name: Seq<char>,
    content: Seq<char>,
) -> Map<Seq<char>, Seq<char>> {
    if map.contains_key(name) {
        map
    } else {
        map.insert(name, content)
    }
}

/// The names and contents of tasks with their outcomes.
pub open spec fn names_and_contents<T: Task, V: Outcome<T>>(entries: Seq<(T, V)>) -> Seq<
    (Seq<char>, Seq<char>),
> {
    Seq::new(entries.len(), |i: int| (entries[i].0.spec_name(), entries[i].1.content()))
}

impl<T: Task, V: Outcome<T>> View for TaskMap<T, V> {
    type V = Map<Seq<char>, Seq<char>>;

    closed spec fn view(&self) -> Map<Seq<char>, Seq<char>> {
        Map::new(
            |name: Seq<char>| self.by_name@.contains_key(name),
            |name: Seq<char>| self.by_name@[name].1.content(),
        )
    }
}

impl<T: Task, V: Outcome<T>> TaskMap<T, V> {
    /// Whether there are finitely many tasks, each found by its own name.
    pub closed spec fn inv(&self) -> bool {
        &&& self.by_name@.dom().finite()
        &&& forall|name: Seq<char>| #[trigger]
            self.by_name@.contains_key(name) ==> self.by_name@[name].0.spec_name() == name
    }

    /// The names of a map are finitely many.
    pub proof fn lemma_finite(&self)
        requires
            self.inv(),
        ensures
            self@.dom().finite(),
    {
        assert(self@.dom() =~= self.by_name@.dom());
    }

    /// Creates a map without any task.
    pub fn new() -> (map: Self)
        ensures
            map.inv(),
            map@ == Map::<Seq<char>, Seq<char>>::empty(),
    {
        let map = TaskMap { by_name: StringHashMap::new() };
        assert(map@ =~= Map::empty());
        map
    }

    /// Gathers entries, where a later one takes the place of an earlier one for
    /// the same task.
    pub fn from_entries(entries: Vec<(T, V)>) -> (map: Self)
        ensures
            map.inv(),
            map@ == collected(names_and_contents(entries@)),
    {
        let mut map = TaskMap::new();
        let ghost all = names_and_contents(entries@);
        assert(all.take(0) =~= Seq::empty());
        for entry in it: entries.into_iter()
            invariant
                it.seq() == entries@,
                all == names_and_contents(entries@),
                map.inv(),
                map@ == collected(all.take(it.index())),
        {
            proof {
                let upto = all.take(it.index() + 1);
                assert(upto.drop_last() =~= all.take(it.index()));
                assert(upto.last() == (entry.0.spec_name(), entry.1.content()));
            }
            map.insert(entry.0, entry.1);
        }
        assert(all.take(all.len() as int) =~= all);
        map
    }

    /// Sets the outcome of a task, in place of the one it had, if any.
    pub fn insert(&mut self, task: T, outcome: V)
        requires
            old(self).inv(),
        ensures
            final(self).inv(),
            final(self)@ == old(self)@.insert(task.spec_name(), outcome.content()),
    {
        let name = task.name();
        self.by_name.insert(name, (task, outcome));
        assert(self@ =~= old(self)@.insert(task.spec_name(), outcome.content()));
    }

    /// Sets the outcome of a task that has none, and leaves that of any other
    /// task as it is.
    pub fn insert_if_absent(&mut self, task: T, outcome: V)
        requires
            old(self).inv(),
        ensures
            final(self).inv(),
            final(self)@ == added(old(self)@, task.spec_name(), outcome.content()),
    {
        if !self.contains(&task) {
            self.insert(task, outcome);
        }
    }

    /// Returns `true` if the task has an outcome here.
    pub fn contains(&self, task: &T) -> (found: bool)
        ensures
            found == self@.contains_key(task.spec_name()),
    {
        self.by_name.contains_key(task.name().as_str())
    }

    /// The number of tasks.
    pub fn len(&self) -> (len: usize)
        ensures
            len == self@.len(),
    {
        assert(self@.dom() =~= self.by_name@.dom());
        self.by_name.len()
    }
}

/// Of a number of entries, each name is found that one of them has, and no other.
pub proof fn law_entry_found(entries: Seq<(Seq<char>, Seq<char>)>, name: Seq<char>)
    ensures
        collected(entries).contains_key(name) <==> exists|i: int|
            0 <= i < entries.len() && (#[trigger] entries[i]).0 == name,
    decreases entries.len(),
{
    if entries.len() > 0 {
        let before = entries.drop_last();
        let last = entries.len() - 1;
        law_entry_found(before, name);
        if entries[last].0 != name {
            if collected(before).contains_key(name) {
                let i = choose|i: int| 0 <= i < before.len() && (#[trigger] before[i]).0 == name;
                assert(entries[i].0 == name);
            }
            if exists|i: int| 0 <= i < entries.len() && (#[trigger] entries[i]).0 == name {
                let i = choose|i: int| 0 <= i < entries.len() && (#[trigger] entries[i]).0 == name;
                assert(before[i].0 == name);
            }
        }
    }
}

/// Where several entries have the same name, it is found with the content of the
/// last one.
pub proof fn law_last_entry_counts(entries: Seq<(Seq<char>, Seq<char>)>, last: int)
    requires
        0 <= last < entries.len(),
        forall|j: int| last < j < entries.len() ==> (#[trigger] entries[j]).0 != entries[last].0,
    ensures
        collected(entries).contains_key(entries[last].0),
        collected(entries)[entries[last].0] == entries[last].1,
    decreases entries.len(),
{
    if last < entries.len() - 1 {
        let before = entries.drop_last();
        assert forall|j: int| last < j < before.len() implies (#[trigger] before[j]).0
            != before[last].0 by {
            assert(entries[j].0 != entries[last].0);
        }
        law_last_entry_counts(before, last);
        assert(entries[entries.len() - 1].0 != entries[last].0);
    }
}

/// Adding an entry makes its name found, touches no other name, and leaves what
/// the name had.
pub proof fn law_first_entry_stays(
    map: Map<Seq<char>, Seq<char>>,
    name: Seq<char>,
    content: Seq<char>,
    other: Seq<char>,
)
    ensures
        added(map, name, content).contains_key(other) <==> map.contains_key(other) || other == name,
        map.contains_key(other) ==> added(map, name, content)[other] == map[other],
        !map.contains_key(name) ==> added(map, name, content)[name] == content,
{
}

/// Every task with its outcome stands for one name and one content: its own.
pub proof fn law_entries_kept<T: Task, V: Outcome<T>>(entries: Seq<(T, V)>, more: (T, V))
    ensures
        names_and_contents(Seq::<(T, V)>::empty()).len() == 0,
        names_and_contents(entries.push(more)) == names_and_contents(entries).push(
            (more.0.spec_name(), more.1.content()),
        ),
{
    assert(names_and_contents(entries.push(more)) =~= names_and_contents(entries).push(
        (more.0.spec_name(), more.1.content()),
    ));
}

} // verus!
