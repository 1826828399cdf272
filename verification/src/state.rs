//! The successful and failed tasks of a session.
use crate::error::{Log, SessionError};
use crate::lines::{chars_of, law_written_lines_read_back, lines_of, split_lines};
use crate::record::{Outcome, Task};
use crate::tasks::{
    added, collected, law_entry_found, law_last_entry_counts, names_and_contents, TaskMap,
};
use vstd::prelude::*;

verus! {

/// The successful and failed tasks of a session: the name of each task with the
/// content of its outcome.
#[verifier::ext_equal]
pub struct SessionView {
    pub successful: Map<Seq<char>, Seq<char>>,
    pub failed: Map<Seq<char>, Seq<char>>,
}

/// Maintains the successful and failed tasks for a session.
///
/// # Type Parameters
/// - `T`: The type representing a task.
/// - `S`: The type representing a successful result for a task.
/// - `F`: The type representing a failure result for a task.
#[verifier::reject_recursive_types(T)]
#[verifier::reject_recursive_types(S)]
#[verifier::reject_recursive_types(F)]
pub struct SessionState<T: Task, S: Outcome<T>, F: Outcome<T>> {
    successful: TaskMap<T, S>,
    failed: TaskMap<T, F>,
}

/// The lines of a log. A log that does not exist has none.
pub open spec fn log_lines(text: Option<&str>) -> Seq<Seq<char>> {
    match text {
        Some(t) => lines_of(t@),
        None => Seq::empty(),
    }
}

/// Whether every line records a task with an outcome of type `V`.
pub open spec fn readable<T: Task, V: Outcome<T>>(lines: Seq<Seq<char>>) -> bool {
    forall|i: int| 0 <= i < lines.len() ==> V::entry(#[trigger] lines[i]) is Some
}

/// Whether line `n` is the first that does not record a task with an outcome of
/// type `V`.
pub open spec fn first_unreadable<T: Task, V: Outcome<T>>(lines: Seq<Seq<char>>, n: int) -> bool {
    &&& 0 <= n < lines.len()
    &&& V::entry(lines[n]) is None
    &&& forall|i: int| 0 <= i < n ==> V::entry(#[trigger] lines[i]) is Some
}

/// Whether logs with these lines are rejected with the error `e`: it tells the
/// first line that cannot be read, in the log of successful tasks if that has one.
pub open spec fn rejected_with<T: Task, S: Outcome<T>, F: Outcome<T>>(
    successful: Seq<Seq<char>>,
    failed: Seq<Seq<char>>,
    e: SessionError,
) -> bool {
    match e {
        SessionError::Decode { log: Log::Successful, line } => {
            first_unreadable::<T, S>(successful, line as int)
        },
        SessionError::Decode { log: Log::Failed, line } => {
            &&& readable::<T, S>(successful)
            &&& first_unreadable::<T, F>(failed, line as int)
        },
        _ => false,
    }
}

/// The names and contents that readable lines record.
pub open spec fn entries_of<T: Task, V: Outcome<T>>(lines: Seq<Seq<char>>) -> Seq<
    (Seq<char>, Seq<char>),
> {
    Seq::new(lines.len(), |i: int| V::entry(lines[i])->0)
}

/// The contents by name that readable lines record. Where several lines name the
/// same task, the last one counts.
pub open spec fn recorded<T: Task, V: Outcome<T>>(lines: Seq<Seq<char>>) -> Map<
    Seq<char>,
    Seq<char>,
> {
    collected(entries_of::<T, V>(lines))
}

/// Reads the entries of a log, or gives the number of the first line that cannot
/// be read.
fn read_entries<T: Task, V: Outcome<T>>(text: Option<&str>) -> (entries: Result<
    Vec<(T, V)>,
    usize,
>)
    ensures
        match entries {
            Ok(e) => {
                &&& readable::<T, V>(log_lines(text))
                &&& names_and_contents(e@) == entries_of::<T, V>(log_lines(text))
            },
            Err(n) => first_unreadable::<T, V>(log_lines(text), n as int),
        },
{
    let lines: Vec<String> = match text {
        Some(t) => split_lines(t),
        None => Vec::new(),
    };
    let ghost all = log_lines(text);
    assert(chars_of(lines@) =~= all);
    let mut entries: Vec<(T, V)> = Vec::new();
    let mut n: usize = 0;
    while n < lines.len()
        invariant
            n <= lines.len(),
            chars_of(lines@) == all,
            all == log_lines(text),
            entries@.len() == n,
            forall|i: int|
                0 <= i < n ==> V::entry(#[trigger] all[i]) == Some(
                    (entries@[i].0.spec_name(), entries@[i].1.content()),
                ),
        decreases lines.len() - n,
    {
        assert(all[n as int] == lines[n as int]@);
        match V::decode(lines[n].as_str()) {
            Some(entry) => entries.push(entry),
            None => return Err(n),
        }
        n += 1;
    }
    assert(names_and_contents(entries@) =~= entries_of::<T, V>(all));
    Ok(entries)
}

impl<T: Task, S: Outcome<T>, F: Outcome<T>> View for SessionState<T, S, F> {
    type V = SessionView;

    closed spec fn view(&self) -> SessionView {
        SessionView { successful: self.successful@, failed: self.failed@ }
    }
}

impl<T: Task, S: Outcome<T>, F: Outcome<T>> SessionState<T, S, F> {
    /// Whether the state holds together.
    pub closed spec fn inv(&self) -> bool {
        &&& self.successful.inv()
        &&& self.failed.inv()
    }

    /// A state holds finitely many tasks.
    pub proof fn lemma_finite(&self)
        requires
            self.inv(),
        ensures
            self@.successful.dom().finite(),
            self@.failed.dom().finite(),
    {
        self.successful.lemma_finite();
        self.failed.lemma_finite();
    }

    /// Creates a new, empty `SessionState` with no successful or failed tasks.
    pub fn new() -> (state: Self)
        ensures
            state.inv(),
            state@ == (SessionView { successful: Map::empty(), failed: Map::empty() }),
    {
        SessionState { successful: TaskMap::new(), failed: TaskMap::new() }
    }

    /// Creates a `SessionState` of the given entries. Where several entries are
    /// for the same task, the last one counts.
    pub fn from_entries(successful: Vec<(T, S)>, failed: Vec<(T, F)>) -> (state: Self)
        ensures
            state.inv(),
            state@ == (SessionView {
                successful: collected(names_and_contents(successful@)),
                failed: collected(names_and_contents(failed@)),
            }),
    {
        SessionState {
            successful: TaskMap::from_entries(successful),
            failed: TaskMap::from_entries(failed),
        }
    }

    /// Loads a `SessionState` from the texts of the log of successful tasks and
    /// of the log of failed tasks, with one task per line. A log that does not
    /// exist holds no task.
    ///
    /// # Errors
    /// Returns an error if a line of either log cannot be read.
    pub fn load(successful: Option<&str>, failed: Option<&str>) -> (state: Result<
        Self,
        SessionError,
    >)
        ensures
            match state {
                Ok(s) => {
                    &&& readable::<T, S>(log_lines(successful))
                    &&& readable::<T, F>(log_lines(failed))
                    &&& s.inv()
                    &&& s@ == (SessionView {
                        successful: recorded::<T, S>(log_lines(successful)),
                        failed: recorded::<T, F>(log_lines(failed)),
                    })
                },
                Err(e) => rejected_with::<T, S, F>(log_lines(successful), log_lines(failed), e),
            },
    {
        let successful = match read_entries::<T, S>(successful) {
            Ok(entries) => entries,
            Err(line) => return Err(SessionError::Decode { log: Log::Successful, line }),
        };
        let failed = match read_entries::<T, F>(failed) {
            Ok(entries) => entries,
            Err(line) => return Err(SessionError::Decode { log: Log::Failed, line }),
        };
        Ok(SessionState::from_entries(successful, failed))
    }

    /// Returns `true` if the given task is marked as successful in this
    /// session.
    pub fn is_successful(&self, task: &T) -> (answer: bool)
        ensures
            answer == self@.successful.contains_key(task.spec_name()),
    {
        self.successful.contains(task)
    }

    /// Returns `true` if the given task is marked as failed in this session.
    pub fn is_failed(&self, task: &T) -> (answer: bool)
        ensures
            answer == self@.failed.contains_key(task.spec_name()),
    {
        self.failed.contains(task)
    }

    /// Marks the given task as successful and stores its success value.
    ///
    /// If the task was already marked as successful, this is a no-op.
    pub fn mark_successful(&mut self, task: T, success: S) -> (done: Result<(), SessionError>)
        requires
            old(self).inv(),
        ensures
            done is Ok,
            final(self).inv(),
            final(self)@ == (SessionView {
                successful: added(old(self)@.successful, task.spec_name(), success.content()),
                ..old(self)@
            }),
    {
        self.successful.insert_if_absent(task, success);
        Ok(())
    }

    /// Marks the given task as failed and stores its failure value.
    ///
    /// If the task was already marked as failed, this is a no-op.
    pub fn mark_failed(&mut self, task: T, failure: F) -> (done: Result<(), SessionError>)
        requires
            old(self).inv(),
        ensures
            done is Ok,
            final(self).inv(),
            final(self)@ == (SessionView {
                failed: added(old(self)@.failed, task.spec_name(), failure.content()),
                ..old(self)@
            }),
    {
        self.failed.insert_if_absent(task, failure);
        Ok(())
    }

    /// The number of tasks marked as successful.
    pub fn successful_count(&self) -> (count: usize)
        ensures
            count == self@.successful.len(),
    {
        self.successful.len()
    }

    /// The number of tasks marked as failed.
    pub fn failed_count(&self) -> (count: usize)
        ensures
            count == self@.failed.len(),
    {
        self.failed.len()
    }
}

/// A log can be read if and only if each part of it can, however it is cut: one
/// line that cannot be read is enough to spoil it.
pub proof fn law_readable_line_by_line<T: Task, V: Outcome<T>>(
    before: Seq<Seq<char>>,
    line: Seq<char>,
    after: Seq<Seq<char>>,
)
    ensures
        readable::<T, V>(Seq::empty()),
        readable::<T, V>(before.push(line) + after) <==> readable::<T, V>(before) && V::entry(
            line,
        ) is Some && readable::<T, V>(after),
{
    let all = before.push(line) + after;
    if readable::<T, V>(all) {
        assert forall|i: int| 0 <= i < before.len() implies V::entry(#[trigger] before[i]) is Some by {
            assert(all[i] == before[i]);
        }
        assert(all[before.len() as int] == line);
        assert forall|i: int| 0 <= i < after.len() implies V::entry(#[trigger] after[i]) is Some by {
            assert(all[before.len() + 1 + i] == after[i]);
        }
    }
}

/// Logs are rejected for the first line that cannot be read, and the error tells
/// which one it is: the log of successful tasks comes first, and the failed one is
/// blamed only where the other can be read. Logs that can be read are not rejected.
pub proof fn law_first_unreadable_line_told<T: Task, S: Outcome<T>, F: Outcome<T>>(
    before: Seq<Seq<char>>,
    line: Seq<char>,
    after: Seq<Seq<char>>,
    other: Seq<Seq<char>>,
    e: SessionError,
)
    requires
        before.len() <= usize::MAX,
    ensures
        readable::<T, S>(before) && S::entry(line) is None ==> (rejected_with::<T, S, F>(
            before.push(line) + after,
            other,
            e,
        ) <==> e == (SessionError::Decode { log: Log::Successful, line: before.len() as usize })),
        readable::<T, S>(other) && readable::<T, F>(before) && F::entry(line) is None ==> (
        rejected_with::<T, S, F>(other, before.push(line) + after, e) <==> e == (
        SessionError::Decode { log: Log::Failed, line: before.len() as usize })),
        readable::<T, S>(before) && readable::<T, F>(other) ==> !rejected_with::<T, S, F>(
            before,
            other,
            e,
        ),
{
    let all = before.push(line) + after;
    let n = before.len() as int;
    assert(all[n] == line);
    assert forall|i: int| 0 <= i < n implies #[trigger] all[i] == before[i] by {}
    if let SessionError::Decode { log: _, line: told } = e {
        if told < n {
            assert(all[told as int] == before[told as int]);
        }
    }
}

/// One more line adds what it records to what the lines before it record, in place
/// of what they record for the same task, and touches no other task. No line
/// records nothing.
pub proof fn law_line_by_line<T: Task, V: Outcome<T>>(lines: Seq<Seq<char>>, line: Seq<char>)
    requires
        V::entry(line) is Some,
    ensures
        recorded::<T, V>(Seq::empty()) == Map::<Seq<char>, Seq<char>>::empty(),
        recorded::<T, V>(lines.push(line)) == recorded::<T, V>(lines).insert(
            (V::entry(line)->0).0,
            (V::entry(line)->0).1,
        ),
{
    let entries = entries_of::<T, V>(lines.push(line));
    assert(entries.drop_last() =~= entries_of::<T, V>(lines));
    assert(entries.last() == V::entry(line)->0);
    assert(entries_of::<T, V>(Seq::empty()) =~= Seq::empty());
}

/// Whether some line of a log records the task of this name. A log that does not
/// exist has no line.
pub open spec fn on_record<T: Task, V: Outcome<T>>(text: Option<&str>, name: Seq<char>) -> bool {
    text matches Some(t) && exists|i: int|
        0 <= i < lines_of(t@).len() && (V::entry(#[trigger] lines_of(t@)[i]) matches Some((n, _))
            && n == name)
}

/// Every line of a log is read, whatever their number: a task is taken over from a
/// log if and only if some line of its text records it, and with the content that
/// the last such line gives.
pub proof fn law_every_line_read<T: Task, V: Outcome<T>>(
    text: Option<&str>,
    name: Seq<char>,
    last: int,
)
    requires
        readable::<T, V>(log_lines(text)),
    ensures
        text is None ==> recorded::<T, V>(log_lines(text)).len() == 0,
        recorded::<T, V>(log_lines(text)).contains_key(name) <==> on_record::<T, V>(text, name),
        text matches Some(t) ==> {
            let lines = lines_of(t@);
            &&& log_lines(text).len() == lines.len()
            &&& forall|i: int| 0 <= i < lines.len() ==> V::entry(#[trigger] lines[i]) is Some
            &&& 0 <= last < lines.len() && (V::entry(lines[last])->0).0 == name && (forall|j: int|
                last < j < lines.len() ==> (V::entry(#[trigger] lines[j])->0).0 != name)
                ==> recorded::<T, V>(log_lines(text))[name] == (V::entry(lines[last])->0).1
        },
{
    let lines = log_lines(text);
    let entries = entries_of::<T, V>(lines);
    law_entry_found(entries, name);
    if let Some(t) = text {
        if recorded::<T, V>(lines).contains_key(name) {
            let i = choose|i: int| 0 <= i < entries.len() && (#[trigger] entries[i]).0 == name;
            assert(V::entry(lines_of(t@)[i]) is Some);
        }
        if on_record::<T, V>(text, name) {
            let i = choose|i: int|
                0 <= i < lines_of(t@).len() && (V::entry(#[trigger] lines_of(t@)[i]) matches Some(
                    (n, _),
                ) && n == name);
            assert(entries[i].0 == name);
        }
        if 0 <= last < lines.len() && (V::entry(lines[last])->0).0 == name && (forall|j: int|
            last < j < lines.len() ==> (V::entry(#[trigger] lines[j])->0).0 != name) {
            assert forall|j: int| last < j < entries.len() implies (#[trigger] entries[j]).0
                != entries[last].0 by {
                assert((V::entry(lines[j])->0).0 != name);
            }
            law_last_entry_counts(entries, last);
        }
    } else {
        assert(entries =~= Seq::empty());
    }
}

/// Nothing of a log is passed over, be it readable or not: its lines are those of
/// its text, and lines that were written one after the other, each followed by a
/// line feed, are the lines of the log that they make up.
pub proof fn law_log_read_whole(text: &str, lines: Seq<Seq<char>>)
    requires
        forall|k: int, i: int|
            0 <= k < lines.len() && 0 <= i < lines[k].len() ==> #[trigger] lines[k][i] != '\n',
        forall|k: int|
            0 <= k < lines.len() && (#[trigger] lines[k]).len() > 0 ==> lines[k].last() != '\r',
    ensures
        log_lines(None).len() == 0,
        log_lines(Some(text)) == lines_of(text@),
        text@ == lines.map_values(|line: Seq<char>| line.push('\n')).flatten() ==> log_lines(
            Some(text),
        ) == lines,
{
    law_written_lines_read_back(lines);
}

} // verus!
