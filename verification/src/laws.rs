//! What holds of sessions as a whole.
use crate::clock::Timestamp;
use crate::error::SessionError;
use crate::inner::FootholdView;
use crate::lines::{ends_with_line, law_lines_of_line_appended, lines_of};
use crate::record::{records, Outcome, Task};
use crate::state::{
    entries_of, law_every_line_read, log_lines, on_record, readable, recorded,
};
use crate::stats::Stats;
use crate::tasks::collected;
use vstd::prelude::*;

verus! {

/// What a session can be asked to do, by the names and contents involved.
pub enum Operation {
    Succeed { name: Seq<char>, content: Seq<char> },
    Fail { name: Seq<char>, content: Seq<char> },
    Skip,
}

impl Operation {
    /// Whether the operation marks the task of this name as successful.
    pub open spec fn succeeds(self, name: Seq<char>) -> bool {
        self matches Operation::Succeed { name: marked, .. } && marked == name
    }

    /// Whether the operation marks the task of this name as failed.
    pub open spec fn fails(self, name: Seq<char>) -> bool {
        self matches Operation::Fail { name: marked, .. } && marked == name
    }
}

impl FootholdView {
    /// Whether the operation can be done: a mark needs a line for the task, unless
    /// the task is to be marked as successful and is so already.
    pub open spec fn allows<T: Task, S: Outcome<T>, F: Outcome<T>>(
        self,
        operation: Operation,
    ) -> bool {
        match operation {
            Operation::Succeed { name, content } => self.is_successful(name) || S::line(
                name,
                content,
            ) is Some,
            Operation::Fail { name, content } => F::line(name, content) is Some,
            Operation::Skip => true,
        }
    }

    /// The session after an operation.
    pub open spec fn apply(self, operation: Operation) -> FootholdView {
        match operation {
            Operation::Succeed { name, content } => self.mark_successful(name, content),
            Operation::Fail { name, content } => self.mark_failed(name, content),
            Operation::Skip => self.mark_skipped(),
        }
    }
}

/// A session together with the texts of its two logs.
#[verifier::ext_equal]
pub struct LoggedSession {
    pub session: FootholdView,
    pub successful: Seq<char>,
    pub failed: Seq<char>,
}

impl LoggedSession {
    /// Whether `line` is what the session calls for to be written before the
    /// operation, and reads back as what it stands for.
    pub open spec fn calls_for<T: Task, S: Outcome<T>, F: Outcome<T>>(
        self,
        operation: Operation,
        line: Option<Seq<char>>,
    ) -> bool {
        match operation {
            Operation::Succeed { name, content } => match line {
                Some(l) => !self.session.is_successful(name) && records::<T, S>(l, name, content),
                None => self.session.is_successful(name),
            },
            Operation::Fail { name, content } => line matches Some(l) && records::<T, F>(
                l,
                name,
                content,
            ),
            Operation::Skip => line is None,
        }
    }

    /// The session and its logs after the line was appended to its log and the
    /// operation done.
    pub open spec fn apply(self, operation: Operation, line: Option<Seq<char>>) -> LoggedSession {
        LoggedSession {
            session: self.session.apply(operation),
            successful: if operation is Succeed && line is Some {
                self.successful + line->0.push('\n')
            } else {
                self.successful
            },
            failed: if operation is Fail && line is Some {
                self.failed + line->0.push('\n')
            } else {
                self.failed
            },
        }
    }

    /// The session and its logs after a number of operations, each with the line
    /// that was written for it.
    pub open spec fn apply_all(self, steps: Seq<(Operation, Option<Seq<char>>)>) -> LoggedSession
        decreases steps.len(),
    {
        if steps.len() == 0 {
            self
        } else {
            self.apply_all(steps.drop_last()).apply(steps.last().0, steps.last().1)
        }
    }

    /// Whether for each operation the line was written that the session called
    /// for.
    pub open spec fn calls_for_all<T: Task, S: Outcome<T>, F: Outcome<T>>(
        self,
        steps: Seq<(Operation, Option<Seq<char>>)>,
    ) -> bool
        decreases steps.len(),
    {
        if steps.len() == 0 {
            true
        } else {
            &&& self.calls_for_all::<T, S, F>(steps.drop_last())
            &&& self.apply_all(steps.drop_last()).calls_for::<T, S, F>(
                steps.last().0,
                steps.last().1,
            )
        }
    }

    /// Whether the logs hold the session: each successful task with its outcome,
    /// and each failed task.
    pub open spec fn saved<T: Task, S: Outcome<T>, F: Outcome<T>>(self) -> bool {
        &&& ends_with_line(self.successful)
        &&& ends_with_line(self.failed)
        &&& readable::<T, S>(lines_of(self.successful))
        &&& readable::<T, F>(lines_of(self.failed))
        &&& recorded::<T, S>(lines_of(self.successful))
            == self.session.previous.successful.union_prefer_right(self.session.current.successful)
        &&& recorded::<T, F>(lines_of(self.failed)).dom() == self.session.previous.failed.dom().union(
            self.session.current.failed.dom(),
        )
    }
}

/// A line appended to a log adds what it records to what the log records, in
/// place of what the log recorded for the same task.
pub proof fn law_line_recorded<T: Task, V: Outcome<T>>(
    text: Seq<char>,
    line: Seq<char>,
    name: Seq<char>,
    content: Seq<char>,
)
    requires
        ends_with_line(text),
        readable::<T, V>(lines_of(text)),
        records::<T, V>(line, name, content),
    ensures
        ends_with_line(text + line.push('\n')),
        readable::<T, V>(lines_of(text + line.push('\n'))),
        recorded::<T, V>(lines_of(text + line.push('\n'))) == recorded::<T, V>(
            lines_of(text),
        ).insert(name, content),
{
    law_lines_of_line_appended(text, line);
    let before = entries_of::<T, V>(lines_of(text));
    let after = entries_of::<T, V>(lines_of(text).push(line));
    assert(after.drop_last() =~= before);
    assert(after.last() == (name, content));
}

/// Every operation keeps a session valid: in particular, no task ever counts as
/// successful both in the session and before it.
pub proof fn law_validity_kept(session: FootholdView, operation: Operation)
    requires
        session.valid(),
    ensures
        session.apply(operation).valid(),
{
}

/// Whatever is marked in a session has its line: there is one for each task that
/// was marked, after every operation that can be done.
pub proof fn law_marked_tasks_have_lines<T: Task, S: Outcome<T>, F: Outcome<T>>(
    session: FootholdView,
    operation: Operation,
)
    requires
        session.has_lines::<T, S, F>(),
        session.allows::<T, S, F>(operation),
    ensures
        session.apply(operation).has_lines::<T, S, F>(),
{
}

/// A session that has just started has marked no task, so none lacks its line.
pub proof fn law_started_session_has_lines<T: Task, S: Outcome<T>, F: Outcome<T>>(
    successful: Seq<Seq<char>>,
    failed: Seq<Seq<char>>,
    total: usize,
    start_time: Timestamp,
)
    ensures
        FootholdView::started::<T, S, F>(successful, failed, total, start_time).has_lines::<
            T,
            S,
            F,
        >(),
{
}

/// A task that was marked as successful is successful from then on, and one that
/// was marked as failed is failed, and failed in this session.
pub proof fn law_marks_take_effect(session: FootholdView, name: Seq<char>, content: Seq<char>)
    ensures
        session.mark_successful(name, content).is_successful(name),
        session.mark_failed(name, content).is_failed(name),
        session.mark_failed(name, content).current.failed.contains_key(name),
{
}

/// No operation takes a mark away, sets one for a task that it is not about, or
/// touches what previous sessions left.
pub proof fn law_marks_kept(session: FootholdView, operation: Operation, name: Seq<char>)
    ensures
        session.is_successful(name) ==> session.apply(operation).is_successful(name),
        session.is_failed(name) ==> session.apply(operation).is_failed(name),
        session.apply(operation).is_successful(name) && !session.is_successful(name)
            ==> operation.succeeds(name),
        session.apply(operation).is_failed(name) && !session.is_failed(name)
            ==> operation.fails(name),
        session.apply(operation).current.failed.contains_key(name)
            && !session.current.failed.contains_key(name)
            ==> operation.fails(name),
        session.apply(operation).previous == session.previous,
        session.apply(operation).total == session.total,
        session.apply(operation).start_time == session.start_time,
{
}

/// In a session, the outcome that a task was first marked with stays.
pub proof fn law_first_outcome_stays(session: FootholdView, operation: Operation, name: Seq<char>)
    ensures
        session.current.successful.contains_key(name) ==> {
            &&& session.apply(operation).current.successful.contains_key(name)
            &&& session.apply(operation).current.successful[name]
                == session.current.successful[name]
        },
        session.current.failed.contains_key(name) ==> {
            &&& session.apply(operation).current.failed.contains_key(name)
            &&& session.apply(operation).current.failed[name] == session.current.failed[name]
        },
{
}

/// Marking a task as successful counts it once: as successful if it is new, as
/// skipped if it was successful in a previous session, and not at all if it is
/// successful in this session already. A mark as failed counts a task that did
/// not fail in this session as failed.
pub proof fn law_marks_counted(session: FootholdView, name: Seq<char>, content: Seq<char>)
    requires
        session.valid(),
    ensures
        session.mark_successful(name, content).current.successful.len()
            == session.current.successful.len() + (if session.current.successful.contains_key(name)
            || session.previous.successful.contains_key(name) {
            0int
        } else {
            1
        }),
        session.mark_successful(name, content).skipped == (if session.previous.successful.contains_key(
            name,
        ) {
            session.mark_skipped().skipped
        } else {
            session.skipped
        }),
        session.skipped < usize::MAX ==> session.mark_successful(name, content).skipped
            == session.skipped + (if session.previous.successful.contains_key(name) {
            1int
        } else {
            0
        }),
        session.mark_successful(name, content).current.failed == session.current.failed,
        session.mark_failed(name, content).current.failed.len() == session.current.failed.len() + (
        if session.current.failed.contains_key(name) {
            0int
        } else {
            1
        }),
        session.mark_failed(name, content).current.successful == session.current.successful,
        session.mark_failed(name, content).skipped == session.skipped,
{
}

/// Marking a task that is new as successful a second time changes nothing.
pub proof fn law_mark_successful_once(
    session: FootholdView,
    name: Seq<char>,
    content: Seq<char>,
    again: Seq<char>,
)
    requires
        !session.previous.successful.contains_key(name),
    ensures
        session.mark_successful(name, content).mark_successful(name, again)
            == session.mark_successful(name, content),
{
}

/// A session that has just started from logs that can be read, and that end with
/// a line, is held by them.
pub proof fn law_started_session_saved<T: Task, S: Outcome<T>, F: Outcome<T>>(
    successful: Seq<char>,
    failed: Seq<char>,
    total: usize,
    start_time: Timestamp,
)
    requires
        ends_with_line(successful),
        ends_with_line(failed),
        readable::<T, S>(lines_of(successful)),
        readable::<T, F>(lines_of(failed)),
    ensures
        (LoggedSession {
            session: FootholdView::started::<T, S, F>(
                lines_of(successful),
                lines_of(failed),
                total,
                start_time,
            ),
            successful,
            failed,
        }).saved::<T, S, F>(),
{
    let session = FootholdView::started::<T, S, F>(
        lines_of(successful),
        lines_of(failed),
        total,
        start_time,
    );
    assert(session.previous.successful.union_prefer_right(session.current.successful)
        =~= session.previous.successful);
    assert(session.previous.failed.dom().union(session.current.failed.dom())
        =~= session.previous.failed.dom());
}

/// Logs that hold a session go on holding it when the line that it calls for is
/// appended before an operation.
pub proof fn law_operation_saved<T: Task, S: Outcome<T>, F: Outcome<T>>(
    logged: LoggedSession,
    operation: Operation,
    line: Option<Seq<char>>,
)
    requires
        logged.saved::<T, S, F>(),
        logged.calls_for::<T, S, F>(operation, line),
    ensures
        logged.apply(operation, line).saved::<T, S, F>(),
{
    let before = logged.session;
    let after = before.apply(operation);
    match operation {
        Operation::Succeed { name, content } => {
            if let Some(l) = line {
                law_line_recorded::<T, S>(logged.successful, l, name, content);
                assert(after.previous.successful.union_prefer_right(after.current.successful)
                    =~= before.previous.successful.union_prefer_right(
                    before.current.successful,
                ).insert(name, content));
            }
        },
        Operation::Fail { name, content } => {
            law_line_recorded::<T, F>(logged.failed, line->0, name, content);
            assert(after.previous.failed.dom().union(after.current.failed.dom())
                =~= before.previous.failed.dom().union(before.current.failed.dom()).insert(name));
        },
        Operation::Skip => {},
    }
}

/// Logs that hold a session hold it after any number of operations, if the lines
/// that it called for were written.
pub proof fn law_operations_saved<T: Task, S: Outcome<T>, F: Outcome<T>>(
    logged: LoggedSession,
    steps: Seq<(Operation, Option<Seq<char>>)>,
)
    requires
        logged.saved::<T, S, F>(),
        logged.calls_for_all::<T, S, F>(steps),
    ensures
        logged.apply_all(steps).saved::<T, S, F>(),
    decreases steps.len(),
{
    if steps.len() > 0 {
        law_operations_saved::<T, S, F>(logged, steps.drop_last());
        law_operation_saved::<T, S, F>(
            logged.apply_all(steps.drop_last()),
            steps.last().0,
            steps.last().1,
        );
    }
}

/// A session that starts from the logs that hold another one takes up where that
/// one stopped: the logs can be read, the same tasks are successful, with the same
/// outcomes, the same tasks are failed, none of them in the new session, and what
/// was counted for the session and for those before it is now counted as previous.
pub proof fn law_session_resumed<T: Task, S: Outcome<T>, F: Outcome<T>>(
    logged: LoggedSession,
    total: usize,
    start_time: Timestamp,
    name: Seq<char>,
)
    requires
        logged.session.valid(),
        logged.saved::<T, S, F>(),
    ensures
        readable::<T, S>(lines_of(logged.successful)),
        readable::<T, F>(lines_of(logged.failed)),
        ({
            let stopped = logged.session;
            let resumed = FootholdView::started::<T, S, F>(
                lines_of(logged.successful),
                lines_of(logged.failed),
                total,
                start_time,
            );
            &&& resumed.is_successful(name) == stopped.is_successful(name)
            &&& resumed.is_failed(name) == stopped.is_failed(name)
            &&& !resumed.current.failed.contains_key(name)
            &&& stopped.current.successful.contains_key(name)
                ==> resumed.previous.successful[name] == stopped.current.successful[name]
            &&& stopped.previous.successful.contains_key(name)
                ==> resumed.previous.successful[name] == stopped.previous.successful[name]
            &&& resumed.previous.successful.len() == stopped.previous.successful.len()
                + stopped.current.successful.len()
            &&& resumed.previous.failed.len() == stopped.previous.failed.dom().union(
                stopped.current.failed.dom(),
            ).len()
            &&& resumed.current.successful.len() == 0
            &&& resumed.current.failed.len() == 0
            &&& resumed.skipped == 0
            &&& resumed.valid()
        }),
{
    let stopped = logged.session;
    let m1 = stopped.previous.successful;
    let m2 = stopped.current.successful;
    assert(m1.dom().disjoint(m2.dom()));
    vstd::map_lib::lemma_disjoint_union_size(m1, m2);
    assert(m1.union_prefer_right(m2).dom() =~= m1.dom().union(m2.dom()));
}

/// Any number of operations keeps a session valid and leaves what previous
/// sessions left.
pub proof fn law_validity_kept_by_all(
    logged: LoggedSession,
    steps: Seq<(Operation, Option<Seq<char>>)>,
)
    requires
        logged.session.valid(),
    ensures
        logged.apply_all(steps).session.valid(),
        logged.apply_all(steps).session.previous == logged.session.previous,
    decreases steps.len(),
{
    if steps.len() > 0 {
        law_validity_kept_by_all(logged, steps.drop_last());
        law_validity_kept(logged.apply_all(steps.drop_last()).session, steps.last().0);
    }
}

/// No number of operations takes a mark away, sets one for a task that none of
/// them is about, or touches what previous sessions left.
pub proof fn law_marks_kept_by_all(
    logged: LoggedSession,
    steps: Seq<(Operation, Option<Seq<char>>)>,
    name: Seq<char>,
)
    ensures
        ({
            let before = logged.session;
            let after = logged.apply_all(steps).session;
            &&& before.is_successful(name) ==> after.is_successful(name)
            &&& before.is_failed(name) ==> after.is_failed(name)
            &&& after.is_successful(name) && !before.is_successful(name) ==> exists|i: int|
                0 <= i < steps.len() && (#[trigger] steps[i]).0.succeeds(name)
            &&& after.is_failed(name) && !before.is_failed(name) ==> exists|i: int|
                0 <= i < steps.len() && (#[trigger] steps[i]).0.fails(name)
            &&& after.current.failed.contains_key(name) && !before.current.failed.contains_key(name)
                ==> exists|i: int|
                0 <= i < steps.len() && (#[trigger] steps[i]).0.fails(name)
            &&& after.previous == before.previous
            &&& after.total == before.total
            &&& after.start_time == before.start_time
        }),
    decreases steps.len(),
{
    if steps.len() > 0 {
        let init = steps.drop_last();
        law_marks_kept_by_all(logged, init, name);
        law_marks_kept(logged.apply_all(init).session, steps.last().0, name);
        assert forall|i: int| 0 <= i < init.len() implies #[trigger] init[i] == steps[i] by {}
        assert(steps.last() == steps[steps.len() - 1]);
    }
}

/// In a session, the outcome that a task was first marked with stays through any
/// number of operations.
pub proof fn law_first_outcome_stays_through_all(
    logged: LoggedSession,
    steps: Seq<(Operation, Option<Seq<char>>)>,
    name: Seq<char>,
)
    ensures
        ({
            let before = logged.session.current;
            let after = logged.apply_all(steps).session.current;
            &&& before.successful.contains_key(name) ==> {
                &&& after.successful.contains_key(name)
                &&& after.successful[name] == before.successful[name]
            }
            &&& before.failed.contains_key(name) ==> {
                &&& after.failed.contains_key(name)
                &&& after.failed[name] == before.failed[name]
            }
        }),
    decreases steps.len(),
{
    if steps.len() > 0 {
        law_first_outcome_stays_through_all(logged, steps.drop_last(), name);
        law_first_outcome_stays(
            logged.apply_all(steps.drop_last()).session,
            steps.last().0,
            name,
        );
    }
}

/// What a session does survives it. Take a session that started from logs that
/// can be read and that end with a line, and that wrote the lines it called for.
/// One that starts from the logs it left finds the same tasks successful, with the
/// same outcomes, and the same tasks failed. It counts as successful, and as
/// failed, in previous sessions all those that were so before and all those that
/// became so, and nothing as done in its own.
pub proof fn law_work_survives<T: Task, S: Outcome<T>, F: Outcome<T>>(
    first: LoggedSession,
    total: usize,
    start_time: Timestamp,
    steps: Seq<(Operation, Option<Seq<char>>)>,
    next_total: usize,
    next_start_time: Timestamp,
    name: Seq<char>,
)
    requires
        ends_with_line(first.successful),
        ends_with_line(first.failed),
        readable::<T, S>(lines_of(first.successful)),
        readable::<T, F>(lines_of(first.failed)),
        first.session == FootholdView::started::<T, S, F>(
            lines_of(first.successful),
            lines_of(first.failed),
            total,
            start_time,
        ),
        first.calls_for_all::<T, S, F>(steps),
    ensures
        ({
            let left = first.apply_all(steps);
            let next = FootholdView::started::<T, S, F>(
                lines_of(left.successful),
                lines_of(left.failed),
                next_total,
                next_start_time,
            );
            &&& readable::<T, S>(lines_of(left.successful))
            &&& readable::<T, F>(lines_of(left.failed))
            &&& next.is_successful(name) == left.session.is_successful(name)
            &&& next.is_failed(name) == left.session.is_failed(name)
            &&& !next.current.failed.contains_key(name)
            &&& left.session.current.successful.contains_key(name)
                ==> next.previous.successful[name] == left.session.current.successful[name]
            &&& first.session.previous.successful.contains_key(name)
                ==> next.previous.successful[name] == first.session.previous.successful[name]
            &&& next.previous.successful.len() == first.session.previous.successful.len()
                + left.session.current.successful.len()
            &&& next.previous.failed.len() == first.session.previous.failed.dom().union(
                left.session.current.failed.dom(),
            ).len()
            &&& next.current.successful.len() == 0
            &&& next.current.failed.len() == 0
            &&& next.skipped == 0
            &&& next.valid()
        }),
{
    lemma_recorded_finite::<T, S>(lines_of(first.successful));
    lemma_recorded_finite::<T, F>(lines_of(first.failed));
    law_started_session_saved::<T, S, F>(first.successful, first.failed, total, start_time);
    law_operations_saved::<T, S, F>(first, steps);
    law_validity_kept_by_all(first, steps);
    law_session_resumed::<T, S, F>(first.apply_all(steps), next_total, next_start_time, name);
}

/// A log records finitely many tasks.
proof fn lemma_recorded_finite<T: Task, V: Outcome<T>>(lines: Seq<Seq<char>>)
    ensures
        recorded::<T, V>(lines).dom().finite(),
{
    lemma_collected_finite(entries_of::<T, V>(lines));
}

proof fn lemma_collected_finite(entries: Seq<(Seq<char>, Seq<char>)>)
    ensures
        collected(entries).dom().finite(),
    decreases entries.len(),
{
    if entries.len() > 0 {
        lemma_collected_finite(entries.drop_last());
    }
}

/// Skipping a task raises the number of skipped tasks by one and changes nothing
/// else. After the largest number it starts over at zero.
pub proof fn law_skip_counted(session: FootholdView)
    ensures
        session.skipped < usize::MAX ==> session.mark_skipped().skipped == session.skipped + 1,
        session.skipped == usize::MAX ==> session.mark_skipped().skipped == 0,
        session.mark_skipped().current == session.current,
        session.mark_skipped().previous == session.previous,
        session.mark_skipped().total == session.total,
        session.mark_skipped().start_time == session.start_time,
{
}

/// A task is successful in a session if and only if it was marked so in it or
/// before it, and likewise failed. Marking a task as successful that is not so yet
/// stores it with its outcome and raises the number of successful tasks by one.
pub proof fn law_new_success_stored(session: FootholdView, name: Seq<char>, content: Seq<char>)
    requires
        session.current.successful.dom().finite(),
    ensures
        session.is_successful(name) <==> session.current.successful.contains_key(name)
            || session.previous.successful.contains_key(name),
        session.is_failed(name) <==> session.current.failed.contains_key(name)
            || session.previous.failed.contains_key(name),
        !session.current.successful.contains_key(name)
            && !session.previous.successful.contains_key(name) ==> {
            let after = session.mark_successful(name, content);
            &&& after.current.successful.contains_key(name)
            &&& after.current.successful[name] == content
            &&& after.current.successful.len() == session.current.successful.len() + 1
        },
{
}

impl FootholdView {
    /// The session after operations, one after the other.
    pub open spec fn after(self, operations: Seq<Operation>) -> FootholdView
        decreases operations.len(),
    {
        if operations.len() == 0 {
            self
        } else {
            self.after(operations.drop_last()).apply(operations.last())
        }
    }
}

/// Whether one of the operations marks the task of this name as successful.
pub open spec fn ever_succeeds(operations: Seq<Operation>, name: Seq<char>) -> bool {
    exists|i: int| 0 <= i < operations.len() && (#[trigger] operations[i]).succeeds(name)
}

/// Whether one of the operations marks the task of this name as failed.
pub open spec fn ever_fails(operations: Seq<Operation>, name: Seq<char>) -> bool {
    exists|i: int| 0 <= i < operations.len() && (#[trigger] operations[i]).fails(name)
}

/// How many of the operations skip a task, or mark one as successful that the log
/// of successful tasks has on record.
pub open spec fn skips<T: Task, S: Outcome<T>>(
    operations: Seq<Operation>,
    successful: Option<&str>,
) -> nat {
    operations.filter(
        |operation: Operation|
            operation is Skip || (operation matches Operation::Succeed { name, .. }
                && on_record::<T, S>(successful, name)),
    ).len()
}

proof fn lemma_ever(operations: Seq<Operation>, name: Seq<char>)
    requires
        operations.len() > 0,
    ensures
        ever_succeeds(operations, name) <==> ever_succeeds(operations.drop_last(), name)
            || operations.last().succeeds(name),
        ever_fails(operations, name) <==> ever_fails(operations.drop_last(), name)
            || operations.last().fails(name),
{
    let before = operations.drop_last();
    let last = operations.len() - 1;
    assert forall|i: int| 0 <= i < before.len() implies #[trigger] before[i] == operations[i] by {}
    if ever_succeeds(operations, name) && !operations[last].succeeds(name) {
        let i = choose|i: int| 0 <= i < operations.len() && (#[trigger] operations[i]).succeeds(name);
        assert(before[i].succeeds(name));
    }
    if ever_succeeds(before, name) {
        let i = choose|i: int| 0 <= i < before.len() && (#[trigger] before[i]).succeeds(name);
        assert(operations[i].succeeds(name));
    }
    if ever_fails(operations, name) && !operations[last].fails(name) {
        let i = choose|i: int| 0 <= i < operations.len() && (#[trigger] operations[i]).fails(name);
        assert(before[i].fails(name));
    }
    if ever_fails(before, name) {
        let i = choose|i: int| 0 <= i < before.len() && (#[trigger] before[i]).fails(name);
        assert(operations[i].fails(name));
    }
    assert(operations[last] == operations.last());
}

/// What a session holds is told by the texts of the logs that it started from and
/// by the operations since. A task is successful if and only if some line of the log
/// of successful tasks records it or some operation marked it so, and it counts as
/// successful in this session where no line does. A task is failed if and only if
/// some line of the log of failed tasks records it or some operation marked it so,
/// and it counts as failed in this session where some operation did.
pub proof fn law_session_told_by_history<T: Task, S: Outcome<T>, F: Outcome<T>>(
    successful: Option<&str>,
    failed: Option<&str>,
    total: usize,
    start_time: Timestamp,
    operations: Seq<Operation>,
    name: Seq<char>,
)
    requires
        readable::<T, S>(log_lines(successful)),
        readable::<T, F>(log_lines(failed)),
    ensures
        ({
            let session = FootholdView::started::<T, S, F>(
                log_lines(successful),
                log_lines(failed),
                total,
                start_time,
            ).after(operations);
            &&& session.is_successful(name) <==> on_record::<T, S>(successful, name)
                || ever_succeeds(operations, name)
            &&& session.is_failed(name) <==> on_record::<T, F>(failed, name) || ever_fails(
                operations,
                name,
            )
            &&& session.current.successful.contains_key(name) <==> ever_succeeds(operations, name)
                && !on_record::<T, S>(successful, name)
            &&& session.current.failed.contains_key(name) <==> ever_fails(operations, name)
            &&& session.previous.successful.contains_key(name) <==> on_record::<T, S>(
                successful,
                name,
            )
            &&& session.previous.failed.contains_key(name) <==> on_record::<T, F>(failed, name)
            &&& session.total == total
            &&& session.start_time == start_time
        }),
    decreases operations.len(),
{
    law_every_line_read::<T, S>(successful, name, 0);
    law_every_line_read::<T, F>(failed, name, 0);
    if operations.len() > 0 {
        law_session_told_by_history::<T, S, F>(
            successful,
            failed,
            total,
            start_time,
            operations.drop_last(),
            name,
        );
        lemma_ever(operations, name);
    }
}

/// A task that was marked in a session stands in it with the outcome of the first
/// operation that marked it so.
pub proof fn law_first_outcome_held<T: Task, S: Outcome<T>, F: Outcome<T>>(
    successful: Option<&str>,
    failed: Option<&str>,
    total: usize,
    start_time: Timestamp,
    operations: Seq<Operation>,
    first: int,
    name: Seq<char>,
    content: Seq<char>,
)
    requires
        readable::<T, S>(log_lines(successful)),
        readable::<T, F>(log_lines(failed)),
        0 <= first < operations.len(),
    ensures
        ({
            let session = FootholdView::started::<T, S, F>(
                log_lines(successful),
                log_lines(failed),
                total,
                start_time,
            ).after(operations);
            &&& operations[first] == (Operation::Succeed { name, content }) && !ever_succeeds(
                operations.take(first),
                name,
            ) && !on_record::<T, S>(successful, name) ==> session.current.successful[name]
                == content
            &&& operations[first] == (Operation::Fail { name, content }) && !ever_fails(
                operations.take(first),
                name,
            ) ==> session.current.failed[name] == content
        }),
    decreases operations.len(),
{
    let before = operations.drop_last();
    law_session_told_by_history::<T, S, F>(
        successful,
        failed,
        total,
        start_time,
        before,
        name,
    );
    if first < before.len() {
        law_first_outcome_held::<T, S, F>(
            successful,
            failed,
            total,
            start_time,
            before,
            first,
            name,
            content,
        );
        assert(before.take(first) =~= operations.take(first));
        assert(before[first] == operations[first]);
        assert(operations[first].succeeds(name) ==> ever_succeeds(before, name));
        assert(operations[first].fails(name) ==> ever_fails(before, name));
    } else {
        assert(before =~= operations.take(first));
        assert(operations.last() == operations[first]);
    }
}

/// As many tasks count as skipped as there were skips, and marks as successful of
/// tasks that the log of successful tasks has on record, up to the largest number
/// that can be counted.
pub proof fn law_skips_counted<T: Task, S: Outcome<T>, F: Outcome<T>>(
    successful: Option<&str>,
    failed: Option<&str>,
    total: usize,
    start_time: Timestamp,
    operations: Seq<Operation>,
)
    requires
        readable::<T, S>(log_lines(successful)),
        readable::<T, F>(log_lines(failed)),
        skips::<T, S>(operations, successful) <= usize::MAX,
    ensures
        FootholdView::started::<T, S, F>(
            log_lines(successful),
            log_lines(failed),
            total,
            start_time,
        ).after(operations).skipped == skips::<T, S>(operations, successful),
    decreases operations.len(),
{
    reveal(Seq::filter);
    if operations.len() > 0 {
        let before = operations.drop_last();
        law_skips_counted::<T, S, F>(successful, failed, total, start_time, before);
        if let Operation::Succeed { name, .. } = operations.last() {
            law_session_told_by_history::<T, S, F>(
                successful,
                failed,
                total,
                start_time,
                before,
                name,
            );
        }
    }
}

/// The statistics tell the history of a session: the number of different tasks that
/// were marked as successful and were not on record, of different tasks that were
/// marked as failed, of skips, and of different tasks that each log has on record,
/// with the total that was given and the time since the start. They are given unless
/// the time lies before the start, which is an error.
pub proof fn law_stats_tell_history<T: Task, S: Outcome<T>, F: Outcome<T>>(
    successful: Option<&str>,
    failed: Option<&str>,
    total: usize,
    start_time: Timestamp,
    operations: Seq<Operation>,
    now: Timestamp,
    answer: Result<Stats, SessionError>,
)
    requires
        readable::<T, S>(log_lines(successful)),
        readable::<T, F>(log_lines(failed)),
        FootholdView::started::<T, S, F>(
            log_lines(successful),
            log_lines(failed),
            total,
            start_time,
        ).after(operations).answers_stats_at(now, answer),
    ensures
        answer is Ok <==> start_time.position() <= now.position(),
        answer matches Err(e) ==> e == SessionError::Clock,
        answer matches Ok(stats) ==> {
            &&& stats.total == total
            &&& stats.session_successful == Set::new(
                |name: Seq<char>|
                    ever_succeeds(operations, name) && !on_record::<T, S>(successful, name),
            ).len()
            &&& stats.session_failed == Set::new(
                |name: Seq<char>| ever_fails(operations, name),
            ).len()
            &&& skips::<T, S>(operations, successful) <= usize::MAX ==> stats.session_skipped
                == skips::<T, S>(operations, successful)
            &&& stats.previous_session_successful == Set::new(
                |name: Seq<char>| on_record::<T, S>(successful, name),
            ).len()
            &&& stats.previous_session_failed == Set::new(
                |name: Seq<char>| on_record::<T, F>(failed, name),
            ).len()
            &&& stats.elapsed == now.position() - start_time.position()
        },
{
    let session = FootholdView::started::<T, S, F>(
        log_lines(successful),
        log_lines(failed),
        total,
        start_time,
    ).after(operations);
    assert forall|name: Seq<char>| #[trigger] session.current.successful.dom().contains(name)
        <==> ever_succeeds(operations, name) && !on_record::<T, S>(successful, name) by {
        law_session_told_by_history::<T, S, F>(
            successful,
            failed,
            total,
            start_time,
            operations,
            name,
        );
    }
    assert forall|name: Seq<char>| #[trigger] session.current.failed.dom().contains(name)
        <==> ever_fails(operations, name) by {
        law_session_told_by_history::<T, S, F>(
            successful,
            failed,
            total,
            start_time,
            operations,
            name,
        );
    }
    assert forall|name: Seq<char>| #[trigger] session.previous.successful.dom().contains(name)
        <==> on_record::<T, S>(successful, name) by {
        law_session_told_by_history::<T, S, F>(
            successful,
            failed,
            total,
            start_time,
            operations,
            name,
        );
    }
    assert forall|name: Seq<char>| #[trigger] session.previous.failed.dom().contains(name)
        <==> on_record::<T, F>(failed, name) by {
        law_session_told_by_history::<T, S, F>(
            successful,
            failed,
            total,
            start_time,
            operations,
            name,
        );
    }
    law_session_told_by_history::<T, S, F>(
        successful,
        failed,
        total,
        start_time,
        operations,
        Seq::empty(),
    );
    assert(session.current.successful.dom() =~= Set::new(
        |name: Seq<char>| ever_succeeds(operations, name) && !on_record::<T, S>(successful, name),
    ));
    assert(session.current.failed.dom() =~= Set::new(
        |name: Seq<char>| ever_fails(operations, name),
    ));
    assert(session.previous.successful.dom() =~= Set::new(
        |name: Seq<char>| on_record::<T, S>(successful, name),
    ));
    assert(session.previous.failed.dom() =~= Set::new(
        |name: Seq<char>| on_record::<T, F>(failed, name),
    ));
    if skips::<T, S>(operations, successful) <= usize::MAX {
        law_skips_counted::<T, S, F>(successful, failed, total, start_time, operations);
    }
}

} // verus!
