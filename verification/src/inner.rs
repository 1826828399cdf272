//! A session on top of the sessions before it.
use crate::clock::Timestamp;
use crate::error::SessionError;
use crate::record::{records, Outcome, Task};
use crate::state::{log_lines, readable, recorded, rejected_with, SessionState, SessionView};
use crate::stats::Stats;
use crate::sync::SyncConfig;
use crate::tasks::added;
use vstd::prelude::*;

verus! {

/// A session with what it took over from previous sessions.
#[verifier::ext_equal]
pub struct FootholdView {
    /// The tasks that were marked in this session.
    pub current: SessionView,
    /// The tasks that the logs held when the session started.
    pub previous: SessionView,
    /// How often a task was skipped in this session.
    pub skipped: usize,
    /// Total number of tasks to process.
    pub total: usize,
    /// When the session started.
    pub start_time: Timestamp,
}

impl FootholdView {
    /// A session that has just started from logs with these lines.
    pub open spec fn started<T: Task, S: Outcome<T>, F: Outcome<T>>(
        successful: Seq<Seq<char>>,
        failed: Seq<Seq<char>>,
        total: usize,
        start_time: Timestamp,
    ) -> FootholdView {
        FootholdView {
            current: SessionView { successful: Map::empty(), failed: Map::empty() },
            previous: SessionView {
                successful: recorded::<T, S>(successful),
                failed: recorded::<T, F>(failed),
            },
            skipped: 0,
            total,
            start_time,
        }
    }

    /// Whether no task counts as successful both in this session and before it,
    /// and there are finitely many tasks.
    pub open spec fn valid(self) -> bool {
        &&& self.current.successful.dom().disjoint(self.previous.successful.dom())
        &&& self.current.successful.dom().finite()
        &&& self.current.failed.dom().finite()
        &&& self.previous.successful.dom().finite()
        &&& self.previous.failed.dom().finite()
    }

    /// Whether there is a line for each task that was marked in this session, with
    /// the outcome that it was marked with.
    pub open spec fn has_lines<T: Task, S: Outcome<T>, F: Outcome<T>>(self) -> bool {
        &&& forall|name: Seq<char>| #[trigger]
            self.current.successful.contains_key(name) ==> S::line(
                name,
                self.current.successful[name],
            ) is Some
        &&& forall|name: Seq<char>| #[trigger]
            self.current.failed.contains_key(name) ==> F::line(
                name,
                self.current.failed[name],
            ) is Some
    }

    /// Whether the task of this name is successful in this session or before it.
    pub open spec fn is_successful(self, name: Seq<char>) -> bool {
        self.current.successful.contains_key(name) || self.previous.successful.contains_key(name)
    }

    /// Whether the task of this name failed in this session or before it.
    pub open spec fn is_failed(self, name: Seq<char>) -> bool {
        self.current.failed.contains_key(name) || self.previous.failed.contains_key(name)
    }

    /// The session after a task was skipped. The count starts over after the
    /// largest number.
    pub open spec fn mark_skipped(self) -> FootholdView {
        FootholdView {
            skipped: if self.skipped == usize::MAX {
                0
            } else {
                (self.skipped + 1) as usize
            },
            ..self
        }
    }

    /// The session after a task was marked as successful.
    pub open spec fn mark_successful(self, name: Seq<char>, content: Seq<char>) -> FootholdView {
        if self.previous.successful.contains_key(name) {
            self.mark_skipped()
        } else {
            FootholdView {
                current: SessionView {
                    successful: added(self.current.successful, name, content),
                    ..self.current
                },
                ..self
            }
        }
    }

    /// The session after a task was marked as failed.
    pub open spec fn mark_failed(self, name: Seq<char>, content: Seq<char>) -> FootholdView {
        FootholdView {
            current: SessionView {
                failed: added(self.current.failed, name, content),
                ..self.current
            },
            ..self
        }
    }

    /// The statistics of the session at the time `now`.
    pub open spec fn stats(self, now: Timestamp) -> Stats {
        Stats {
            total: self.total,
            session_successful: self.current.successful.len() as usize,
            session_failed: self.current.failed.len() as usize,
            session_skipped: self.skipped,
            previous_session_successful: self.previous.successful.len() as usize,
            previous_session_failed: self.previous.failed.len() as usize,
            elapsed: (now.position() - self.start_time.position()) as u128,
        }
    }

    /// Whether `answer` is what is owed for the statistics at the time `now`: an
    /// error where `now` lies before the start of the session, and else the
    /// statistics.
    pub open spec fn answers_stats_at(
        self,
        now: Timestamp,
        answer: Result<Stats, SessionError>,
    ) -> bool {
        match answer {
            Ok(stats) => {
                &&& self.start_time.position() <= now.position()
                &&& stats == self.stats(now)
                &&& stats.session_successful == self.current.successful.len()
                &&& stats.session_failed == self.current.failed.len()
                &&& stats.previous_session_successful == self.previous.successful.len()
                &&& stats.previous_session_failed == self.previous.failed.len()
                &&& stats.elapsed == now.position() - self.start_time.position()
            },
            Err(e) => e == SessionError::Clock && now.position() < self.start_time.position(),
        }
    }
}

/// Manages the state of a session of batch processing tasks, and tells what is to
/// be written to its logs and when they are to be synchronized.
///
/// To mark a task, the line for it is asked for and written first, and the task is
/// marked once that has succeeded. Use [`Foothold`](crate::Foothold) for a
/// user-facing API.
#[verifier::reject_recursive_types(T)]
#[verifier::reject_recursive_types(S)]
#[verifier::reject_recursive_types(F)]
pub struct FootholdInner<T: Task, S: Outcome<T>, F: Outcome<T>> {
    current: SessionState<T, S, F>,
    previous: SessionState<T, S, F>,
    skipped: usize,
    total: usize,
    start_time: Timestamp,
    sync_config: SyncConfig,
}

impl<T: Task, S: Outcome<T>, F: Outcome<T>> View for FootholdInner<T, S, F> {
    type V = FootholdView;

    closed spec fn view(&self) -> FootholdView {
        FootholdView {
            current: self.current@,
            previous: self.previous@,
            skipped: self.skipped,
            total: self.total,
            start_time: self.start_time,
        }
    }
}

impl<T: Task, S: Outcome<T>, F: Outcome<T>> FootholdInner<T, S, F> {
    /// Whether the session holds together.
    pub closed spec fn inv(&self) -> bool {
        &&& self.current.inv()
        &&& self.previous.inv()
        &&& self@.current.successful.dom().disjoint(self@.previous.successful.dom())
        &&& self@.has_lines::<T, S, F>()
    }

    /// The configuration that decides when the logs are synchronized.
    pub closed spec fn sync(&self) -> SyncConfig {
        self.sync_config
    }

    /// A session that holds together is a valid one, and there is a line for each
    /// task that was marked in it.
    pub proof fn lemma_valid(&self)
        requires
            self.inv(),
        ensures
            self@.valid(),
            self@.has_lines::<T, S, F>(),
    {
        self.current.lemma_finite();
        self.previous.lemma_finite();
    }

    /// Creates a new `FootholdInner` that takes over the tasks of previous
    /// sessions.
    ///
    /// # Arguments
    /// * `successful` - Text of the log of successful tasks, if there is one
    /// * `failed` - Text of the log of failed tasks, if there is one
    /// * `total` - Total number of tasks to process
    /// * `sync_config` - Configuration for synchronizing the logs to disk
    ///
    /// # Errors
    /// Returns an error if a line of either log cannot be read.
    pub fn new(
        successful: Option<&str>,
        failed: Option<&str>,
        total: usize,
        sync_config: SyncConfig,
    ) -> (session: Result<Self, SessionError>)
        ensures
            match session {
                Ok(s) => {
                    &&& readable::<T, S>(log_lines(successful))
                    &&& readable::<T, F>(log_lines(failed))
                    &&& s.inv()
                    &&& s.sync() == sync_config
                    &&& s@ == FootholdView::started::<T, S, F>(
                        log_lines(successful),
                        log_lines(failed),
                        total,
                        s@.start_time,
                    )
                },
                Err(e) => rejected_with::<T, S, F>(log_lines(successful), log_lines(failed), e),
            },
    {
        FootholdInner::new_at(successful, failed, total, sync_config, Timestamp::now())
    }

    /// The same as [`FootholdInner::new`], with `now` as the current time.
    pub fn new_at(
        successful: Option<&str>,
        failed: Option<&str>,
        total: usize,
        sync_config: SyncConfig,
        now: Timestamp,
    ) -> (session: Result<Self, SessionError>)
        ensures
            match session {
                Ok(s) => {
                    &&& readable::<T, S>(log_lines(successful))
                    &&& readable::<T, F>(log_lines(failed))
                    &&& s.inv()
                    &&& s.sync() == sync_config
                    &&& s@ == FootholdView::started::<T, S, F>(
                        log_lines(successful),
                        log_lines(failed),
                        total,
                        now,
                    )
                },
                Err(e) => rejected_with::<T, S, F>(log_lines(successful), log_lines(failed), e),
            },
    {
        let previous = match SessionState::load(successful, failed) {
            Ok(state) => state,
            Err(e) => return Err(e),
        };
        Ok(
            FootholdInner {
                current: SessionState::new(),
                previous,
                skipped: 0,
                total,
                start_time: now,
                sync_config,
            },
        )
    }

    /// Returns `true` if the given task is successful in either the current or
    /// previous session.
    pub fn is_successful(&self, task: &T) -> (answer: bool)
        ensures
            answer == self@.is_successful(task.spec_name()),
    {
        self.current.is_successful(task) || self.previous.is_successful(task)
    }

    /// Returns `true` if the given task failed in either the current or
    /// previous session.
    pub fn is_failed(&self, task: &T) -> (answer: bool)
        ensures
            answer == self@.is_failed(task.spec_name()),
    {
        self.current.is_failed(task) || self.previous.is_failed(task)
    }

    /// Returns `true` if the given task is marked as failed in this session.
    pub fn is_failed_in_session(&self, task: &T) -> (answer: bool)
        ensures
            answer == self@.current.failed.contains_key(task.spec_name()),
    {
        self.current.is_failed(task)
    }

    /// The line that is to be appended to the log of successful tasks before the
    /// task is marked as successful, or `None` where the task is successful
    /// already and nothing is to be written.
    ///
    /// # Errors
    /// Returns an error if a line is called for and there is none for the task.
    pub fn successful_line(&self, task: &T, success: &S) -> (line: Result<
        Option<String>,
        SessionError,
    >)
        ensures
            match line {
                Ok(None) => self@.is_successful(task.spec_name()),
                Ok(Some(l)) => {
                    &&& !self@.is_successful(task.spec_name())
                    &&& S::line(task.spec_name(), success.content()) == Some(l@)
                    &&& records::<T, S>(l@, task.spec_name(), success.content())
                },
                Err(e) => {
                    &&& e == SessionError::Encode
                    &&& !self@.is_successful(task.spec_name())
                    &&& S::line(task.spec_name(), success.content()) is None
                },
            },
    {
        if self.is_successful(task) {
            return Ok(None);
        }
        match S::encode(task, success) {
            Some(line) => Ok(Some(line)),
            None => Err(SessionError::Encode),
        }
    }

    /// The line that is to be appended to the log of failed tasks, and brought to
    /// disk, before the task is marked as failed.
    ///
    /// # Errors
    /// Returns an error if there is no line for the task.
    pub fn failed_line(&self, task: &T, failure: &F) -> (line: Result<String, SessionError>)
        ensures
            match line {
                Ok(l) => {
                    &&& F::line(task.spec_name(), failure.content()) == Some(l@)
                    &&& records::<T, F>(l@, task.spec_name(), failure.content())
                },
                Err(e) => {
                    &&& e == SessionError::Encode
                    &&& F::line(task.spec_name(), failure.content()) is None
                },
            },
    {
        match F::encode(task, failure) {
            Some(line) => Ok(line),
            None => Err(SessionError::Encode),
        }
    }

    /// Returns `true` if one more mark can be counted toward the next sync.
    pub fn can_mark(&self) -> (room: bool)
        ensures
            room == self.sync().can_count(),
    {
        self.sync_config.has_room()
    }

    /// Marks a task as successful, and tells whether the logs are to be
    /// synchronized now.
    ///
    /// If the task was already successful in a previous session, it is counted
    /// as skipped. A task that is not successful yet is marked only where there is
    /// a line for it.
    ///
    /// # Errors
    /// Returns an error if the system clock stands before the time of the last
    /// sync. The task is marked all the same.
    pub fn mark_successful(&mut self, task: T, success: S) -> (sync: Result<bool, SessionError>)
        requires
            old(self).inv(),
            old(self).sync().can_count(),
            old(self)@.is_successful(task.spec_name()) || S::line(
                task.spec_name(),
                success.content(),
            ) is Some,
        ensures
            final(self).inv(),
            final(self)@ == old(self)@.mark_successful(task.spec_name(), success.content()),
            old(self).sync().steps_to(final(self).sync(), sync),
    {
        self.mark_successful_at(task, success, Timestamp::now())
    }

    /// The same as [`FootholdInner::mark_successful`], with `now` as the current
    /// time.
    pub fn mark_successful_at(&mut self, task: T, success: S, now: Timestamp) -> (sync: Result<
        bool,
        SessionError,
    >)
        requires
            old(self).inv(),
            old(self).sync().can_count(),
            old(self)@.is_successful(task.spec_name()) || S::line(
                task.spec_name(),
                success.content(),
            ) is Some,
        ensures
            final(self).inv(),
            final(self)@ == old(self)@.mark_successful(task.spec_name(), success.content()),
            old(self).sync().answers_at(now, final(self).sync(), sync),
    {
        let ccomp: bool = self.current.is_successful(&task);
        let pcomp: bool = self.previous.is_successful(&task);
        if !ccomp && !pcomp {
            let _ = self.current.mark_successful(task, success);
        } else if pcomp {
            let _ = self.mark_skipped(task);
        }
        self.sync_config.should_sync_at(now)
    }

    /// Marks a task as failed, and tells whether the logs are to be synchronized
    /// now. The task is marked only where there is a line for it.
    ///
    /// # Errors
    /// Returns an error if the system clock stands before the time of the last
    /// sync. The task is marked all the same.
    pub fn mark_failed(&mut self, task: T, failure: F) -> (sync: Result<bool, SessionError>)
        requires
            old(self).inv(),
            old(self).sync().can_count(),
            F::line(task.spec_name(), failure.content()) is Some,
        ensures
            final(self).inv(),
            final(self)@ == old(self)@.mark_failed(task.spec_name(), failure.content()),
            old(self).sync().steps_to(final(self).sync(), sync),
    {
        self.mark_failed_at(task, failure, Timestamp::now())
    }

    /// The same as [`FootholdInner::mark_failed`], with `now` as the current time.
    pub fn mark_failed_at(&mut self, task: T, failure: F, now: Timestamp) -> (sync: Result<
        bool,
        SessionError,
    >)
        requires
            old(self).inv(),
            old(self).sync().can_count(),
            F::line(task.spec_name(), failure.content()) is Some,
        ensures
            final(self).inv(),
            final(self)@ == old(self)@.mark_failed(task.spec_name(), failure.content()),
            old(self).sync().answers_at(now, final(self).sync(), sync),
    {
        let _ = self.current.mark_failed(task, failure);
        self.sync_config.should_sync_at(now)
    }

    /// Marks a task as skipped, as it was successful during previous session.
    pub fn mark_skipped(&mut self, _task: T) -> (done: Result<(), SessionError>)
        ensures
            done is Ok,
            old(self).inv() ==> final(self).inv(),
            final(self)@ == old(self)@.mark_skipped(),
            final(self).sync() == old(self).sync(),
    {
        self.skipped = self.skipped.wrapping_add(1);
        Ok(())
    }

    /// Returns statistics for the current and previous session.
    ///
    /// # Errors
    /// Returns an error if the system clock stands before the start of the
    /// session.
    pub fn stats(&self) -> (stats: Result<Stats, SessionError>)
        ensures
            exists|now: Timestamp| #[trigger] self@.answers_stats_at(now, stats),
    {
        let now: Timestamp = Timestamp::now();
        let stats = self.stats_at(now);
        assert(self@.answers_stats_at(now, stats));
        stats
    }

    /// The same as [`FootholdInner::stats`], with `now` as the current time.
    pub fn stats_at(&self, now: Timestamp) -> (stats: Result<Stats, SessionError>)
        ensures
            self@.answers_stats_at(now, stats),
    {
        let elapsed: u128 = match now.nanos_since(&self.start_time) {
            Some(nanos) => nanos,
            None => return Err(SessionError::Clock),
        };
        Ok(
            Stats {
                total: self.total,
                session_successful: self.current.successful_count(),
                session_failed: self.current.failed_count(),
                session_skipped: self.skipped,
                previous_session_successful: self.previous.successful_count(),
                previous_session_failed: self.previous.failed_count(),
                elapsed,
            },
        )
    }
}

} // verus!
