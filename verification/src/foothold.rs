//! The entry point for keeping track of a session.
use crate::clock::Timestamp;
use crate::error::SessionError;
use crate::inner::{FootholdInner, FootholdView};
use crate::record::{records, Outcome, Task};
use crate::state::{log_lines, readable, rejected_with};
use crate::stats::Stats;
use crate::sync::SyncConfig;
use vstd::prelude::*;

verus! {

/// Main entry point for managing session state for batch processing tasks.
///
/// # Type Parameters
/// - `T`: The type representing a task.
/// - `S`: The type representing a successful result for a task.
/// - `F`: The type representing a failure result for a task.
///
/// This struct provides an API for marking tasks as successful or failed, for
/// learning what is to be written to the logs of the session, and for retrieving
/// session statistics.
#[verifier::reject_recursive_types(T)]
#[verifier::reject_recursive_types(S)]
#[verifier::reject_recursive_types(F)]
pub struct Foothold<T: Task, S: Outcome<T>, F: Outcome<T>> {
    inner: FootholdInner<T, S, F>,
}

impl<T: Task, S: Outcome<T>, F: Outcome<T>> View for Foothold<T, S, F> {
    type V = FootholdView;

    closed spec fn view(&self) -> FootholdView {
        self.inner@
    }
}

impl<T: Task, S: Outcome<T>, F: Outcome<T>> Foothold<T, S, F> {
    /// Whether the session holds together.
    pub closed spec fn inv(&self) -> bool {
        self.inner.inv()
    }

    /// The configuration that decides when the logs are synchronized.
    pub closed spec fn sync(&self) -> SyncConfig {
        self.inner.sync()
    }

    /// A session that holds together is a valid one, and there is a line for each
    /// task that was marked in it.
    pub proof fn lemma_valid(&self)
        requires
            self.inv(),
        ensures
            self@.valid(),
            self@.has_lines::<T, S, F>(),
    {
        self.inner.lemma_valid();
    }

    /// Creates a new `Foothold` instance that takes over the tasks of previous
    /// sessions, with one operation between two syncs.
    ///
    /// # Arguments
    /// * `successful` - Text of the log of successful tasks, if there is one
    /// * `failed` - Text of the log of failed tasks, if there is one
    /// * `total` - Total number of tasks to process
    ///
    /// # Errors
    /// Returns an error if a line of either log cannot be read.
    pub fn new(successful: Option<&str>, failed: Option<&str>, total: usize) -> (session: Result<
        Self,
        SessionError,
    >)
        ensures
            match session {
                Ok(s) => {
                    &&& readable::<T, S>(log_lines(successful))
                    &&& readable::<T, F>(log_lines(failed))
                    &&& s.inv()
                    &&& s.sync() == SyncConfig::created(None, Some(1), s.sync().last_sync)
                    &&& s@ == FootholdView::started::<T, S, F>(
                        log_lines(successful),
                        log_lines(failed),
                        total,
                        s@.start_time,
                    )
                },
                Err(e) => rejected_with::<T, S, F>(log_lines(successful), log_lines(failed), e),
            },
    {
        let sync_config = SyncConfig::create(None, Some(1));
        Foothold::with_sync(successful, failed, total, sync_config)
    }

    /// Creates a new `Foothold` instance with a custom sync configuration.
    ///
    /// # Arguments
    /// * `successful` - Text of the log of successful tasks, if there is one
    /// * `failed` - Text of the log of failed tasks, if there is one
    /// * `total` - Total number of tasks to process
    /// * `sync_config` - Configuration for synchronizing the logs to disk
    ///
    /// # Errors
    /// Returns an error if a line of either log cannot be read.
    pub fn with_sync(
        successful: Option<&str>,
        failed: Option<&str>,
        total: usize,
        sync_config: SyncConfig,
    ) -> (session: Result<Self, SessionError>)
        ensures
            match session {
                Ok(s) => {
                    &&& readable::<T, S>(log_lines(successful))
                    &&& readable::<T, F>(log_lines(failed))
                    &&& s.inv()
                    &&& s.sync() == sync_config
                    &&& s@ == FootholdView::started::<T, S, F>(
                        log_lines(successful),
                        log_lines(failed),
                        total,
                        s@.start_time,
                    )
                },
                Err(e) => rejected_with::<T, S, F>(log_lines(successful), log_lines(failed), e),
            },
    {
        match FootholdInner::new(successful, failed, total, sync_config) {
            Ok(inner) => Ok(Foothold { inner }),
            Err(e) => Err(e),
        }
    }

    /// Returns `true` if the given task is successful in either the current or
    /// previous session.
    pub fn is_successful(&self, task: &T) -> (answer: bool)
        ensures
            answer == self@.is_successful(task.spec_name()),
    {
        self.inner.is_successful(task)
    }

    /// Returns `true` if the given task is marked as failed in this session.
    pub fn is_failed(&self, task: &T) -> (answer: bool)
        ensures
            answer == self@.current.failed.contains_key(task.spec_name()),
    {
        self.inner.is_failed_in_session(task)
    }

    /// The line that is to be appended to the log of successful tasks before the
    /// task is marked as successful, or `None` where the task is successful
    /// already and nothing is to be written.
    ///
    /// # Errors
    /// Returns an error if a line is called for and there is none for the task.
    pub fn successful_line(&self, task: &T, success: &S) -> (line: Result<
        Option<String>,
        SessionError,
    >)
        ensures
            match line {
                Ok(None) => self@.is_successful(task.spec_name()),
                Ok(Some(l)) => {
                    &&& !self@.is_successful(task.spec_name())
                    &&& S::line(task.spec_name(), success.content()) == Some(l@)
                    &&& records::<T, S>(l@, task.spec_name(), success.content())
                },
                Err(e) => {
                    &&& e == SessionError::Encode
                    &&& !self@.is_successful(task.spec_name())
                    &&& S::line(task.spec_name(), success.content()) is None
                },
            },
    {
        self.inner.successful_line(task, success)
    }

    /// The line that is to be appended to the log of failed tasks, and brought to
    /// disk, before the task is marked as failed.
    ///
    /// # Errors
    /// Returns an error if there is no line for the task.
    pub fn failed_line(&self, task: &T, failure: &F) -> (line: Result<String, SessionError>)
        ensures
            match line {
                Ok(l) => {
                    &&& F::line(task.spec_name(), failure.content()) == Some(l@)
                    &&& records::<T, F>(l@, task.spec_name(), failure.content())
                },
                Err(e) => {
                    &&& e == SessionError::Encode
                    &&& F::line(task.spec_name(), failure.content()) is None
                },
            },
    {
        self.inner.failed_line(task, failure)
    }

    /// Returns `true` if one more mark can be counted toward the next sync.
    pub fn can_mark(&self) -> (room: bool)
        ensures
            room == self.sync().can_count(),
    {
        self.inner.can_mark()
    }

    /// Marks a task as successful, and tells whether the logs are to be
    /// synchronized now.
    ///
    /// If the task was already successful in a previous session, it is counted
    /// as skipped. A task that is not successful yet is marked only where there is
    /// a line for it.
    ///
    /// # Errors
    /// Returns an error if the system clock stands before the time of the last
    /// sync. The task is marked all the same.
    pub fn mark_successful(&mut self, task: T, success: S) -> (sync: Result<bool, SessionError>)
        requires
            old(self).inv(),
            old(self).sync().can_count(),
            old(self)@.is_successful(task.spec_name()) || S::line(
                task.spec_name(),
                success.content(),
            ) is Some,
        ensures
            final(self).inv(),
            final(self)@ == old(self)@.mark_successful(task.spec_name(), success.content()),
            old(self).sync().steps_to(final(self).sync(), sync),
    {
        self.inner.mark_successful(task, success)
    }

    /// The same as [`Foothold::mark_successful`], with `now` as the current time.
    pub fn mark_successful_at(&mut self, task: T, success: S, now: Timestamp) -> (sync: Result<
        bool,
        SessionError,
    >)
        requires
            old(self).inv(),
            old(self).sync().can_count(),
            old(self)@.is_successful(task.spec_name()) || S::line(
                task.spec_name(),
                success.content(),
            ) is Some,
        ensures
            final(self).inv(),
            final(self)@ == old(self)@.mark_successful(task.spec_name(), success.content()),
            old(self).sync().answers_at(now, final(self).sync(), sync),
    {
        self.inner.mark_successful_at(task, success, now)
    }

    /// Marks a task as failed, and tells whether the logs are to be synchronized
    /// now. The task is marked only where there is a line for it.
    ///
    /// # Errors
    /// Returns an error if the system clock stands before the time of the last
    /// sync. The task is marked all the same.
    pub fn mark_failed(&mut self, task: T, failure: F) -> (sync: Result<bool, SessionError>)
        requires
            old(self).inv(),
            old(self).sync().can_count(),
            F::line(task.spec_name(), failure.content()) is Some,
        ensures
            final(self).inv(),
            final(self)@ == old(self)@.mark_failed(task.spec_name(), failure.content()),
            old(self).sync().steps_to(final(self).sync(), sync),
    {
        self.inner.mark_failed(task, failure)
    }

    /// The same as [`Foothold::mark_failed`], with `now` as the current time.
    pub fn mark_failed_at(&mut self, task: T, failure: F, now: Timestamp) -> (sync: Result<
        bool,
        SessionError,
    >)
        requires
            old(self).inv(),
            old(self).sync().can_count(),
            F::line(task.spec_name(), failure.content()) is Some,
        ensures
            final(self).inv(),
            final(self)@ == old(self)@.mark_failed(task.spec_name(), failure.content()),
            old(self).sync().answers_at(now, final(self).sync(), sync),
    {
        self.inner.mark_failed_at(task, failure, now)
    }

    /// Marks a task as skipped, as it was successful during previous session.
    pub fn mark_skipped(&mut self, task: T) -> (done: Result<(), SessionError>)
        ensures
            done is Ok,
            old(self).inv() ==> final(self).inv(),
            final(self)@ == old(self)@.mark_skipped(),
            final(self).sync() == old(self).sync(),
    {
        self.inner.mark_skipped(task)
    }

    /// Returns statistics for the current and previous session.
    ///
    /// # Errors
    /// Returns an error if the system clock stands before the start of the
    /// session.
    pub fn stats(&self) -> (stats: Result<Stats, SessionError>)
        ensures
            exists|now: Timestamp| #[trigger] self@.answers_stats_at(now, stats),
    {
        let now: Timestamp = Timestamp::now();
        let stats = self.stats_at(now);
        assert(self@.answers_stats_at(now, stats));
        stats
    }

    /// The same as [`Foothold::stats`], with `now` as the current time.
    pub fn stats_at(&self, now: Timestamp) -> (stats: Result<Stats, SessionError>)
        ensures
            self@.answers_stats_at(now, stats),
    {
        self.inner.stats_at(now)
    }
}

} // verus!
