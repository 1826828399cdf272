//! When the logs of a session are to be synchronized to disk.
use crate::clock::{Timestamp, NANOS_PER_SEC};
use crate::error::SessionError;
use vstd::prelude::*;

verus! {

/// Configuration options for synchronizing batch processing sessions.
#[derive(Debug, Clone, Copy, PartialEq, Eq, Structural)]
pub struct SyncConfig {
    /// Optional duration between two sync operations in seconds.
    pub interval: Option<u64>,
    /// Number of operations between two sync operations.
    pub operation_count: Option<u64>,
    /// Whether sync is issued for each operation.
    pub each_operation: bool,
    /// System time when last time sync was issued.
    pub last_sync: Timestamp,
    /// Operations issued since last sync.
    pub ops_since_sync: u64,
}

/// Whether an option of a configuration sets no limit.
pub open spec fn none_or_zero(option: Option<u64>) -> bool {
    option matches Some(n) ==> n == 0
}

impl SyncConfig {
    /// The configuration for these options, at the time `now`.
    pub open spec fn created(
        interval: Option<u64>,
        operation_count: Option<u64>,
        now: Timestamp,
    ) -> SyncConfig {
        SyncConfig {
            interval,
            operation_count: match operation_count {
                Some(c) => Some(if c == 0 { 1 } else { c }),
                None => if interval is None { Some(1) } else { None },
            },
            each_operation: none_or_zero(interval) && none_or_zero(operation_count),
            last_sync: now,
            ops_since_sync: 0,
        }
    }

    /// Whether the count of operations alone calls for a sync.
    pub open spec fn due_by_count(self) -> bool {
        ||| self.each_operation
        ||| self.operation_count matches Some(c) && self.ops_since_sync >= c
    }

    /// Whether the time that has passed at `now` alone calls for a sync.
    pub open spec fn due_by_time(self, now: Timestamp) -> bool {
        self.interval matches Some(t) && self.last_sync.whole_secs_until(now) >= t
    }

    /// Whether an operation at the time `now` is to be followed by a sync.
    pub open spec fn due(self, now: Timestamp) -> bool {
        self.due_by_count() || self.due_by_time(now)
    }

    /// Whether `now` can be held against the time of the last sync.
    pub open spec fn accepts(self, now: Timestamp) -> bool {
        self.interval is Some ==> self.last_sync.position() <= now.position()
    }

    /// Whether one more operation can be counted.
    pub open spec fn can_count(self) -> bool {
        self.due_by_count() || self.ops_since_sync < u64::MAX
    }

    /// The configuration after an operation at the time `now`.
    pub open spec fn after(self, now: Timestamp) -> SyncConfig {
        if self.due(now) {
            SyncConfig { last_sync: now, ops_since_sync: 0, ..self }
        } else {
            SyncConfig { ops_since_sync: (self.ops_since_sync + 1) as u64, ..self }
        }
    }

    /// Whether an operation at the time `now` turns `self` into `next` and is
    /// answered with `answer`: an error where `now` lies before the last sync and
    /// an interval is set, and else whether a sync is due.
    pub open spec fn answers_at(
        self,
        now: Timestamp,
        next: SyncConfig,
        answer: Result<bool, SessionError>,
    ) -> bool {
        match answer {
            Ok(sync) => self.accepts(now) && sync == self.due(now) && next == self.after(now),
            Err(e) => e == SessionError::Clock && !self.accepts(now) && next == self,
        }
    }

    /// Whether an operation at some time that the clock showed turns `self` into
    /// `next` and is answered with `answer`.
    pub open spec fn steps_to(self, next: SyncConfig, answer: Result<bool, SessionError>) -> bool {
        exists|now: Timestamp| #[trigger] self.answers_at(now, next, answer)
    }

    /// `interval` is the duration between two sync operations in seconds.
    /// `operation_count` is the number of operations between two sync
    /// operations. If both are none or have zero value, sync is issued for each
    /// operation.
    pub fn create(interval: Option<u64>, operation_count: Option<u64>) -> (config: SyncConfig)
        ensures
            config == SyncConfig::created(interval, operation_count, config.last_sync),
    {
        SyncConfig::create_at(interval, operation_count, Timestamp::now())
    }

    /// The same as [`SyncConfig::create`], with `now` as the current time.
    pub fn create_at(
        interval: Option<u64>,
        operation_count: Option<u64>,
        now: Timestamp,
    ) -> (config: SyncConfig)
        ensures
            config == SyncConfig::created(interval, operation_count, now),
    {
        let no_interval: bool = match interval {
            Some(t) => t == 0,
            None => true,
        };
        let no_count: bool = match operation_count {
            Some(c) => c == 0,
            None => true,
        };
        let mut count: Option<u64> = operation_count;
        if interval.is_none() && count.is_none() {
            count = Some(1);
        }
        if let Some(c) = count {
            if c == 0 {
                count = Some(1);
            }
        }
        SyncConfig {
            interval,
            operation_count: count,
            each_operation: no_interval && no_count,
            last_sync: now,
            ops_since_sync: 0,
        }
    }

    /// Returns `true` if one more operation can be counted. Only a configuration
    /// with an interval and without an operation count can run out of numbers.
    pub fn has_room(&self) -> (room: bool)
        ensures
            room == self.can_count(),
    {
        self.each_operation || self.ops_since_sync < u64::MAX || match self.operation_count {
            Some(c) => self.ops_since_sync >= c,
            None => false,
        }
    }

    /// Counts one operation and tells whether it is to be followed by a sync.
    ///
    /// Fails where an interval is set and the system clock stands before the time
    /// of the last sync.
    pub fn should_sync(&mut self) -> (answer: Result<bool, SessionError>)
        requires
            old(self).can_count(),
        ensures
            old(self).steps_to(*final(self), answer),
    {
        let now: Timestamp = Timestamp::now();
        let answer = self.should_sync_at(now);
        assert(old(self).answers_at(now, *self, answer));
        answer
    }

    /// The same as [`SyncConfig::should_sync`], with `now` as the current time.
    pub fn should_sync_at(&mut self, now: Timestamp) -> (answer: Result<bool, SessionError>)
        requires
            old(self).can_count(),
        ensures
            old(self).answers_at(now, *final(self), answer),
    {
        let sync_from_count: bool = self.each_operation || match self.operation_count {
            Some(c) => self.ops_since_sync >= c,
            None => false,
        };
        let sync_from_timeout: bool = match self.interval {
            Some(t) => match now.nanos_since(&self.last_sync) {
                Some(elapsed) => elapsed / NANOS_PER_SEC >= t as u128,
                None => return Err(SessionError::Clock),
            },
            None => false,
        };
        if sync_from_count || sync_from_timeout {
            self.last_sync = now;
            self.ops_since_sync = 0;
            return Ok(true);
        }
        self.ops_since_sync += 1;
        Ok(false)
    }
}

/// The configuration after operations at these times, one after the other.
pub open spec fn after_all(config: SyncConfig, times: Seq<Timestamp>) -> SyncConfig
    decreases times.len(),
{
    if times.len() == 0 {
        config
    } else {
        after_all(config, times.drop_last()).after(times.last())
    }
}

/// If the interval and the operation count are both none or zero, sync is issued
/// for each operation, whatever came before it.
pub proof fn law_sync_for_each_operation(
    interval: Option<u64>,
    operation_count: Option<u64>,
    created: Timestamp,
    times: Seq<Timestamp>,
    now: Timestamp,
)
    requires
        none_or_zero(interval),
        none_or_zero(operation_count),
    ensures
        after_all(SyncConfig::created(interval, operation_count, created), times).due(now),
{
    let config = SyncConfig::created(interval, operation_count, created);
    lemma_options_kept(config, times);
}

/// Operations leave the options of a configuration as they are.
proof fn lemma_options_kept(config: SyncConfig, times: Seq<Timestamp>)
    ensures
        after_all(config, times).interval == config.interval,
        after_all(config, times).operation_count == config.operation_count,
        after_all(config, times).each_operation == config.each_operation,
    decreases times.len(),
{
    if times.len() > 0 {
        lemma_options_kept(config, times.drop_last());
    }
}

/// As long as no interval has passed, exactly `count` operations lie between a sync
/// and the next: right after a sync, the operations are not followed by one until
/// `count` of them have been issued, and the next one is.
pub proof fn law_operations_between_syncs(
    config: SyncConfig,
    count: u64,
    times: Seq<Timestamp>,
    now: Timestamp,
)
    requires
        config.operation_count == Some(count),
        config.interval matches Some(t) ==> {
            &&& now.position() - config.last_sync.position() < t * 1_000_000_000
            &&& forall|i: int|
                0 <= i < times.len() ==> (#[trigger] times[i]).position()
                    - config.last_sync.position() < t * 1_000_000_000
        },
        !config.each_operation,
        config.ops_since_sync == 0,
        times.len() <= count,
    ensures
        after_all(config, times).due(now) <==> times.len() == count,
        after_all(config, times).ops_since_sync == times.len(),
        after_all(config, times).last_sync == config.last_sync,
    decreases times.len(),
{
    lemma_options_kept(config, times);
    if times.len() > 0 {
        assert(times.last() == times[times.len() - 1]);
        assert forall|i: int| 0 <= i < times.drop_last().len() implies #[trigger] times.drop_last()[i]
            == times[i] by {}
        law_operations_between_syncs(config, count, times.drop_last(), times.last());
    }
}

/// An operation is followed by a sync once the interval has passed since the last
/// sync, and without a count no earlier.
pub proof fn law_interval_between_syncs(config: SyncConfig, interval: u64, now: Timestamp)
    requires
        config.interval == Some(interval),
    ensures
        now.position() - config.last_sync.position() >= interval * NANOS_PER_SEC ==> config.due(
            now,
        ),
        config.operation_count is None && !config.each_operation ==> (config.due(now)
            <==> now.position() - config.last_sync.position() >= interval * NANOS_PER_SEC),
{
}

/// A configuration that is not left to an interval of some length alone can count
/// operations without end.
pub proof fn law_count_bounded(
    interval: Option<u64>,
    operation_count: Option<u64>,
    created: Timestamp,
    times: Seq<Timestamp>,
)
    requires
        none_or_zero(interval) || operation_count is Some,
    ensures
        after_all(SyncConfig::created(interval, operation_count, created), times).can_count(),
{
    lemma_options_kept(SyncConfig::created(interval, operation_count, created), times);
}

/// An operation is followed by a sync if and only if one of three things calls for
/// it, none of which regards the others: each operation is to be, as many
/// operations have been counted since the last sync as are set, or as many seconds
/// have passed since it.
pub proof fn law_sync_by_count_or_interval(config: SyncConfig, now: Timestamp)
    ensures
        config.each_operation ==> config.due(now),
        config.operation_count matches Some(c) && config.ops_since_sync >= c ==> config.due(now),
        config.interval matches Some(t) && now.position() - config.last_sync.position() >= t
            * 1_000_000_000 ==> config.due(now),
        config.due(now) ==> {
            ||| config.each_operation
            ||| config.operation_count matches Some(c) && config.ops_since_sync >= c
            ||| config.interval matches Some(t) && now.position() - config.last_sync.position()
                >= t * 1_000_000_000
        },
        config.due_by_count() ==> config.due(now),
        config.due_by_count() <==> config.each_operation || (config.operation_count matches Some(c)
            && config.ops_since_sync >= c),
{
}

/// What the options of a configuration come to: a count is kept, a count of zero
/// is one, and each operation is followed by a sync exactly where neither an
/// interval nor a count of at least one is set. Nothing has been counted yet, and
/// the interval starts to run.
pub proof fn law_options_taken(
    interval: Option<u64>,
    operation_count: Option<u64>,
    now: Timestamp,
)
    ensures
        ({
            let config = SyncConfig::created(interval, operation_count, now);
            &&& config.interval == interval
            &&& config.last_sync == now
            &&& config.ops_since_sync == 0
            &&& operation_count matches Some(c) ==> config.operation_count == Some(
                if c > 0 {
                    c
                } else {
                    1
                },
            )
            &&& operation_count is None && interval is Some ==> config.operation_count is None
            &&& operation_count is None && interval is None ==> config.operation_count == Some(1u64)
            &&& config.each_operation <==> !(interval matches Some(t) && t > 0) && !(
            operation_count matches Some(c) && c > 0)
        }),
{
}

/// Whatever is answered to an operation at the time `now`: an error exactly where
/// an interval is set and `now` lies before the last sync, with nothing changed;
/// else the truth about the sync. A sync starts the count and the interval over,
/// and an operation without one is counted. The options stay.
pub proof fn law_operation_answered(
    config: SyncConfig,
    now: Timestamp,
    next: SyncConfig,
    answer: Result<bool, SessionError>,
)
    requires
        config.answers_at(now, next, answer),
    ensures
        answer is Err <==> config.interval is Some && now.position() < config.last_sync.position(),
        answer matches Err(e) ==> e == SessionError::Clock && next == config,
        answer matches Ok(sync) ==> (sync <==> {
            ||| config.each_operation
            ||| config.operation_count matches Some(c) && config.ops_since_sync >= c
            ||| config.interval matches Some(t) && now.position() - config.last_sync.position()
                >= t * 1_000_000_000
        }),
        answer == Ok::<bool, SessionError>(true) ==> next.last_sync == now && next.ops_since_sync
            == 0,
        answer == Ok::<bool, SessionError>(false) ==> next.last_sync == config.last_sync,
        answer == Ok::<bool, SessionError>(false) && config.ops_since_sync < u64::MAX
            ==> next.ops_since_sync == config.ops_since_sync + 1,
        next.interval == config.interval,
        next.operation_count == config.operation_count,
        next.each_operation == config.each_operation,
{
}

/// Some answer is owed to every operation, and no two.
pub proof fn law_one_answer(config: SyncConfig, now: Timestamp)
    ensures
        exists|next: SyncConfig, answer: Result<bool, SessionError>| #[trigger]
            config.answers_at(now, next, answer),
        forall|
            next: SyncConfig,
            answer: Result<bool, SessionError>,
            other_next: SyncConfig,
            other: Result<bool, SessionError>,
        |
            #[trigger] config.answers_at(now, next, answer) && #[trigger] config.answers_at(
                now,
                other_next,
                other,
            ) ==> next == other_next && answer == other,
{
    if config.accepts(now) {
        assert(config.answers_at(now, config.after(now), Ok(config.due(now))));
    } else {
        assert(config.answers_at(now, config, Err(SessionError::Clock)));
    }
}

/// What holds of an operation whatever time the clock showed: it fails only where an
/// interval is set, a count that has been reached brings a sync, nothing but an
/// interval brings one otherwise, and the count goes on or starts over.
pub proof fn law_operation_at_some_time(
    config: SyncConfig,
    next: SyncConfig,
    answer: Result<bool, SessionError>,
)
    requires
        config.steps_to(next, answer),
    ensures
        answer is Err ==> config.interval is Some && answer == Err::<bool, SessionError>(
            SessionError::Clock,
        ) && next == config,
        answer is Ok && (config.each_operation || (config.operation_count matches Some(c)
            && config.ops_since_sync >= c)) ==> answer == Ok::<bool, SessionError>(true),
        answer == Ok::<bool, SessionError>(true) && config.interval is None
            ==> config.each_operation || (config.operation_count matches Some(c)
            && config.ops_since_sync >= c),
        answer == Ok::<bool, SessionError>(true) ==> next.ops_since_sync == 0 && (
        config.interval is Some ==> config.last_sync.position() <= next.last_sync.position()),
        answer == Ok::<bool, SessionError>(false) ==> next.last_sync == config.last_sync,
        answer == Ok::<bool, SessionError>(false) && config.ops_since_sync < u64::MAX
            ==> next.ops_since_sync == config.ops_since_sync + 1,
        next.interval == config.interval,
        next.operation_count == config.operation_count,
        next.each_operation == config.each_operation,
{
    let now = choose|now: Timestamp| #[trigger] config.answers_at(now, next, answer);
    law_operation_answered(config, now, next, answer);
}

/// An operation can be counted unless the count stands at its largest number and
/// no sync is due by it.
pub proof fn law_what_can_count(config: SyncConfig)
    ensures
        config.ops_since_sync < u64::MAX ==> config.can_count(),
        config.ops_since_sync == u64::MAX ==> (config.can_count() <==> config.each_operation
            || config.operation_count is Some),
{
}

} // verus!
