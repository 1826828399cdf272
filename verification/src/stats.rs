//! The progress of a session in numbers.
use crate::clock::NANOS_PER_SEC;
use vstd::prelude::*;
use vstd::string::*;

verus! {

/// Provides statistics about the progress and results of batch processing
/// sessions.
///
/// The `Stats` struct contains counts for successful, failed, and skipped
/// tasks, for both the current and previous sessions, and the time that the
/// current session has taken.
#[derive(Debug, Clone, Copy, PartialEq, Eq, Structural)]
pub struct Stats {
    /// Total number of tasks in the session.
    pub total: usize,
    /// Number of tasks successful in the current session.
    pub session_successful: usize,
    /// Number of tasks failed in the current session.
    pub session_failed: usize,
    /// Number of tasks skipped in the current session.
    pub session_skipped: usize,
    /// Number of tasks successful in the previous session.
    pub previous_session_successful: usize,
    /// Number of tasks failed in the previous session.
    pub previous_session_failed: usize,
    /// Elapsed time since the session started, in nanoseconds.
    pub elapsed: u128,
}

impl Default for Stats {
    /// Statistics in which nothing has happened.
    fn default() -> (stats: Self)
        ensures
            stats == (Stats {
                total: 0,
                session_successful: 0,
                session_failed: 0,
                session_skipped: 0,
                previous_session_successful: 0,
                previous_session_failed: 0,
                elapsed: 0,
            }),
    {
        Stats {
            total: 0,
            session_successful: 0,
            session_failed: 0,
            session_skipped: 0,
            previous_session_successful: 0,
            previous_session_failed: 0,
            elapsed: 0,
        }
    }
}

/// The character for a decimal digit.
pub open spec fn digit(d: nat) -> char {
    (d + 48) as char
}

/// A number in decimal digits, without leading zeros.
pub open spec fn decimal(n: nat) -> Seq<char>
    decreases n,
{
    if n < 10 {
        seq![digit(n)]
    } else {
        decimal(n / 10).push(digit(n % 10))
    }
}

/// Writes a number in decimal digits.
fn decimal_text(n: usize) -> (text: String)
    ensures
        text@ == decimal(n as nat),
    decreases n,
{
    let last: char = ((n % 10) as u8 + 48) as char;
    let mut text = if n < 10 {
        String::new()
    } else {
        decimal_text(n / 10)
    };
    text.push(last);
    assert(text@ =~= decimal(n as nat));
    text
}

/// The text of a [`std::time::Duration`] of so many seconds and nanoseconds in the
/// format `{:.2?}`.
pub uninterp spec fn duration_text(secs: u64, nanos: u32) -> Seq<char>;

/// Formats a [`std::time::Duration`] with `{:.2?}`.
///
/// Claimed of it: the text depends on the seconds and the nanoseconds alone. Which
/// text it is, is left unsaid.
#[verifier::external_body]
fn format_duration(secs: u64, nanos: u32) -> (text: String)
    requires
        nanos < NANOS_PER_SEC,
    ensures
        text@ == duration_text(secs, nanos),
{
    format!("{:.2?}", std::time::Duration::new(secs, nanos))
}

impl Stats {
    /// Whether the elapsed time is one that [`std::time::Duration`] can hold.
    pub open spec fn holds_duration(self) -> bool {
        self.elapsed / NANOS_PER_SEC <= u64::MAX
    }

    /// The elapsed time as text.
    pub open spec fn elapsed_text(self) -> Seq<char> {
        duration_text(
            (self.elapsed / NANOS_PER_SEC) as u64,
            (self.elapsed % NANOS_PER_SEC) as u32,
        )
    }

    /// The statistics as one line of text.
    pub open spec fn spec_render(self, elapsed: Seq<char>, rate: Seq<char>) -> Seq<char> {
        "Total: "@ + decimal(self.total as nat) + ", Successful: "@ + decimal(
            self.session_successful as nat,
        ) + ", Failed: "@ + decimal(self.session_failed as nat) + ", Skipped: "@ + decimal(
            self.session_skipped as nat,
        ) + ", Elapsed: "@ + elapsed + ", Rate: "@ + rate
            + " tasks/sec. In previous session: successful: "@ + decimal(
            self.previous_session_successful as nat,
        ) + ", failed: "@ + decimal(self.previous_session_failed as nat)
    }

    /// Returns `true` if the elapsed time is one that [`std::time::Duration`] can
    /// hold, so that it can be written.
    pub fn can_render(&self) -> (answer: bool)
        ensures
            answer == self.holds_duration(),
    {
        self.elapsed / NANOS_PER_SEC <= u64::MAX as u128
    }

    /// Writes the statistics as one line of text, given the text for the completion
    /// rate (tasks per second).
    pub fn render(&self, rate: &str) -> (text: String)
        requires
            self.holds_duration(),
        ensures
            text@ == self.spec_render(self.elapsed_text(), rate@),
    {
        let secs: u64 = (self.elapsed / NANOS_PER_SEC) as u64;
        let nanos: u32 = (self.elapsed % NANOS_PER_SEC) as u32;
        self.render_with(format_duration(secs, nanos).as_str(), rate)
    }

    /// The same as [`Stats::render`], with the text for the elapsed time given too.
    pub fn render_with(&self, elapsed: &str, rate: &str) -> (text: String)
        ensures
            text@ == self.spec_render(elapsed@, rate@),
    {
        let mut text: String = "Total: ".to_owned();
        text.append(decimal_text(self.total).as_str());
        text.append(", Successful: ");
        text.append(decimal_text(self.session_successful).as_str());
        text.append(", Failed: ");
        text.append(decimal_text(self.session_failed).as_str());
        text.append(", Skipped: ");
        text.append(decimal_text(self.session_skipped).as_str());
        text.append(", Elapsed: ");
        text.append(elapsed);
        text.append(", Rate: ");
        text.append(rate);
        text.append(" tasks/sec. In previous session: successful: ");
        text.append(decimal_text(self.previous_session_successful).as_str());
        text.append(", failed: ");
        text.append(decimal_text(self.previous_session_failed).as_str());
        text
    }
}

/// The number that a row of decimal digits stands for.
pub open spec fn number(digits: Seq<char>) -> int
    decreases digits.len(),
{
    if digits.len() == 0 {
        0
    } else {
        10 * number(digits.drop_last()) + (digits.last() as int - '0' as int)
    }
}

/// A number is written as a row of decimal digits that stands for it, without a
/// leading zero unless it is zero itself.
pub proof fn law_decimal_digits(n: nat)
    ensures
        number(decimal(n)) == n,
        forall|i: int|
            0 <= i < decimal(n).len() ==> '0' as int <= (#[trigger] decimal(n)[i]) as int
                <= '9' as int,
        decimal(n).len() > 0,
        decimal(n).len() > 1 ==> decimal(n)[0] != '0',
    decreases n,
{
    if n < 10 {
        assert(decimal(n).drop_last() =~= Seq::<char>::empty());
        assert(number(decimal(n).drop_last()) == 0);
        assert(decimal(n).last() as int == n + 48);
    } else {
        let before = decimal(n / 10);
        law_decimal_digits(n / 10);
        assert(decimal(n).drop_last() =~= before);
        assert(decimal(n).last() as int == n % 10 + 48);
        assert(decimal(n)[0] == before[0]);
        if before.len() == 1 {
            assert(before.drop_last() =~= Seq::<char>::empty());
            assert(number(before.drop_last()) == 0);
            assert(before[0] == before.last());
        }
    }
}

/// The line of statistics tells each number behind its label, in full and in this
/// order, with the two texts in their places.
pub proof fn law_labelled_numbers(stats: Stats, elapsed: Seq<char>, rate: Seq<char>)
    ensures
        stats.spec_render(elapsed, rate) == seq![
            "Total: "@,
            decimal(stats.total as nat),
            ", Successful: "@,
            decimal(stats.session_successful as nat),
            ", Failed: "@,
            decimal(stats.session_failed as nat),
            ", Skipped: "@,
            decimal(stats.session_skipped as nat),
            ", Elapsed: "@,
            elapsed,
            ", Rate: "@,
            rate,
            " tasks/sec. In previous session: successful: "@,
            decimal(stats.previous_session_successful as nat),
            ", failed: "@,
            decimal(stats.previous_session_failed as nat),
        ].fold_left(Seq::<char>::empty(), |line: Seq<char>, piece: Seq<char>| line + piece),
{
    let join = |line: Seq<char>, piece: Seq<char>| line + piece;
    let pieces = seq![
        "Total: "@,
        decimal(stats.total as nat),
        ", Successful: "@,
        decimal(stats.session_successful as nat),
        ", Failed: "@,
        decimal(stats.session_failed as nat),
        ", Skipped: "@,
        decimal(stats.session_skipped as nat),
        ", Elapsed: "@,
        elapsed,
        ", Rate: "@,
        rate,
        " tasks/sec. In previous session: successful: "@,
        decimal(stats.previous_session_successful as nat),
        ", failed: "@,
        decimal(stats.previous_session_failed as nat),
    ];
    lemma_joined(pieces, 16);
    assert(pieces.take(16) =~= pieces);
    assert(Seq::<char>::empty() + pieces[0] =~= pieces[0]);
    reveal_with_fuel(joined, 17);
    assert(stats.spec_render(elapsed, rate) =~= joined(pieces, 16));
}

/// The first `n` pieces one after the other.
spec fn joined(pieces: Seq<Seq<char>>, n: nat) -> Seq<char>
    decreases n,
{
    if n == 0 {
        Seq::empty()
    } else {
        joined(pieces, (n - 1) as nat) + pieces[n - 1]
    }
}

proof fn lemma_joined(pieces: Seq<Seq<char>>, n: nat)
    requires
        n <= pieces.len(),
    ensures
        pieces.take(n as int).fold_left(
            Seq::<char>::empty(),
            |line: Seq<char>, piece: Seq<char>| line + piece,
        ) == joined(pieces, n),
    decreases n,
{
    let upto = pieces.take(n as int);
    reveal(Seq::fold_left);
    if n > 0 {
        lemma_joined(pieces, (n - 1) as nat);
        assert(upto.drop_last() =~= pieces.take(n - 1));
        assert(upto.last() == pieces[n - 1]);
    }
}

/// The elapsed time can be written if its whole seconds can be counted, and is
/// written as the duration of just so many seconds and nanoseconds.
pub proof fn law_elapsed_time_split(stats: Stats, secs: u64, nanos: u32)
    requires
        nanos < 1_000_000_000,
    ensures
        stats.elapsed == secs * 1_000_000_000 + nanos ==> stats.elapsed_text() == duration_text(
            secs,
            nanos,
        ) && stats.holds_duration(),
        stats.holds_duration() <==> stats.elapsed < 0x1_0000_0000_0000_0000 * 1_000_000_000,
{
    if stats.elapsed == secs * 1_000_000_000 + nanos {
        assert(stats.elapsed / NANOS_PER_SEC == secs);
        assert(stats.elapsed % NANOS_PER_SEC == nanos);
    }
}

} // verus!
