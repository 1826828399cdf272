//! Foothold: a session state management crate for tracking successful, failed,
//! and skipped tasks.
//!
//! A [`Foothold`] keeps track of which tasks of a batch have been successful and
//! which have failed, in this session and in those before it. Its state is kept in
//! two logs, one line for each task. The caller owns the files: it hands the texts
//! of the logs to [`Foothold::new`], appends the lines that
//! [`Foothold::successful_line`] and [`Foothold::failed_line`] give, marks the
//! tasks, and synchronizes the files when a mark says so.
//!
//! ```
//! use foothold::Foothold;
//!
//! let mut log = String::new();
//! let mut session = Foothold::<String, (), ()>::new(Some(&log), None, 1).unwrap();
//! let task = "task1".to_string();
//! if let Some(line) = session.successful_line(&task, &()).unwrap() {
//!     log.push_str(&line);
//!     log.push('\n');
//! }
//! session.mark_successful(task, ()).unwrap();
//! assert_eq!(log, "[\"task1\",null]\n");
//! ```
pub mod clock;
pub mod error;
pub mod foothold;
pub mod inner;
pub mod laws;
pub mod lines;
pub mod record;
pub mod state;
pub mod stats;
pub mod sync;
pub mod tasks;

pub use clock::Timestamp;
pub use error::{Log, SessionError};
pub use foothold::Foothold;
pub use inner::FootholdInner;
pub use record::{Outcome, Task};
pub use state::SessionState;
pub use stats::Stats;
pub use sync::SyncConfig;
pub use tasks::TaskMap;
