use foothold::{Foothold, FootholdInner, Outcome, Stats, SyncConfig, Task as SessionTask, Timestamp};

/// The two logs of a session, in memory.
#[derive(Debug, Clone, Default)]
struct Logs {
    successful: Option<String>,
    failed: Option<String>,
}

fn append(log: &mut Option<String>, line: &str) {
    let text = log.get_or_insert_with(String::new);
    text.push_str(line);
    text.push('\n');
}

impl Logs {
    fn start<T: SessionTask, S: Outcome<T>, F: Outcome<T>>(&self, total: usize) -> Foothold<T, S, F> {
        Foothold::new(self.successful.as_deref(), self.failed.as_deref(), total).unwrap()
    }

    fn mark_successful<T: SessionTask, S: Outcome<T>, F: Outcome<T>>(
        &mut self,
        foothold: &mut Foothold<T, S, F>,
        task: T,
        success: S,
    ) {
        if let Some(line) = foothold.successful_line(&task, &success).unwrap() {
            append(&mut self.successful, &line);
        }
        foothold.mark_successful(task, success).unwrap();
    }

    fn mark_failed<T: SessionTask, S: Outcome<T>, F: Outcome<T>>(
        &mut self,
        foothold: &mut Foothold<T, S, F>,
        task: T,
        failure: F,
    ) {
        let line = foothold.failed_line(&task, &failure).unwrap();
        append(&mut self.failed, &line);
        foothold.mark_failed(task, failure).unwrap();
    }
}

fn rate(stats: &Stats) -> f64 {
    stats.session_successful as f64 / (stats.elapsed as f64 / 1e9)
}

fn run_tasks(
    tasks: &[String],
    foothold: &mut Foothold<String, (), ()>,
    logs: &mut Logs,
    fake_failure: bool,
) {
    for (index, task) in tasks.iter().enumerate() {
        let task = task.to_string();
        if foothold.is_successful(&task) {
            println!("skipping {task}");
            foothold.mark_skipped(task).unwrap();
            continue;
        } else if fake_failure && foothold.is_failed(&task) {
            // If previously failed, skip (or retry)
            println!("skipping {task}");
            foothold.mark_skipped(task).unwrap();
            continue;
        }

        if fake_failure && index % 2 == 1 {
            println!("failing {task}");
            logs.mark_failed(foothold, task, ());
        } else {
            println!("completing {task}");
            logs.mark_successful(foothold, task, ());
        }
    }
}

#[test]
fn test_simple_str() {
    let mut logs = Logs::default();
    let mut tasks = vec![
        "task1".to_string(),
        "task2".to_string(),
        "task3".to_string(),
    ];

    {
        let mut foothold: Foothold<String, (), ()> = logs.start(tasks.len());
        run_tasks(&tasks, &mut foothold, &mut logs, true);
        let stats = foothold.stats().unwrap();
        println!("Stats after first run: {}", stats.render(""));
        assert_eq!(stats.session_successful, 2);
        assert_eq!(stats.session_failed, 1);
        assert_eq!(stats.session_skipped, 0);
    }

    // More tasks get added
    tasks.push("task4".to_string());

    {
        let mut foothold: Foothold<String, (), ()> = logs.start(tasks.len());
        run_tasks(&tasks, &mut foothold, &mut logs, false);
        let stats = foothold.stats().unwrap();
        println!("Stats after resume: {}", stats.render(""));
        assert_eq!(stats.session_successful, 2);
        assert_eq!(stats.session_failed, 0);
        assert_eq!(stats.session_skipped, 2);
        assert_eq!(stats.total, 4);
        assert_eq!(stats.previous_session_successful, 2);
        assert_eq!(stats.previous_session_failed, 1);
    }
    assert_eq!(
        logs.successful.as_deref(),
        Some("[\"task1\",null]\n[\"task3\",null]\n[\"task2\",null]\n[\"task4\",null]\n")
    );
    assert_eq!(logs.failed.as_deref(), Some("[\"task2\",null]\n"));
}

#[derive(Debug, Clone, PartialEq, Eq, Hash)]
struct Task(String);
#[derive(Debug, Clone, PartialEq, Eq, Hash)]
struct Success(String);
#[derive(Debug, Clone, PartialEq, Eq, Hash)]
struct Failure(String);

impl SessionTask for Task {
    fn name(&self) -> String {
        self.0.clone()
    }
}

impl Outcome<Task> for Success {
    fn encode(task: &Task, outcome: &Success) -> Option<String> {
        serde_json::to_string(&(&task.0, &outcome.0)).ok()
    }

    fn decode(line: &str) -> Option<(Task, Success)> {
        let (task, outcome): (String, String) = serde_json::from_str(line).ok()?;
        Some((Task(task), Success(outcome)))
    }
}

impl Outcome<Task> for Failure {
    fn encode(task: &Task, outcome: &Failure) -> Option<String> {
        serde_json::to_string(&(&task.0, &outcome.0)).ok()
    }

    fn decode(line: &str) -> Option<(Task, Failure)> {
        let (task, outcome): (String, String) = serde_json::from_str(line).ok()?;
        Some((Task(task), Failure(outcome)))
    }
}

enum Res {
    Success(Success),
    Failure(Failure),
    Noop(Success),
}

#[test]
fn test_mark_successful_and_stats() {
    let mut logs = Logs::default();
    let mut foothold: Foothold<Task, Success, Failure> = logs.start(2);
    let t1 = Task("a".into());
    let t2 = Task("b".into());
    logs.mark_successful(&mut foothold, t1.clone(), Success("ok".into()));
    logs.mark_successful(&mut foothold, t2.clone(), Success("ok2".into()));
    let stats = foothold.stats().unwrap();
    assert_eq!(stats.session_successful, 2);
    assert_eq!(stats.session_failed, 0);
    assert_eq!(stats.session_skipped, 0);
}

#[test]
fn test_mark_failed_and_stats() {
    let mut logs = Logs::default();
    let mut foothold: Foothold<Task, Success, Failure> = logs.start(1);
    let t1 = Task("fail".into());
    logs.mark_failed(&mut foothold, t1.clone(), Failure("err".into()));
    let stats = foothold.stats().unwrap();
    assert_eq!(stats.session_successful, 0);
    assert_eq!(stats.session_failed, 1);
}

#[test]
fn test_is_successful_and_skipped() {
    // A log with a successful task of a previous session (as a tuple)
    let mut logs = Logs::default();
    append(&mut logs.successful, "[\"already_done\",\"ok_prev\"]");
    let mut foothold: Foothold<Task, Success, Failure> = logs.start(1);
    let t1 = Task("already_done".into());
    assert!(foothold.is_successful(&t1));
    logs.mark_successful(&mut foothold, t1.clone(), Success("ok".into()));
    let stats = foothold.stats().unwrap();
    assert_eq!(stats.session_skipped, 1);
}

fn session(
    foothold: &mut Foothold<Task, Success, Failure>,
    logs: &mut Logs,
    tasks: &[(Task, Res)],
    honor_noop: bool,
) {
    for (task, result) in tasks {
        match result {
            Res::Success(s) => {
                logs.mark_successful(foothold, task.to_owned(), s.to_owned());
            }
            Res::Failure(f) => {
                logs.mark_failed(foothold, task.to_owned(), f.to_owned());
            }
            Res::Noop(s) => {
                if !honor_noop {
                    logs.mark_successful(foothold, task.to_owned(), s.to_owned());
                }
            }
        }
    }
}

#[test]
fn test_resume() {
    let mut logs = Logs::default();

    let tasks = vec![
        (Task("task1".into()), Res::Success(Success("ok1".into()))),
        (Task("task2".into()), Res::Failure(Failure("err2".into()))),
        (Task("task3".into()), Res::Success(Success("ok3".into()))),
        (Task("task4".into()), Res::Noop(Success("ok4".into()))),
        (Task("task5".into()), Res::Noop(Success("ok5".into()))),
        (Task("task6".into()), Res::Success(Success("ok6".into()))),
    ];
    // session 1
    {
        let mut foothold: Foothold<Task, Success, Failure> = logs.start(tasks.len());

        let stats = foothold.stats().unwrap();
        assert_eq!(
            stats,
            Stats {
                total: tasks.len(),
                elapsed: stats.elapsed,
                ..Default::default()
            }
        );
        session(&mut foothold, &mut logs, &tasks, true);

        let stats = foothold.stats().unwrap();
        assert_eq!(stats.total, tasks.len());
        assert_eq!(stats.previous_session_successful, 0);
        assert_eq!(stats.previous_session_failed, 0);
        assert_eq!(stats.session_successful, 3);
        assert_eq!(stats.session_failed, 1);
        assert_eq!(stats.session_skipped, 0);
        assert_ne!(stats.elapsed, 0);
        assert_ne!(rate(&stats), 0.);
    }
    // session 2 (resume)
    {
        let mut foothold: Foothold<Task, Success, Failure> = logs.start(tasks.len());
        let stats = foothold.stats().unwrap();
        assert_eq!(stats.total, tasks.len());
        assert_eq!(stats.previous_session_successful, 3);
        assert_eq!(stats.previous_session_failed, 1);
        assert_eq!(stats.session_successful, 0);
        assert_eq!(stats.session_failed, 0);
        assert_eq!(stats.session_skipped, 0);
        assert_ne!(stats.elapsed, 0);
        assert_eq!(rate(&stats), 0.);

        session(&mut foothold, &mut logs, &tasks, false);

        let stats = foothold.stats().unwrap();
        assert_eq!(stats.total, tasks.len());
        assert_eq!(stats.previous_session_successful, 3);
        assert_eq!(stats.previous_session_failed, 1);
        assert_eq!(stats.session_successful, 2);
        assert_eq!(stats.session_failed, 1);
        assert_eq!(stats.session_skipped, 3);
        assert_ne!(stats.elapsed, 0);
        assert_ne!(rate(&stats), 0.);
    }
}

#[test]
fn no_line_is_called_for_a_task_that_is_successful() {
    let mut logs = Logs::default();
    append(&mut logs.successful, "[\"old\",\"before\"]");
    let mut foothold: Foothold<String, String, String> = logs.start(2);
    let old = "old".to_string();
    let new = "new".to_string();
    assert_eq!(foothold.successful_line(&old, &"now".to_string()), Ok(None));
    assert_eq!(
        foothold.successful_line(&new, &"first".to_string()),
        Ok(Some("[\"new\",\"first\"]".to_string()))
    );
    foothold.mark_successful(new.clone(), "first".to_string()).unwrap();
    assert_eq!(foothold.successful_line(&new, &"second".to_string()), Ok(None));
    foothold.mark_successful(new.clone(), "second".to_string()).unwrap();
    foothold.mark_successful(old.clone(), "now".to_string()).unwrap();
    foothold.mark_successful(old, "now".to_string()).unwrap();
    let stats = foothold.stats().unwrap();
    assert_eq!(stats.session_successful, 1);
    assert_eq!(stats.session_skipped, 2);
    // A failure is written each time.
    assert_eq!(
        foothold.failed_line(&new, &"why".to_string()),
        Ok("[\"new\",\"why\"]".to_string())
    );
}

#[test]
fn marks_of_one_kind_leave_the_other_kind_alone() {
    let mut logs = Logs::default();
    let mut foothold: Foothold<String, String, String> = logs.start(1);
    let task = "t".to_string();
    logs.mark_failed(&mut foothold, task.clone(), "first".to_string());
    logs.mark_failed(&mut foothold, task.clone(), "second".to_string());
    assert!(foothold.is_failed(&task));
    assert!(!foothold.is_successful(&task));
    logs.mark_successful(&mut foothold, task.clone(), "done".to_string());
    assert!(foothold.is_failed(&task));
    assert!(foothold.is_successful(&task));
    assert!(!foothold.is_failed(&"other".to_string()));
    let stats = foothold.stats().unwrap();
    assert_eq!(stats.session_failed, 1);
    assert_eq!(stats.session_successful, 1);
    assert_eq!(logs.failed.as_deref(), Some("[\"t\",\"first\"]\n[\"t\",\"second\"]\n"));
}

#[test]
fn a_session_takes_up_where_the_last_one_stopped() {
    let mut logs = Logs::default();
    append(&mut logs.successful, "[\"a\",\"0\"]");
    append(&mut logs.failed, "[\"b\",\"0\"]");
    let names = ["a", "b", "c\nd", "e\"f\\", "g\u{1}\r", "h\u{e9}\u{1f600}", ""];
    let mut foothold: Foothold<String, String, String> = logs.start(names.len());
    for (index, name) in names.iter().enumerate() {
        if index % 2 == 0 {
            logs.mark_successful(&mut foothold, name.to_string(), format!("{index}\n"));
        } else {
            logs.mark_failed(&mut foothold, name.to_string(), format!("{index}\r\n"));
        }
    }
    let stopped = foothold.stats().unwrap();
    let resumed: Foothold<String, String, String> = logs.start(names.len());
    for name in names {
        let name = name.to_string();
        assert_eq!(resumed.is_successful(&name), foothold.is_successful(&name));
        assert!(!resumed.is_failed(&name));
        let sync = SyncConfig::create(None, None);
        let inner = FootholdInner::<String, String, String>::new(
            logs.successful.as_deref(),
            logs.failed.as_deref(),
            0,
            sync,
        )
        .unwrap();
        assert_eq!(inner.is_failed(&name), foothold.is_failed(&name));
        assert!(!inner.is_failed_in_session(&name));
    }
    let stats = resumed.stats().unwrap();
    assert_eq!(
        stats.previous_session_successful,
        stopped.previous_session_successful + stopped.session_successful
    );
    assert_eq!(stats.previous_session_successful, 4);
    assert_eq!(stats.previous_session_failed, 3);
    assert_eq!(stats.session_successful, 0);
    assert_eq!(stats.session_failed, 0);
    assert_eq!(stats.session_skipped, 0);
}

#[test]
fn marks_tell_when_to_sync() {
    let mut foothold: Foothold<String, (), ()> = Logs::default().start(3);
    assert!(foothold.can_mark());
    assert_eq!(foothold.mark_successful("a".to_string(), ()), Ok(false));
    assert_eq!(foothold.mark_failed("b".to_string(), ()), Ok(true));
    assert_eq!(foothold.mark_successful("a".to_string(), ()), Ok(false));
    let each = SyncConfig::create(None, None);
    let mut foothold = Foothold::<String, (), ()>::with_sync(None, None, 3, each).unwrap();
    assert_eq!(foothold.mark_successful("a".to_string(), ()), Ok(true));
    assert_eq!(foothold.mark_failed("b".to_string(), ()), Ok(true));
}

#[test]
fn elapsed_time_runs_from_the_start_of_the_session() {
    let start = Timestamp { before_epoch: false, secs: 100, nanos: 5 };
    let sync = SyncConfig::create(None, Some(1));
    let inner = FootholdInner::<String, (), ()>::new_at(None, None, 9, sync, start).unwrap();
    let stats = inner.stats_at(Timestamp { before_epoch: false, secs: 101, nanos: 0 });
    assert_eq!(stats, Ok(Stats { total: 9, elapsed: 999_999_995, ..Stats::default() }));
    assert_eq!(inner.stats_at(start), Ok(Stats { total: 9, ..Stats::default() }));
    let early = inner.stats_at(Timestamp { before_epoch: false, secs: 100, nanos: 4 });
    assert_eq!(early, Err(foothold::SessionError::Clock));
}

#[test]
fn a_session_from_the_future_has_no_statistics() {
    let start = Timestamp { before_epoch: false, secs: u64::MAX, nanos: 0 };
    let sync = SyncConfig::create(None, Some(1));
    let inner = FootholdInner::<String, (), ()>::new_at(None, None, 9, sync, start).unwrap();
    assert_eq!(inner.stats(), Err(foothold::SessionError::Clock));
}

#[test]
fn is_failed_speaks_of_this_session() {
    let failed = Some("[\"t\",\"e\"]\n");
    let mut foothold = Foothold::<Task, Success, Failure>::new(Some(""), failed, 1).unwrap();
    let task = Task("t".into());
    assert!(!foothold.is_failed(&task));
    assert_eq!(foothold.stats().unwrap().previous_session_failed, 1);
    foothold.mark_failed(task.clone(), Failure("e".into())).unwrap();
    assert!(foothold.is_failed(&task));
}

#[test]
fn marks_at_a_given_time() {
    let at = |secs: u64| Timestamp { before_epoch: false, secs, nanos: 0 };
    let sync = SyncConfig::create_at(Some(5), None, at(100));
    let mut foothold = Foothold::<String, (), ()>::with_sync(None, None, 3, sync).unwrap();
    assert_eq!(foothold.mark_successful_at("a".to_string(), (), at(104)), Ok(false));
    assert_eq!(foothold.mark_failed_at("b".to_string(), (), at(105)), Ok(true));
    assert_eq!(foothold.mark_successful_at("c".to_string(), (), at(109)), Ok(false));
    // The task is marked although the clock went back.
    let early = Err(foothold::SessionError::Clock);
    assert_eq!(foothold.mark_failed_at("d".to_string(), (), at(104)), early);
    assert!(foothold.is_failed(&"d".to_string()));
    assert_eq!(foothold.stats_at(at(0)), early.map(|_: bool| Stats::default()));
}

#[test]
fn failures_of_both_sessions_are_counted_once() {
    let mut log = "[\"a\",null]\n[\"b\",null]\n".to_string();
    let mut foothold = Foothold::<String, (), ()>::new(None, Some(&log), 3).unwrap();
    for name in ["b", "c", "c", "b"] {
        let task = name.to_string();
        log.push_str(&foothold.failed_line(&task, &()).unwrap());
        log.push('\n');
        foothold.mark_failed(task, ()).unwrap();
    }
    foothold.mark_skipped("a".to_string()).unwrap();
    foothold.mark_successful("d".to_string(), ()).unwrap();
    // No later operation takes a mark away or sets one for another task.
    assert!(foothold.is_failed(&"b".to_string()));
    assert!(foothold.is_failed(&"c".to_string()));
    assert!(!foothold.is_failed(&"a".to_string()));
    assert!(!foothold.is_failed(&"d".to_string()));
    assert_eq!(foothold.stats().unwrap().session_failed, 2);
    assert_eq!(foothold.stats().unwrap().previous_session_failed, 2);
    let next = Foothold::<String, (), ()>::new(None, Some(&log), 3).unwrap();
    assert_eq!(next.stats().unwrap().session_failed, 0);
    assert_eq!(next.stats().unwrap().previous_session_failed, 3);
}
