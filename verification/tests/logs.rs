use foothold::lines::split_lines;
use foothold::{Foothold, Log, Outcome, SessionError, SessionState, Task, TaskMap};

fn load(
    successful: Option<&str>,
    failed: Option<&str>,
) -> Result<SessionState<String, String, ()>, SessionError> {
    SessionState::load(successful, failed)
}

fn text(s: &str) -> String {
    s.to_string()
}

#[test]
fn lines_end_with_a_line_feed() {
    assert_eq!(split_lines(""), Vec::<String>::new());
    assert_eq!(split_lines("a"), vec![text("a")]);
    assert_eq!(split_lines("a\n"), vec![text("a")]);
    assert_eq!(split_lines("a\n\nb"), vec![text("a"), text(""), text("b")]);
    assert_eq!(split_lines("\n"), vec![text("")]);
    assert_eq!(split_lines("a\r\nb\r\r\n\r\n\rc\r"), vec![text("a"), text("b\r"), text(""), text("\rc\r")]);
}

#[test]
fn lines_are_those_of_the_standard_library() {
    let pieces = ["", "a", "\n", "\r", "\r\n", "\u{e9}b"];
    for a in pieces {
        for b in pieces {
            for c in pieces {
                for d in pieces {
                    let whole = format!("{a}{b}{c}{d}");
                    let expected: Vec<String> = whole.lines().map(text).collect();
                    assert_eq!(split_lines(&whole), expected, "{whole:?}");
                }
            }
        }
    }
}

#[test]
fn a_line_appended_to_whole_lines_is_the_last_line() {
    for before in ["", "x\n", "x\ny\r\n", "\n"] {
        for line in ["", "l", "l\rm"] {
            let mut expected = split_lines(before);
            expected.push(text(line));
            assert_eq!(split_lines(&format!("{before}{line}\n")), expected);
        }
    }
}

#[test]
fn every_ascii_character_is_written_as_stated() {
    for byte in 0u8..128 {
        let c = byte as char;
        let expected = match c {
            '"' => text("\\\""),
            '\\' => text("\\\\"),
            '\u{8}' => text("\\b"),
            '\t' => text("\\t"),
            '\n' => text("\\n"),
            '\u{c}' => text("\\f"),
            '\r' => text("\\r"),
            _ if byte < 0x20 => format!("\\u{:04x}", byte),
            _ => text(&c.to_string()),
        };
        let name = format!("{c}x{c}");
        let line = <() as Outcome<String>>::encode(&name, &()).unwrap();
        assert_eq!(line, format!("[\"{expected}x{expected}\",null]"));
        assert_eq!(<() as Outcome<String>>::decode(&line), Some((name, ())));
    }
}

#[test]
fn entries_are_json_arrays() {
    let task = text("a\"b\\c\n\t\u{1}\u{e9}");
    let line = <String as Outcome<String>>::encode(&task, &text("v")).unwrap();
    assert_eq!(line, "[\"a\\\"b\\\\c\\n\\t\\u0001\u{e9}\",\"v\"]");
    assert_eq!(<String as Outcome<String>>::decode(&line), Some((task.clone(), text("v"))));
    let line = <() as Outcome<String>>::encode(&task, &()).unwrap();
    assert_eq!(line, "[\"a\\\"b\\\\c\\n\\t\\u0001\u{e9}\",null]");
    assert_eq!(<() as Outcome<String>>::decode(&line), Some((task.clone(), ())));
    assert_eq!(task.name(), task);
}

#[test]
fn what_is_no_entry_is_not_read() {
    for line in ["", "x", "[]", "[\"a\"]", "[\"a\",1]", "[1,\"a\"]", "[\"a\",\"b\",\"c\"]", "[\"a\",\"b\"] x"] {
        assert_eq!(<String as Outcome<String>>::decode(line), None);
        assert_eq!(<() as Outcome<String>>::decode(line), None);
    }
    assert_eq!(<String as Outcome<String>>::decode("[\"a\",null]"), None);
    assert_eq!(<() as Outcome<String>>::decode("[\"a\",\"b\"]"), None);
    assert_eq!(
        <String as Outcome<String>>::decode(" [ \"\\u0061\" , \"b\" ] "),
        Some((text("a"), text("b")))
    );
}

#[test]
fn logs_that_do_not_exist_hold_nothing() {
    let state = load(None, None).unwrap();
    assert_eq!(state.successful_count(), 0);
    assert_eq!(state.failed_count(), 0);
    assert!(!state.is_successful(&text("a")));
    let state = load(Some(""), Some("")).unwrap();
    assert_eq!(state.successful_count(), 0);
    let state = SessionState::<String, String, ()>::new();
    assert_eq!(state.failed_count(), 0);
}

#[test]
fn a_task_is_counted_once_per_log() {
    let state = load(
        Some("[\"a\",\"1\"]\n[\"b\",\"2\"]\r\n[\"a\",\"3\"]"),
        Some("[\"a\",null]\n[\"a\",null]\n"),
    )
    .unwrap();
    assert_eq!(state.successful_count(), 2);
    assert_eq!(state.failed_count(), 1);
    assert!(state.is_successful(&text("b")));
    assert!(!state.is_failed(&text("b")));
    assert!(state.is_failed(&text("a")));
}

#[test]
fn the_first_line_that_cannot_be_read_is_told() {
    let bad_line = |log: Log, line: usize| Some(SessionError::Decode { log, line });
    assert_eq!(load(Some("[\"a\",\"1\"]\n\n[\"b\",\"2\"]\n"), Some("x")).err(), bad_line(Log::Successful, 1));
    assert_eq!(load(Some("[\"a\",null]"), None).err(), bad_line(Log::Successful, 0));
    assert_eq!(
        load(Some("[\"a\",\"1\"]"), Some("[\"a\",null]\n[\"b\",null]\nx\ny")).err(),
        bad_line(Log::Failed, 2)
    );
    assert_eq!(
        Foothold::<String, (), ()>::new(None, Some("[\"a\",1]"), 0).err(),
        bad_line(Log::Failed, 0)
    );
}

#[test]
fn marks_of_a_state() {
    let mut state = SessionState::<String, String, ()>::from_entries(
        vec![(text("a"), text("1")), (text("a"), text("2"))],
        vec![(text("b"), ())],
    );
    assert_eq!(state.successful_count(), 1);
    assert_eq!(state.mark_successful(text("a"), text("3")), Ok(()));
    assert_eq!(state.mark_successful(text("c"), text("4")), Ok(()));
    assert_eq!(state.mark_failed(text("b"), ()), Ok(()));
    assert_eq!(state.mark_failed(text("a"), ()), Ok(()));
    assert_eq!(state.successful_count(), 2);
    assert_eq!(state.failed_count(), 2);
}

#[test]
fn a_map_finds_tasks_by_name() {
    let mut map = TaskMap::<String, String>::new();
    assert!(!map.contains(&text("a")));
    map.insert(text("a"), text("1"));
    map.insert(text("a"), text("2"));
    map.insert_if_absent(text("b"), text("3"));
    map.insert_if_absent(text("b"), text("4"));
    assert!(map.contains(&text("a")) && map.contains(&text("b")));
    assert_eq!(map.len(), 2);
    assert_eq!(TaskMap::from_entries(vec![(text("x"), ()), (text("y"), ()), (text("x"), ())]).len(), 2);
}

/// An outcome for which no line can be written.
struct Unwritable;

impl Outcome<String> for Unwritable {
    fn encode(_task: &String, _outcome: &Unwritable) -> Option<String> {
        None
    }

    fn decode(_line: &str) -> Option<(String, Unwritable)> {
        None
    }
}

#[test]
fn a_task_that_cannot_be_written_is_an_error() {
    let foothold = Foothold::<String, Unwritable, Unwritable>::new(None, None, 1).unwrap();
    let task = text("a");
    assert_eq!(foothold.successful_line(&task, &Unwritable), Err(SessionError::Encode));
    assert_eq!(foothold.failed_line(&task, &Unwritable), Err(SessionError::Encode));
    // The task stays unmarked.
    assert!(!foothold.is_successful(&task));
    assert!(!foothold.is_failed(&task));
}

#[test]
fn a_successful_task_needs_no_other_line() {
    let mut foothold = Foothold::<String, String, ()>::new(None, None, 1).unwrap();
    let task = text("a");
    let line = foothold.successful_line(&task, &text("v")).unwrap();
    assert_eq!(line, Some(text("[\"a\",\"v\"]")));
    foothold.mark_successful(task.clone(), text("v")).unwrap();
    assert_eq!(foothold.successful_line(&task, &text("w")), Ok(None));
    foothold.mark_successful(task.clone(), text("w")).unwrap();
    assert_eq!(foothold.stats().unwrap().session_successful, 1);
    assert_eq!(foothold.stats().unwrap().session_skipped, 0);
}
