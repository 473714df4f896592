use basket::runtime::realtime::{
    follow_mode, handle_line_with, run_with_events, save_failure_message, stop_after, watch_event_task,
    FollowMode, LineStep, PollStep, Poller, RealtimeLine, WatchEvent, WatchTask,
};

/// A file held in memory that a poller follows.
struct Tail {
    contents: String,
    poller: Poller,
}

impl Tail {
    fn poll(&mut self) -> Vec<String> {
        let size = self.contents.len() as u64;
        match self.poller.poll(size) {
            PollStep::Unchanged => vec![],
            PollStep::ReadFrom(offset) => {
                let text = self.contents[offset as usize..].to_string();
                self.poller.lines_read(size, &text)
            }
        }
    }
}

#[test]
fn file_poller_reads_appended_lines_and_truncation() {
    let mut tail = Tail { contents: String::new(), poller: Poller::new("cmdlog.json", Some(0)) };
    tail.contents.push_str("one\n");

    let first = tail.poll();
    assert_eq!(first, vec!["one".to_string()]);

    tail.contents.push_str("two\n");
    let second = tail.poll();
    assert_eq!(second, vec!["two".to_string()]);

    tail.contents = "short\n".to_string();
    let third = tail.poll();
    assert_eq!(third, vec!["short".to_string()]);

    assert!(tail.poll().is_empty());
}

#[test]
fn handle_realtime_line_calls_save_for_valid_json() {
    let line = r#"{"cmd":"ls","status":0,"timestamp":123}"#;
    let parsed = Ok(RealtimeLine { cmd: "ls".to_string(), status: 0, timestamp: 123 });
    match handle_line_with(line, parsed) {
        LineStep::Save(l) => {
            assert_eq!(l.cmd, "ls");
            assert_eq!(l.status, 0);
            assert_eq!(l.timestamp, 123);
        }
        LineStep::Warn(_) => panic!("expected a save"),
    }
}

#[test]
fn handle_realtime_line_ignores_invalid_json() {
    match handle_line_with("not json", Err("expected value at line 1 column 1".to_string())) {
        LineStep::Warn(m) => assert_eq!(
            m,
            "Invalid realtime JSON: expected value at line 1 column 1 | not json"
        ),
        LineStep::Save(_) => panic!("expected a warning"),
    }
}

#[test]
fn handle_realtime_line_logs_on_save_error() {
    assert_eq!(
        save_failure_message("save failed"),
        "Failed to save realtime command: save failed"
    );
}

#[test]
fn process_watch_events_handles_line_and_error() {
    let events = vec![
        WatchEvent::Line(r#"{"cmd":"ls","status":0,"timestamp":1}"#.to_string()),
        WatchEvent::Error("boom".to_string()),
    ];
    let tasks = run_with_events(&events, Some(2));
    assert_eq!(tasks.len(), 2);
    assert!(matches!(&tasks[0], WatchTask::HandleLine(l) if l.contains("\"ls\"")));
    assert!(matches!(&tasks[1], WatchTask::LogError(m) if m == "Realtime watcher error: boom"));
}

#[test]
fn event_limits_are_checked_after_each_event() {
    let events: Vec<WatchEvent> = (0..5).map(|i| WatchEvent::Line(format!("l{}", i))).collect();
    assert_eq!(run_with_events(&events, None).len(), 5);
    assert_eq!(run_with_events(&events, Some(0)).len(), 1);
    assert_eq!(run_with_events(&events, Some(1)).len(), 1);
    assert_eq!(run_with_events(&events, Some(3)).len(), 3);
    assert_eq!(run_with_events(&events, Some(9)).len(), 5);
    assert_eq!(run_with_events(&Vec::new(), Some(0)).len(), 0);
    assert!(stop_after(1, Some(1)));
    assert!(!stop_after(1, Some(2)));
    assert!(!stop_after(usize::MAX, None));
}

#[test]
fn tasks_of_events() {
    match watch_event_task(&WatchEvent::Line("x".to_string())) {
        WatchTask::HandleLine(l) => assert_eq!(l, "x"),
        _ => panic!("expected a line"),
    }
}

#[test]
fn poller_starts_at_the_current_size() {
    let mut p = Poller::new("log", Some(10));
    assert_eq!(p.path(), "log");
    assert_eq!(p.last_size(), 10);
    assert_eq!(p.poll(10), PollStep::Unchanged);
    assert_eq!(p.poll(15), PollStep::ReadFrom(10));
    assert_eq!(p.poll(3), PollStep::ReadFrom(0));
    assert_eq!(p.last_size(), 0);
    let lines = p.lines_read(3, "a\r\nb");
    assert_eq!(lines, vec!["a".to_string(), "b".to_string()]);
    assert_eq!(p.last_size(), 3);
    assert_eq!(Poller::new("gone", None).last_size(), 0);
}

#[test]
fn watcher_failure_falls_back_to_polling_with_a_warning() {
    assert!(matches!(follow_mode(None), FollowMode::WatchEvents));
    match follow_mode(Some("inotify limit reached")) {
        FollowMode::PollAfterWarning(w) => {
            assert_eq!(w, "Realtime watcher failed, falling back to polling: inotify limit reached")
        }
        FollowMode::WatchEvents => panic!("expected polling"),
    }
}
