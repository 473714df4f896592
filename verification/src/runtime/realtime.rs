//! Following the command log as it grows.  Reading the file, watching it and
//! the database writes happen outside the library; what to read, which lines
//! came, and what each event asks for are decided here.
use vstd::prelude::*;

use crate::text::{concat_str, lines_of, split_lines, strings_view};

verus! {

/// One line of the command log, as the shell hook writes it: the command,
/// its exit status and the UNIX time at which it ended.
pub struct RealtimeLine {
    pub cmd: String,
    pub status: i32,
    pub timestamp: i64,
}

/// What the watcher of the command log reports: a new line, or an error
/// (with its message).
pub enum WatchEvent {
    Line(String),
    Error(String),
}

/// What an event asks for: handling a line of the log, or logging an error
/// message.
pub enum WatchTask {
    HandleLine(String),
    LogError(String),
}

/// The mathematical value of a [`WatchEvent`].
pub enum WatchEventView {
    Line(Seq<char>),
    Error(Seq<char>),
}

/// The mathematical value of a [`WatchTask`].
pub enum WatchTaskView {
    HandleLine(Seq<char>),
    LogError(Seq<char>),
}

impl View for WatchEvent {
    type V = WatchEventView;

    open spec fn view(&self) -> WatchEventView {
        match self {
            WatchEvent::Line(l) => WatchEventView::Line(l@),
            WatchEvent::Error(e) => WatchEventView::Error(e@),
        }
    }
}

impl View for WatchTask {
    type V = WatchTaskView;

    open spec fn view(&self) -> WatchTaskView {
        match self {
            WatchTask::HandleLine(l) => WatchTaskView::HandleLine(l@),
            WatchTask::LogError(e) => WatchTaskView::LogError(e@),
        }
    }
}

/// The tail of the command log: the file's path and how many of its bytes
/// have been read.
pub struct Poller {
    path: String,
    last_size: u64,
}

/// What the next poll has to read: nothing new, or the file from a byte
/// offset to its end.
#[derive(Debug, Clone, Copy, PartialEq, Eq, Structural)]
pub enum PollStep {
    Unchanged,
    ReadFrom(u64),
}

/// The offset from which to read, given what was read before (`last`) and
/// the file's size now: a file that shrank was replaced or truncated and is
/// read again from the start.
pub open spec fn read_offset(last: u64, new_size: u64) -> u64 {
    if new_size < last {
        0
    } else {
        last
    }
}

/// What a poll reads when the file has `new_size` bytes.
pub open spec fn poll_step(last: u64, new_size: u64) -> PollStep {
    if new_size == read_offset(last, new_size) {
        PollStep::Unchanged
    } else {
        PollStep::ReadFrom(read_offset(last, new_size))
    }
}

/// Polling reads each byte of the log once: a read starts inside the file,
/// and once the file has been read up to its size, a poll at that size reads
/// nothing.
pub proof fn lemma_poll_reads_once(last: u64, size: u64)
    ensures
        poll_step(size, size) == PollStep::Unchanged,
        poll_step(last, size) matches PollStep::ReadFrom(offset) ==> offset < size,
        size >= last ==> read_offset(last, size) == last,
{
}

impl Poller {
    /// The path that is followed.
    pub closed spec fn path_view(&self) -> Seq<char> {
        self.path@
    }

    /// How many bytes have been read.
    pub closed spec fn read_up_to(&self) -> u64 {
        self.last_size
    }

    /// Starts following `path`, whose size is `size` (`None` when it could
    /// not be read, which counts as empty): what is already there is not
    /// read.
    pub fn new(path: &str, size: Option<u64>) -> (p: Poller)
        ensures
            p.path_view() == path@,
            p.read_up_to() == match size {
                Some(s) => s,
                None => 0,
            },
    {
        let last_size = match size {
            Some(s) => s,
            None => 0,
        };
        Poller { path: path.to_string(), last_size }
    }

    /// The path that is followed.
    pub fn path(&self) -> (p: &str)
        ensures
            p@ == self.path_view(),
    {
        self.path.as_str()
    }

    /// How many bytes have been read.
    pub fn last_size(&self) -> (n: u64)
        ensures
            n == self.read_up_to(),
    {
        self.last_size
    }

    /// The first half of a poll, given the file's size now: what to read
    /// (see [`poll_step`]).  A file that shrank is read again from the start
    /// from now on, whether or not the read succeeds.
    pub fn poll(&mut self, new_size: u64) -> (step: PollStep)
        ensures
            step == poll_step(old(self).read_up_to(), new_size),
            final(self).read_up_to() == read_offset(old(self).read_up_to(), new_size),
            final(self).path_view() == old(self).path_view(),
    {
        if new_size < self.last_size {
            self.last_size = 0;
        }
        if new_size == self.last_size {
            PollStep::Unchanged
        } else {
            PollStep::ReadFrom(self.last_size)
        }
    }

    /// The second half of a poll: `text` was read from the offset that
    /// [`Poller::poll`] gave, and the file had `new_size` bytes; the result
    /// is the lines of the text, and the file counts as read up to
    /// `new_size`.
    pub fn lines_read(&mut self, new_size: u64, text: &str) -> (lines: Vec<String>)
        ensures
            strings_view(lines@) == lines_of(text@),
            final(self).read_up_to() == new_size,
            final(self).path_view() == old(self).path_view(),
    {
        self.last_size = new_size;
        let lines = split_lines(text);
        assert(strings_view(lines@) =~= lines_of(text@));
        lines
    }
}

/// What an event asks for: a line is handled, an error is logged with the
/// message `Realtime watcher error: <error>`.
pub open spec fn event_task(e: WatchEventView) -> WatchTaskView {
    match e {
        WatchEventView::Line(l) => WatchTaskView::HandleLine(l),
        WatchEventView::Error(m) => WatchTaskView::LogError("Realtime watcher error: "@ + m),
    }
}

/// What `event` asks for.
pub fn watch_event_task(event: &WatchEvent) -> (t: WatchTask)
    ensures
        t@ == event_task(event@),
{
    match event {
        WatchEvent::Line(l) => WatchTask::HandleLine(l.clone()),
        WatchEvent::Error(m) => WatchTask::LogError(concat_str("Realtime watcher error: ", m.as_str())),
    }
}

/// How following the log goes on once the watcher was asked to start: with
/// the events that the watcher reports, or by polling the file after logging
/// a warning.
pub enum FollowMode {
    WatchEvents,
    PollAfterWarning(String),
}

/// How following the log goes on once the watcher was asked to start, given
/// the error message when it did not start: with its events when it started,
/// else by polling, after the warning `Realtime watcher failed, falling back
/// to polling: <error>`.
pub fn follow_mode(start_error: Option<&str>) -> (m: FollowMode)
    ensures
        match start_error {
            None => m is WatchEvents,
            Some(e) => m matches FollowMode::PollAfterWarning(w) && w@
                == "Realtime watcher failed, falling back to polling: "@ + e@,
        },
{
    match start_error {
        None => FollowMode::WatchEvents,
        Some(e) => FollowMode::PollAfterWarning(concat_str("Realtime watcher failed, falling back to polling: ", e)),
    }
}

/// After `handled` events (or polls), whether to stop: only with a limit
/// `max`, once `handled` reaches it.
pub open spec fn stops_after(handled: int, max: Option<usize>) -> bool {
    match max {
        Some(m) => handled >= m,
        None => false,
    }
}

/// Whether to stop after `handled` events (or polls) with the limit `max`.
pub fn stop_after(handled: usize, max: Option<usize>) -> (b: bool)
    ensures
        b == stops_after(handled as int, max),
{
    match max {
        Some(m) => handled >= m,
        None => false,
    }
}

/// How many of `n` events a run with the limit `max` handles, checking the
/// limit after each event: all without a limit, else the limit but at least
/// one (and no more than there are).
pub open spec fn handled_count(n: int, max: Option<usize>) -> int {
    match max {
        None => n,
        Some(m) => if n == 0 {
            0
        } else if m <= 1 {
            1
        } else if m < n {
            m as int
        } else {
            n
        },
    }
}

/// The views of events.
pub open spec fn events_view(v: Seq<WatchEvent>) -> Seq<WatchEventView> {
    v.map_values(|e: WatchEvent| e@)
}

/// The views of tasks.
pub open spec fn tasks_view(v: Seq<WatchTask>) -> Seq<WatchTaskView> {
    v.map_values(|t: WatchTask| t@)
}

/// The tasks of the events that a run with the limit `max_events` handles,
/// in order (see [`handled_count`] and [`event_task`]).
pub fn run_with_events(events: &Vec<WatchEvent>, max_events: Option<usize>) -> (tasks: Vec<WatchTask>)
    ensures
        tasks_view(tasks@) == events_view(events@).take(handled_count(events@.len() as int, max_events)).map_values(
            |e: WatchEventView| event_task(e),
        ),
{
    let ghost ev = events_view(events@);
    let n = events.len();
    let k: usize = match max_events {
        None => n,
        Some(m) => if n == 0 {
            0
        } else if m <= 1 {
            1
        } else if m < n {
            m
        } else {
            n
        },
    };
    let mut tasks: Vec<WatchTask> = Vec::new();
    let mut i: usize = 0;
    while i < k
        invariant
            ev == events_view(events@),
            k <= n == events@.len(),
            i <= k,
            tasks_view(tasks@) == ev.take(i as int).map_values(|e: WatchEventView| event_task(e)),
        decreases k - i,
    {
        let t = watch_event_task(&events[i]);
        let ghost before = tasks@;
        tasks.push(t);
        assert(tasks_view(tasks@) =~= tasks_view(before).push(t@));
        assert(ev.take(i + 1).map_values(|e: WatchEventView| event_task(e)) =~= ev.take(
            i as int,
        ).map_values(|e: WatchEventView| event_task(e)).push(event_task(ev[i as int])));
        i += 1;
    }
    tasks
}

/// What to do with a line of the log once it has been read as JSON: save
/// the command it describes, or warn that it was not valid.
pub enum LineStep {
    Save(RealtimeLine),
    Warn(String),
}

/// What to do with the log line `line`, given what reading it as JSON gave:
/// save its command, or warn with `Invalid realtime JSON: <error> | <line>`.
pub fn handle_line_with(line: &str, parsed: Result<RealtimeLine, String>) -> (step: LineStep)
    ensures
        match parsed {
            Ok(l) => step matches LineStep::Save(s) && s.cmd@ == l.cmd@ && s.status == l.status
                && s.timestamp == l.timestamp,
            Err(e) => step matches LineStep::Warn(m) && m@ == "Invalid realtime JSON: "@ + e@ + " | "@
                + line@,
        },
{
    match parsed {
        Ok(l) => LineStep::Save(l),
        Err(e) => {
            let head = concat_str("Invalid realtime JSON: ", e.as_str());
            let mid = concat_str(head.as_str(), " | ");
            LineStep::Warn(concat_str(mid.as_str(), line))
        },
    }
}

/// The message logged when saving a line's command failed with `err`.
pub fn save_failure_message(err: &str) -> (m: String)
    ensures
        m@ == "Failed to save realtime command: "@ + err@,
{
    concat_str("Failed to save realtime command: ", err)
}

} // verus!
