use basket::startup::{next_step, Outcome, StartupStep};
use basket::util::logging::Status;

/// How each outside step of the start-up goes.
struct World {
    history_read: bool,
    connect: Result<(), &'static str>,
    create: Result<(), &'static str>,
    ensure: Result<(), &'static str>,
    history: Result<(), &'static str>,
    tui: Result<(), &'static str>,
}

impl World {
    fn happy() -> Self {
        World {
            history_read: false,
            connect: Ok(()),
            create: Ok(()),
            ensure: Ok(()),
            history: Ok(()),
            tui: Ok(()),
        }
    }

    fn outcome(&self, step: StartupStep) -> Outcome {
        let of = |r: Result<(), &'static str>| match r {
            Ok(()) => Outcome::Done,
            Err(e) => Outcome::Failed(e.to_string()),
        };
        match step {
            StartupStep::CheckHistory => Outcome::Answer(self.history_read),
            StartupStep::Connect | StartupStep::Reconnect => of(self.connect),
            StartupStep::CreateDb => of(self.create),
            StartupStep::EnsureColumn | StartupStep::EnsureColumnAgain => of(self.ensure),
            StartupStep::ImportHistory => of(self.history),
            StartupStep::RunTui => of(self.tui),
            _ => Outcome::Done,
        }
    }

    /// Runs the sequence: the steps carried out and the messages printed.
    fn run(&self) -> (Vec<StartupStep>, Vec<(Status, String)>) {
        let mut step = StartupStep::CheckHistory;
        let mut visited = Vec::new();
        let mut logs = Vec::new();
        while step != StartupStep::Done {
            visited.push(step);
            let (next, log) = next_step(step, &self.outcome(step));
            if let Some(l) = log {
                logs.push((l.status, l.text));
            }
            step = next;
        }
        (visited, logs)
    }
}

#[test]
fn run_app_happy_path_calls_dependencies() {
    let (steps, logs) = World::happy().run();
    assert_eq!(
        steps,
        vec![
            StartupStep::CheckHistory,
            StartupStep::Connect,
            StartupStep::CreateDb,
            StartupStep::EnsureColumn,
            StartupStep::ImportHistory,
            StartupStep::Reconnect,
            StartupStep::EnsureColumnAgain,
            StartupStep::Setup,
            StartupStep::DetectShell,
            StartupStep::RunTui,
        ]
    );
    assert_eq!(logs, vec![(Status::SUCCESS, "Database connection established.".to_string())]);
}

#[test]
fn run_app_handles_connection_error_and_tui_error() {
    let world = World { connect: Err("db error"), tui: Err("tui error"), ..World::happy() };
    let (steps, logs) = world.run();
    assert!(logs.len() >= 2);
    assert_eq!(
        logs,
        vec![
            (Status::ERROR, "Failed to establish database connection: db error".to_string()),
            (Status::ERROR, "TUI failed: tui error".to_string()),
        ]
    );
    assert!(steps.contains(&StartupStep::ImportHistory));
    assert!(!steps.contains(&StartupStep::CreateDb));
}

#[test]
fn run_app_skips_history_when_already_read() {
    let world = World { history_read: true, ..World::happy() };
    let (steps, _) = world.run();
    assert!(!steps.contains(&StartupStep::ImportHistory));
    assert!(steps.contains(&StartupStep::RunTui));
}

#[test]
fn run_app_logs_when_create_db_fails() {
    let world = World { create: Err("create error"), ..World::happy() };
    let (steps, logs) = world.run();
    assert!(!logs.is_empty());
    assert_eq!(logs, vec![(Status::ERROR, "Failed to create database: create error".to_string())]);
    assert!(!steps.contains(&StartupStep::RunTui));
}

#[test]
fn run_app_logs_when_schema_update_fails() {
    let world = World { ensure: Err("schema error"), ..World::happy() };
    let (steps, logs) = world.run();
    assert!(!logs.is_empty());
    assert_eq!(logs, vec![(Status::ERROR, "Failed to update schema: schema error".to_string())]);
    assert_eq!(steps.last(), Some(&StartupStep::EnsureColumn));
}

#[test]
fn run_app_logs_when_save_history_fails() {
    let world = World { history: Err("history error"), ..World::happy() };
    let (steps, logs) = world.run();
    assert!(!logs.is_empty());
    assert!(logs.contains(&(Status::ERROR, "Failed to load history: history error".to_string())));
    assert!(steps.contains(&StartupStep::RunTui));
}

#[test]
fn run_app_logs_when_schema_update_fails_after_history() {
    let world = World { history_read: true, ensure: Err("schema error"), ..World::happy() };
    let (steps, logs) = world.run();
    assert_eq!(logs, vec![(Status::ERROR, "Failed to update schema: schema error".to_string())]);
    assert!(steps.contains(&StartupStep::RunTui));
}

#[test]
fn failed_reconnection_passes_silently() {
    let (next, log) = next_step(StartupStep::Reconnect, &Outcome::Failed("locked".to_string()));
    assert_eq!(next, StartupStep::Setup);
    assert!(log.is_none());
    let (next, log) = next_step(StartupStep::Done, &Outcome::Done);
    assert_eq!(next, StartupStep::Done);
    assert!(log.is_none());
}
