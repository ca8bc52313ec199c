use nepix::app::{after_report, ends_wait, game_end_lines, AfterReport, App, Screen};
use nepix::config::Config;
use nepix::mc::McEvent;

#[test]
fn messages_when_game_ends() {
    assert_eq!(
        game_end_lines(&Some(McEvent::ProcessExited { exit_code: -1 })),
        vec!["  Minecraft exited with code -1".to_string(), "  Returning to launcher...\n".to_string()]
    );
    assert_eq!(game_end_lines(&Some(McEvent::Done)), vec!["  Minecraft closed.\n".to_string()]);
    assert_eq!(
        game_end_lines(&Some(McEvent::Error("boom".into()))),
        vec!["  Error: boom\n".to_string()]
    );
    assert!(game_end_lines(&Some(McEvent::Status("x".into()))).is_empty());
    assert_eq!(
        game_end_lines(&None),
        vec!["  Launcher task ended unexpectedly.\n".to_string()]
    );
}

#[test]
fn event_loop_steps() {
    assert_eq!(after_report(true, Screen::Installing), AfterReport::Redraw);
    assert_eq!(after_report(false, Screen::Installing), AfterReport::Redraw);
    assert_eq!(after_report(true, Screen::GameRunning), AfterReport::GameStarted);
    assert_eq!(after_report(true, Screen::Main), AfterReport::LeftInstall);
    assert_eq!(after_report(false, Screen::Main), AfterReport::Continue);
    assert_eq!(after_report(false, Screen::GameRunning), AfterReport::Continue);
}

#[test]
fn back_from_game() {
    let mut app = App::new(Config::default(), Vec::new());
    app.handle_mc_event(McEvent::Launched { pid: 1 });
    assert_eq!(app.screen, Screen::GameRunning);
    app.return_from_game();
    assert_eq!(app.screen, Screen::Main);
}

#[test]
fn wait_ends_only_on_exit_done_error() {
    assert!(ends_wait(&None));
    assert!(ends_wait(&Some(McEvent::ProcessExited { exit_code: 0 })));
    assert!(ends_wait(&Some(McEvent::Done)));
    assert!(ends_wait(&Some(McEvent::Error("e".into()))));
    assert!(!ends_wait(&Some(McEvent::ProcessOutput("line".into()))));
    assert!(!ends_wait(&Some(McEvent::Status("s".into()))));
    assert!(!ends_wait(&Some(McEvent::Launched { pid: 3 })));
    assert!(!ends_wait(&Some(McEvent::Progress { current: 1, total: 2 })));
}
