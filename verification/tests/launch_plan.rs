use nepix::mc::{forward_notice, jvm_options, LaunchNotice, McEvent};

fn pairs(v: &[(&str, &str)]) -> Vec<(String, String)> {
    v.iter().map(|(a, b)| (a.to_string(), b.to_string())).collect()
}

#[test]
fn jvm_options_in_order() {
    let args: Vec<String> = vec![
        " -XX:+UseG1GC ".into(),
        "--Dfile.encoding=UTF-8".into(),
        "   ".into(),
        "-Da=b=c".into(),
    ];
    let got = jvm_options("4G", "2G", "/games/x/natives", &args);
    assert_eq!(
        got,
        pairs(&[
            ("Xmx", "4G"),
            ("Xms", "2G"),
            ("Djava.library.path", "/games/x/natives"),
            ("XX:+UseG1GC", ""),
            ("Dfile.encoding", "UTF-8"),
            ("Da", "b=c"),
        ])
    );
}

#[test]
fn jvm_options_without_user_arguments() {
    let got = jvm_options("8G", "512M", "n", &[]);
    assert_eq!(got, pairs(&[("Xmx", "8G"), ("Xms", "512M"), ("Djava.library.path", "n")]));
}

fn status_text(e: &McEvent) -> Option<&str> {
    match e {
        McEvent::Status(s) => Some(s.as_str()),
        _ => None,
    }
}

#[test]
fn download_counter_restarts_and_grows() {
    let f = forward_notice(999, LaunchNotice::InstallStarted { total_bytes: 5000 });
    assert_eq!(f.downloaded, 0);
    assert!(!f.stop);
    assert!(matches!(f.events[0], McEvent::Progress { current: 0, total: 5000 }));
    assert_eq!(status_text(&f.events[1]), Some("Downloading..."));
    let f = forward_notice(f.downloaded, LaunchNotice::InstallProgress { bytes: 1200 });
    let f = forward_notice(f.downloaded, LaunchNotice::InstallProgress { bytes: 300 });
    assert_eq!(f.downloaded, 1500);
    assert!(matches!(f.events[..], [McEvent::Progress { current: 1500, total: 0 }]));
}

#[test]
fn completion_and_launch_reports() {
    let f = forward_notice(10, LaunchNotice::InstallCompleted { total_bytes: 5000 });
    assert_eq!(f.downloaded, 10);
    assert!(matches!(f.events[0], McEvent::Progress { current: 5000, total: 5000 }));
    assert_eq!(status_text(&f.events[1]), Some("Install complete. Launching..."));
    let f = forward_notice(10, LaunchNotice::IsInstalled);
    assert_eq!(status_text(&f.events[0]), Some("Already installed, preparing Java..."));
    let f = forward_notice(10, LaunchNotice::Launching);
    assert_eq!(status_text(&f.events[0]), Some("Launching Minecraft..."));
    let f = forward_notice(10, LaunchNotice::Launched { pid: 4242 });
    assert!(matches!(f.events[..], [McEvent::Launched { pid: 4242 }]));
    assert!(!f.stop);
    let f = forward_notice(10, LaunchNotice::ProcessOutput { line: "[Render thread] ok".into() });
    assert!(matches!(&f.events[..], [McEvent::ProcessOutput(l)] if l == "[Render thread] ok"));
}

#[test]
fn end_reports_stop_listening() {
    let f = forward_notice(0, LaunchNotice::ProcessExited { exit_code: -1 });
    assert!(f.stop);
    assert!(matches!(f.events[..], [McEvent::ProcessExited { exit_code: -1 }]));
    let f = forward_notice(0, LaunchNotice::NotLaunched { error: "no java".into() });
    assert!(f.stop);
    assert!(matches!(&f.events[..], [McEvent::Error(e)] if e == "no java"));
    let f = forward_notice(7, LaunchNotice::Other);
    assert!(!f.stop);
    assert!(f.events.is_empty());
    assert_eq!(f.downloaded, 7);
}
