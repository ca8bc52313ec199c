use nepix::log::{info, Elapsed};

#[test]
fn nothing_is_logged_before_start() {
    assert_eq!(info(None, "LOG", "Logger initialized"), None);
}

#[test]
fn log_line_has_padded_time() {
    let line = info(Some(Elapsed { secs: 3723, millis: 45 }), "MAIN", "Loaded 12 versions");
    assert_eq!(line.as_deref(), Some("[01:02:03.045][MAIN] Loaded 12 versions"));
}

#[test]
fn log_line_at_start() {
    let line = info(Some(Elapsed { secs: 0, millis: 0 }), "LOG", "Logger initialized");
    assert_eq!(line.as_deref(), Some("[00:00:00.000][LOG] Logger initialized"));
}

#[test]
fn log_line_past_ninety_nine_hours() {
    let line = info(Some(Elapsed { secs: 360000 + 59 * 60 + 59, millis: 999 }), "X", "");
    assert_eq!(line.as_deref(), Some("[100:59:59.999][X] "));
}
