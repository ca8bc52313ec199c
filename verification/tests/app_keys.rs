use nepix::app::{App, AuthEvent, Effect, Key, KeyCode, Modifiers, Progress, Screen};
use nepix::config::Config;
use nepix::mc::{McEvent, VersionEntry};

fn entry(id: &str, t: &str) -> VersionEntry {
    VersionEntry { id: id.to_string(), version_type: t.to_string() }
}

fn sample_versions() -> Vec<VersionEntry> {
    vec![
        entry("1.21.4", "release"),
        entry("25w14a", "snapshot"),
        entry("1.21.3", "release"),
        entry("1.21.2", "release"),
    ]
}

fn plain_key(code: KeyCode) -> Key {
    Key { code, modifiers: Modifiers::Plain }
}

fn ctrl_key(code: KeyCode) -> Key {
    Key { code, modifiers: Modifiers::Control }
}

fn fresh_app() -> App {
    App::new(Config::default(), sample_versions())
}

fn press(app: &mut App, key: Key) -> (bool, Vec<Effect>) {
    let o = app.handle_key(key, 3);
    (o.quit, o.effects)
}

fn count_saves(fx: &[Effect]) -> usize {
    fx.iter().filter(|e| matches!(e, Effect::SaveConfig)).count()
}

#[test]
fn start_selects_remembered_version_and_loader() {
    let mut c = Config::default();
    c.last_version = "1.21.3".into();
    c.last_loader = "Quilt".into();
    c.theme = 2;
    let app = App::new(c, sample_versions());
    assert_eq!(app.screen, Screen::Main);
    assert_eq!(app.selected_version, 1);
    assert_eq!(app.loader_idx, 2);
    assert_eq!(app.theme_idx, 2);
    assert_eq!(app.current_version(), "1.21.3");
}

#[test]
fn remembered_release_after_a_snapshot_is_selected() {
    let mut c = Config::default();
    c.last_version = "1.21".into();
    let versions = vec![entry("24w01a", "snapshot"), entry("1.21", "release")];
    let app = App::new(c, versions);
    assert_eq!(app.current_version(), "1.21");
}

#[test]
fn remembered_snapshot_is_selected_when_snapshots_shown() {
    let mut c = Config::default();
    c.last_version = "25w14a".into();
    c.show_snapshots = true;
    let app = App::new(c, sample_versions());
    assert_eq!(app.selected_version, 1);
    assert_eq!(app.current_version(), "25w14a");
}

#[test]
fn remembered_snapshot_hidden_selects_first() {
    let mut c = Config::default();
    c.last_version = "25w14a".into();
    let app = App::new(c, sample_versions());
    assert_eq!(app.selected_version, 0);
    assert_eq!(app.current_version(), "1.21.4");
}

#[test]
fn start_with_unknown_names_selects_first() {
    let mut c = Config::default();
    c.last_version = "0.0".into();
    c.last_loader = "Rift".into();
    let app = App::new(c, sample_versions());
    assert_eq!(app.selected_version, 0);
    assert_eq!(app.loader_idx, 0);
    assert_eq!(app.current_version(), "1.21.4");
}

#[test]
fn list_hides_snapshots_unless_asked() {
    let mut app = fresh_app();
    let ids: Vec<&str> = app.filtered_versions().iter().map(|v| v.id.as_str()).collect();
    assert_eq!(ids, vec!["1.21.4", "1.21.3", "1.21.2"]);
    press(&mut app, ctrl_key(KeyCode::Char('v')));
    assert!(app.show_snapshots);
    assert_eq!(app.filtered_versions().len(), 4);
    press(&mut app, ctrl_key(KeyCode::Char('V')));
    assert!(!app.show_snapshots);
    assert_eq!(app.selected_version, 0);
}

#[test]
fn up_and_down_stay_in_list() {
    let mut app = fresh_app();
    app.error_message = Some("old".into());
    press(&mut app, plain_key(KeyCode::Up));
    assert_eq!(app.selected_version, 0);
    assert_eq!(app.error_message, None);
    for _ in 0..5 {
        press(&mut app, plain_key(KeyCode::Char('j')));
    }
    assert_eq!(app.selected_version, 2);
    assert_eq!(app.current_version(), "1.21.2");
    press(&mut app, plain_key(KeyCode::Char('k')));
    assert_eq!(app.current_version(), "1.21.3");
}

#[test]
fn empty_list_keeps_selection() {
    let mut app = App::new(Config::default(), Vec::new());
    press(&mut app, plain_key(KeyCode::Down));
    assert_eq!(app.selected_version, 0);
    assert_eq!(app.current_version(), "");
}

#[test]
fn loader_selector_bounds() {
    let mut app = fresh_app();
    press(&mut app, plain_key(KeyCode::Left));
    assert_eq!(app.loader_idx, 0);
    for _ in 0..10 {
        press(&mut app, plain_key(KeyCode::Right));
    }
    assert_eq!(app.loader_idx, 4);
    press(&mut app, plain_key(KeyCode::Left));
    assert_eq!(app.loader_idx, 3);
}

#[test]
fn quit_remembers_selection() {
    let mut app = fresh_app();
    press(&mut app, plain_key(KeyCode::Down));
    press(&mut app, plain_key(KeyCode::Right));
    let (quit, fx) = press(&mut app, plain_key(KeyCode::Char('q')));
    assert!(quit);
    assert_eq!(count_saves(&fx), 1);
    assert_eq!(app.config.last_version, "1.21.3");
    assert_eq!(app.config.last_loader, "Fabric");
}

#[test]
fn q_with_modifiers_does_not_quit() {
    let mut app = fresh_app();
    let (quit, fx) = press(&mut app, Key { code: KeyCode::Char('Q'), modifiers: Modifiers::Other });
    assert!(!quit);
    assert!(fx.is_empty());
    let (quit, _) = press(&mut app, plain_key(KeyCode::Char('Q')));
    assert!(quit);
}

#[test]
fn online_mode_toggle_is_saved() {
    let mut app = fresh_app();
    let (_, fx) = press(&mut app, ctrl_key(KeyCode::Char('m')));
    assert!(app.config.online_mode);
    assert_eq!(count_saves(&fx), 1);
}

#[test]
fn enter_offline_launches() {
    let mut app = fresh_app();
    app.config.jvm_args = " -Xss1M , ,-XX:+UseG1GC".into();
    press(&mut app, plain_key(KeyCode::Right));
    let (quit, fx) = press(&mut app, plain_key(KeyCode::Enter));
    assert!(!quit);
    assert_eq!(app.screen, Screen::Installing);
    assert_eq!(app.install_status, "Starting...");
    assert_eq!(app.install_progress, Progress::Fraction { done: 0, total: 1 });
    assert!(app.install_started);
    match &fx[..] {
        [Effect::Launch(r)] => {
            assert_eq!(r.version, "1.21.4");
            assert_eq!(r.loader, "Fabric");
            assert_eq!(r.username, "Player");
            assert_eq!(r.min_ram, "2G");
            assert_eq!(r.max_ram, "4G");
            assert_eq!(r.jvm_args, vec!["-Xss1M".to_string(), "-XX:+UseG1GC".to_string()]);
            assert!(!r.online);
        },
        _ => panic!("expected one launch"),
    }
}

#[test]
fn enter_online_starts_sign_in() {
    let mut app = fresh_app();
    app.config.online_mode = true;
    app.config.msa_refresh_token = Some("tok".into());
    let (_, fx) = press(&mut app, plain_key(KeyCode::Enter));
    assert_eq!(app.screen, Screen::Auth);
    assert_eq!(app.auth_status, "Connecting to Microsoft...");
    assert!(matches!(&fx[..], [Effect::StartAuth { refresh_token: Some(t) }] if t == "tok"));
}

#[test]
fn o_launches_offline_even_online() {
    let mut app = fresh_app();
    app.config.online_mode = true;
    let (_, fx) = press(&mut app, plain_key(KeyCode::Char('O')));
    assert_eq!(app.install_status, "Starting... (offline)");
    assert!(matches!(&fx[..], [Effect::Launch(r)] if !r.online));
}

#[test]
fn tab_cycles_themes() {
    let mut app = fresh_app();
    let mut seen = Vec::new();
    for _ in 0..3 {
        let (_, fx) = press(&mut app, plain_key(KeyCode::Tab));
        assert_eq!(count_saves(&fx), 1);
        seen.push(app.theme_idx);
    }
    assert_eq!(seen, vec![1, 2, 0]);
    assert_eq!(app.config.theme, 0);
}

#[test]
fn config_screen_round_trip_keeps_settings() {
    let mut app = fresh_app();
    app.config.mods = vec!["sodium".into()];
    press(&mut app, ctrl_key(KeyCode::Char('p')));
    assert_eq!(app.screen, Screen::Config);
    assert_eq!(app.edit.username, "Player");
    let (_, fx) = press(&mut app, plain_key(KeyCode::Esc));
    assert_eq!(app.screen, Screen::Main);
    assert_eq!(count_saves(&fx), 2);
    assert_eq!(app.config.username, "Player");
    assert_eq!(app.config.mods, vec!["sodium".to_string()]);
    assert_eq!(app.config.last_loader, "Vanilla");
    assert_eq!(app.config.last_version, "1.21.4");
}

#[test]
fn typing_replaces_then_appends() {
    let mut app = fresh_app();
    press(&mut app, ctrl_key(KeyCode::Char('p')));
    for c in "Steve".chars() {
        press(&mut app, plain_key(KeyCode::Char(c)));
    }
    assert_eq!(app.edit.username, "Steve");
    press(&mut app, plain_key(KeyCode::Backspace));
    assert_eq!(app.edit.username, "Stev");
    press(&mut app, plain_key(KeyCode::Tab));
    press(&mut app, plain_key(KeyCode::Char('8')));
    press(&mut app, plain_key(KeyCode::Char('G')));
    assert_eq!(app.edit.min_ram, "8G");
    press(&mut app, plain_key(KeyCode::Enter));
    assert_eq!(app.config_focus, 2);
    // Enter on the Save button
    for _ in 0..4 {
        press(&mut app, plain_key(KeyCode::Down));
    }
    assert_eq!(app.config_focus, 6);
    let (_, fx) = press(&mut app, plain_key(KeyCode::Enter));
    assert_eq!(count_saves(&fx), 2);
    assert_eq!(app.screen, Screen::Main);
    assert_eq!(app.config.username, "Stev");
    assert_eq!(app.config.min_ram, "8G");
    assert_eq!(app.config.max_ram, "4G");
}

#[test]
fn mods_are_added_and_removed() {
    let mut app = fresh_app();
    press(&mut app, ctrl_key(KeyCode::Char('p')));
    for _ in 0..4 {
        press(&mut app, plain_key(KeyCode::Tab));
    }
    assert_eq!(app.config_focus, 4);
    press(&mut app, plain_key(KeyCode::Enter));
    assert!(app.edit.mods.is_empty());
    for c in "lithium".chars() {
        press(&mut app, plain_key(KeyCode::Char(c)));
    }
    press(&mut app, plain_key(KeyCode::Enter));
    assert_eq!(app.edit.mods, vec!["lithium".to_string()]);
    assert_eq!(app.edit.mod_input, "");
    press(&mut app, plain_key(KeyCode::Char('x')));
    assert_eq!(app.edit.mod_input, "x");
    press(&mut app, ctrl_key(KeyCode::Char('d')));
    assert!(app.edit.mods.is_empty());
    press(&mut app, ctrl_key(KeyCode::Char('d')));
    assert!(app.edit.mods.is_empty());
}

#[test]
fn config_focus_wraps() {
    let mut app = fresh_app();
    press(&mut app, ctrl_key(KeyCode::Char('p')));
    press(&mut app, plain_key(KeyCode::BackTab));
    assert_eq!(app.config_focus, 6);
    press(&mut app, plain_key(KeyCode::Tab));
    assert_eq!(app.config_focus, 0);
    for _ in 0..7 {
        press(&mut app, plain_key(KeyCode::Tab));
    }
    assert_eq!(app.config_focus, 0);
}

#[test]
fn game_directory_button() {
    let mut app = fresh_app();
    press(&mut app, ctrl_key(KeyCode::Char('p')));
    for _ in 0..5 {
        press(&mut app, plain_key(KeyCode::Tab));
    }
    let (_, fx) = press(&mut app, plain_key(KeyCode::Enter));
    assert!(matches!(fx[..], [Effect::OpenGameDirectory]));
    assert_eq!(app.screen, Screen::Config);
}

#[test]
fn ctrl_c_cancels_installation() {
    let mut app = fresh_app();
    press(&mut app, plain_key(KeyCode::Enter));
    app.handle_mc_event(McEvent::Progress { current: 10, total: 100 });
    let (_, fx) = press(&mut app, ctrl_key(KeyCode::Char('x')));
    assert!(fx.is_empty());
    let (quit, fx) = press(&mut app, ctrl_key(KeyCode::Char('c')));
    assert!(!quit);
    assert!(matches!(fx[..], [Effect::CancelLaunch]));
    assert_eq!(app.screen, Screen::Main);
    assert_eq!(app.install_status, "");
    assert_eq!(app.install_current, 0);
    assert_eq!(app.install_total, 0);
}

#[test]
fn any_key_quits_while_game_runs() {
    let mut app = fresh_app();
    app.screen = Screen::GameRunning;
    let (quit, fx) = press(&mut app, plain_key(KeyCode::Char('a')));
    assert!(quit);
    assert!(fx.is_empty());
}

#[test]
fn esc_leaves_sign_in() {
    let mut app = fresh_app();
    app.config.online_mode = true;
    press(&mut app, plain_key(KeyCode::Enter));
    app.handle_auth_event(AuthEvent::DeviceCode { url: "https://microsoft.com/link".into(), code: "ABCD".into() });
    assert_eq!(app.auth_code.as_deref(), Some("ABCD"));
    assert_eq!(app.auth_status, "Login with Microsoft");
    press(&mut app, plain_key(KeyCode::Enter));
    assert_eq!(app.screen, Screen::Auth);
    press(&mut app, plain_key(KeyCode::Esc));
    assert_eq!(app.screen, Screen::Main);
    assert_eq!(app.auth_code, None);
    assert_eq!(app.auth_url, None);
    assert_eq!(app.auth_status, "");
}

#[test]
fn sign_in_success_saves_token_and_launches() {
    let mut app = fresh_app();
    app.config.online_mode = true;
    let fx = app.handle_auth_event(AuthEvent::Success { refresh_token: Some("r1".into()) });
    assert_eq!(app.config.msa_refresh_token.as_deref(), Some("r1"));
    assert_eq!(app.screen, Screen::Installing);
    assert!(matches!(&fx[..], [Effect::SaveConfig, Effect::Launch(r)] if r.online));
    let fx = app.handle_auth_event(AuthEvent::Success { refresh_token: None });
    assert!(matches!(&fx[..], [Effect::Launch(_)]));
}

#[test]
fn sign_in_error_is_shown() {
    let mut app = fresh_app();
    let fx = app.handle_auth_event(AuthEvent::Error("timeout".into()));
    assert!(fx.is_empty());
    assert_eq!(app.auth_status, "Auth error: timeout");
}

#[test]
fn progress_reports() {
    let mut app = fresh_app();
    press(&mut app, plain_key(KeyCode::Enter));
    app.handle_mc_event(McEvent::Progress { current: 5, total: 0 });
    assert_eq!(app.install_progress, Progress::Fraction { done: 0, total: 1 });
    assert_eq!(app.install_current, 5);
    app.advance_fake_progress();
    assert_eq!(app.install_progress, Progress::Estimated);
    app.handle_mc_event(McEvent::Progress { current: 0, total: 400 });
    assert_eq!(app.install_progress, Progress::Fraction { done: 0, total: 400 });
    assert!(app.install_has_real_progress);
    app.handle_mc_event(McEvent::Progress { current: 100, total: 0 });
    assert_eq!(app.install_progress, Progress::Fraction { done: 100, total: 400 });
    app.advance_fake_progress();
    assert_eq!(app.install_progress, Progress::Fraction { done: 100, total: 400 });
    app.handle_mc_event(McEvent::Status("Downloading...".into()));
    assert_eq!(app.install_status, "Downloading...");
}

#[test]
fn fake_progress_needs_a_start() {
    let mut app = fresh_app();
    app.advance_fake_progress();
    assert_eq!(app.install_progress, Progress::Fraction { done: 0, total: 1 });
}

#[test]
fn game_lifecycle_events() {
    let mut app = fresh_app();
    press(&mut app, plain_key(KeyCode::Down));
    press(&mut app, plain_key(KeyCode::Enter));
    app.handle_mc_event(McEvent::Launched { pid: 7 });
    assert_eq!(app.screen, Screen::GameRunning);
    assert_eq!(app.install_status, "Launching...");
    assert_eq!(app.install_progress, Progress::Fraction { done: 1, total: 1 });
    app.handle_mc_event(McEvent::ProcessOutput("hello".into()));
    assert_eq!(app.screen, Screen::GameRunning);
    let fx = app.handle_mc_event(McEvent::ProcessExited { exit_code: 0 });
    assert_eq!(app.screen, Screen::Main);
    assert_eq!(count_saves(&fx), 1);
    assert_eq!(app.config.last_version, "1.21.3");
}

#[test]
fn done_only_leaves_installing() {
    let mut app = fresh_app();
    app.handle_mc_event(McEvent::Done);
    assert_eq!(app.screen, Screen::Main);
    press(&mut app, ctrl_key(KeyCode::Char('p')));
    app.handle_mc_event(McEvent::Done);
    assert_eq!(app.screen, Screen::Config);
    press(&mut app, plain_key(KeyCode::Esc));
    press(&mut app, plain_key(KeyCode::Enter));
    app.handle_mc_event(McEvent::Done);
    assert_eq!(app.screen, Screen::Main);
}

#[test]
fn launch_error_is_shown() {
    let mut app = fresh_app();
    press(&mut app, plain_key(KeyCode::Enter));
    app.handle_mc_event(McEvent::Error("Launch failed: no java".into()));
    assert_eq!(app.screen, Screen::Main);
    assert_eq!(app.error_message.as_deref(), Some("Launch failed: no java"));
    assert_eq!(app.install_progress, Progress::Fraction { done: 1, total: 1 });
}

#[test]
fn jvm_argument_list() {
    let mut app = fresh_app();
    app.config.jvm_args = "-XX:+UseG1GC,-XX:+ParallelRefProcEnabled".into();
    assert_eq!(
        app.parse_jvm_args(),
        vec!["-XX:+UseG1GC".to_string(), "-XX:+ParallelRefProcEnabled".to_string()]
    );
    app.config.jvm_args = " , ".into();
    assert!(app.parse_jvm_args().is_empty());
}

#[test]
fn direct_theme_and_error_calls() {
    let mut app = fresh_app();
    app.error_message = Some("x".into());
    app.clear_error();
    assert_eq!(app.error_message, None);
    let fx = app.cycle_theme(1);
    assert_eq!(app.theme_idx, 0);
    assert_eq!(count_saves(&fx), 1);
    app.start_config();
    assert_eq!(app.screen, Screen::Config);
    assert_eq!(app.edit.field_dirty, [false; 5]);
}

#[test]
fn online_toggle_twice_restores_mode() {
    let mut app = fresh_app();
    let (_, a) = press(&mut app, ctrl_key(KeyCode::Char('m')));
    let (_, b) = press(&mut app, ctrl_key(KeyCode::Char('M')));
    assert!(!app.config.online_mode);
    assert_eq!(count_saves(&a) + count_saves(&b), 2);
}

#[test]
fn right_then_left_returns() {
    let mut app = fresh_app();
    press(&mut app, plain_key(KeyCode::Right));
    press(&mut app, plain_key(KeyCode::Right));
    press(&mut app, plain_key(KeyCode::Left));
    assert_eq!(app.loader_idx, 1);
}

#[test]
fn main_handler_moves_loader_with_any_modifiers() {
    let mut app = fresh_app();
    app.error_message = Some("boom".to_string());
    let mut fx: Vec<Effect> = Vec::new();
    let quit = app.handle_main_key(ctrl_key(KeyCode::Right), 3, &mut fx);
    assert!(!quit);
    assert!(fx.is_empty());
    assert_eq!(app.loader_idx, 1);
    assert_eq!(app.error_message, None);
    for _ in 0..6 {
        let mut fx: Vec<Effect> = Vec::new();
        app.handle_main_key(plain_key(KeyCode::Right), 3, &mut fx);
    }
    assert_eq!(app.loader_idx, 4);
    let mut fx: Vec<Effect> = Vec::new();
    app.handle_main_key(Key { code: KeyCode::Left, modifiers: Modifiers::Other }, 3, &mut fx);
    assert_eq!(app.loader_idx, 3);
}

#[test]
fn config_handler_focus_round_trips() {
    let mut app = fresh_app();
    press(&mut app, ctrl_key(KeyCode::Char('p')));
    assert_eq!(app.screen, Screen::Config);
    let mut fx: Vec<Effect> = Vec::new();
    assert!(!app.handle_config_key(plain_key(KeyCode::BackTab), &mut fx));
    assert_eq!(app.config_focus, 6);
    let mut fx: Vec<Effect> = Vec::new();
    app.handle_config_key(ctrl_key(KeyCode::Tab), &mut fx);
    assert_eq!(app.config_focus, 0);
    let mut fx: Vec<Effect> = Vec::new();
    app.handle_config_key(plain_key(KeyCode::Enter), &mut fx);
    assert_eq!(app.config_focus, 1);
    let mut fx: Vec<Effect> = Vec::new();
    app.handle_config_key(plain_key(KeyCode::Down), &mut fx);
    let mut fx: Vec<Effect> = Vec::new();
    app.handle_config_key(plain_key(KeyCode::Up), &mut fx);
    assert_eq!(app.config_focus, 1);
    for _ in 0..7 {
        let mut fx: Vec<Effect> = Vec::new();
        app.handle_config_key(plain_key(KeyCode::Tab), &mut fx);
    }
    assert_eq!(app.config_focus, 1);
    assert!(fx.is_empty());
}
