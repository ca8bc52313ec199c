use nepix::config::Config;

#[test]
fn first_run_settings() {
    let c = Config::default();
    assert_eq!(c.username, "Player");
    assert_eq!(c.min_ram, "2G");
    assert_eq!(c.max_ram, "4G");
    assert_eq!(c.jvm_args, "-XX:+UseG1GC");
    assert_eq!(c.last_version, "");
    assert_eq!(c.last_loader, "Vanilla");
    assert!(!c.show_snapshots);
    assert!(c.mods.is_empty());
    assert_eq!(c.theme, 0);
    assert!(!c.online_mode);
    assert_eq!(c.msa_refresh_token, None);
}
