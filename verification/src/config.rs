//! The launcher's persistent settings.
use vstd::prelude::*;
use crate::text::owned;

verus! {

/// Everything the launcher remembers between runs.
pub struct Config {
    /// Player name used for offline sessions.
    pub username: String,
    /// Minimum JVM heap (for example `"2G"`).
    pub min_ram: String,
    /// Maximum JVM heap (for example `"4G"`).
    pub max_ram: String,
    /// Extra JVM options, separated by commas.
    pub jvm_args: String,
    /// The Minecraft version selected last.
    pub last_version: String,
    /// The loader selected last (`"Vanilla"`, `"Fabric"`, ...).
    pub last_loader: String,
    /// Whether snapshot versions are listed besides releases.
    pub show_snapshots: bool,
    /// Modrinth slugs of the mods to install.
    pub mods: Vec<String>,
    /// Index of the colour theme.
    pub theme: usize,
    /// Whether Enter signs in with Microsoft before launching.
    pub online_mode: bool,
    /// Refresh token of the last Microsoft session, if any.
    pub msa_refresh_token: Option<String>,
}

impl Config {
    /// The settings of a first run.
    pub open spec fn is_first_run(self) -> bool {
        &&& self.username@ == "Player"@
        &&& self.min_ram@ == "2G"@
        &&& self.max_ram@ == "4G"@
        &&& self.jvm_args@ == "-XX:+UseG1GC"@
        &&& self.last_version@ == Seq::<char>::empty()
        &&& self.last_loader@ == "Vanilla"@
        &&& !self.show_snapshots
        &&& self.mods@ == Seq::<String>::empty()
        &&& self.theme == 0
        &&& !self.online_mode
        &&& self.msa_refresh_token is None
    }
}

impl Default for Config {
    /// The settings of a user who opens the launcher for the first time.
    fn default() -> (c: Self)
        ensures
            c.is_first_run(),
    {
        Config {
            username: owned("Player"),
            min_ram: owned("2G"),
            max_ram: owned("4G"),
            jvm_args: owned("-XX:+UseG1GC"),
            last_version: String::new(),
            last_loader: owned("Vanilla"),
            show_snapshots: false,
            mods: Vec::new(),
            theme: 0,
            online_mode: false,
            msa_refresh_token: None,
        }
    }
}

} // verus!
